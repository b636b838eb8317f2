//! PFR (Platform Firmware Resilience) state machine.
//!
//! Implements the NIST SP 800-193 lifecycle:
//! Verify → Release → Monitor → Recover → Lockdown.
//!
//! The state machine is the top-level orchestrator. Protocol tasks are
//! subordinate — they can trigger re-verification or forced recovery but
//! cannot override the state machine.
//!
//! - **Init**: entry point; hardware is not yet held in reset.
//! - **TMinus1**: platform held in reset; awaiting verification.
//! - **Verify**: validate firmware images against signed manifests (PFM).
//! - **Release**: program SPI filter engine, deassert component reset.
//! - **Monitor**: runtime SPI filtering, watchdog supervision.
//! - **Recover**: restore from golden/recovery image on failure or timeout.
//! - **Lockdown**: terminal state when all recovery attempts are exhausted.
use vstd::prelude::*;

verus! {

/// PFR state machine states.
#[derive(Debug, Clone, Copy, PartialEq, Eq, Structural)]
pub enum State {
    /// Initial platform setup before targets are held in reset.
    Init,
    /// Platform is held in reset before firmware verification.
    TMinus1,
    /// Verifying firmware images against signed manifests.
    Verify,
    /// Releasing component (SPI filter active, reset deasserted).
    Release,
    /// Runtime monitoring (SPI filter + watchdog).
    Monitor,
    /// Recovering from golden/recovery image.
    Recover,
    /// Terminal: all recovery attempts exhausted; platform stays locked.
    Lockdown,
}

/// PFR state machine events.
#[derive(Debug, Clone, Copy, PartialEq, Eq, Structural)]
pub enum Event {
    /// Initial boot event.
    Boot,
    /// Platform hold/setup completed.
    PlatformHeld,
    /// Firmware verification completed successfully.
    VerificationPassed,
    /// Firmware verification failed.
    VerificationFailed,
    /// Platform release completed.
    ReleaseComplete,
    /// A monitored reset was detected at runtime.
    ResetDetected,
    /// A watchdog or checkpoint timeout occurred.
    WatchdogTimeout,
    /// Recovery completed successfully; re-enter verification.
    RecoveryComplete,
    /// Recovery failed; no further recovery is possible.
    RecoveryFailed,
}

/// Platform component associated with an event or action.
#[derive(Debug, Clone, Copy, PartialEq, Eq, Structural)]
pub enum Component {
    Platform,
    Bmc,
    Pch,
    Cpld,
    Afm,
}

/// Event plus component metadata for protocol and monitor tasks.
#[derive(Debug, Clone, Copy, PartialEq, Eq, Structural)]
pub struct EventRecord {
    pub event: Event,
    pub component: Component,
    pub code: u32,
}

impl EventRecord {
    /// Create an event record with no implementation-specific status code.
    pub fn new(event: Event, component: Component) -> (r: Self)
        ensures
            r == (EventRecord { event, component, code: 0 }),
    {
        EventRecord { event, component, code: 0 }
    }

    /// Create an event record with an implementation-specific status code.
    pub fn with_code(event: Event, component: Component, code: u32) -> (r: Self)
        ensures
            r == (EventRecord { event, component, code }),
    {
        EventRecord { event, component, code }
    }
}

/// Construct an `EventRecord` for a component — shorthand for [`EventRecord::new`].
pub fn event_for(event: Event, component: Component) -> (r: EventRecord)
    ensures
        r == (EventRecord { event, component, code: 0 }),
{
    EventRecord::new(event, component)
}

/// Reason the state machine entered `Recover` or `Lockdown`.
#[derive(Debug, Clone, Copy, PartialEq, Eq, Structural)]
pub enum RecoveryReason {
    VerificationFailed,
    ResetDetected,
    WatchdogTimeout,
    RecoveryFailed,
}

/// Hardware-independent action requested by a state transition.
///
/// The embedding executor maps each variant to concrete platform calls.
#[derive(Debug, Clone, Copy, PartialEq, Eq, Structural)]
pub enum Action {
    Idle,
    HoldPlatform,
    VerifyImages,
    ReleasePlatform,
    StartMonitoring,
    RecoverImages,
    Lockdown,
}

/// Whether an event produced a state change.
#[derive(Debug, Clone, Copy, PartialEq, Eq, Structural)]
pub enum EventDisposition {
    Transitioned,
    Ignored,
}

/// Result of processing one event.
#[derive(Debug, Clone, Copy, PartialEq, Eq, Structural)]
pub struct Transition {
    pub state: State,
    pub action: Action,
    pub disposition: EventDisposition,
}

impl Transition {
    /// Return `true` if the event was a no-op and no action is requested.
    pub fn is_ignored(&self) -> (b: bool)
        ensures
            b <==> self.disposition == EventDisposition::Ignored,
    {
        match self.disposition {
            EventDisposition::Ignored => true,
            EventDisposition::Transitioned => false,
        }
    }

    /// Return `true` if the transition requests concrete platform work.
    pub fn needs_action(&self) -> (b: bool)
        ensures
            b <==> self.action != Action::Idle,
    {
        match self.action {
            Action::Idle => false,
            _ => true,
        }
    }
}

/// Abstract state of a [`Machine`]: its lifecycle state and the reason for the
/// last recovery or lockdown.
pub struct MachineView {
    pub state: State,
    pub recovery_reason: Option<RecoveryReason>,
}

/// The machine state after `reason` forced recovery.
pub open spec fn recovering(reason: RecoveryReason) -> (MachineView, Action) {
    (MachineView { state: State::Recover, recovery_reason: Some(reason) }, Action::RecoverImages)
}

/// The lifecycle transition table: the next abstract state and the requested
/// action when `event` arrives in `m`.
///
/// Lockdown is terminal: every event there is a no-op. Outside lockdown a
/// failed recovery locks the platform down, and a failed verification, a
/// detected reset or a watchdog timeout forces recovery from any state.
pub open spec fn next_state(m: MachineView, event: Event) -> (MachineView, Action) {
    match (m.state, event) {
        (State::Lockdown, _) => (m, Action::Idle),
        (State::Init, Event::Boot) => (
            MachineView { state: State::TMinus1, recovery_reason: m.recovery_reason },
            Action::HoldPlatform,
        ),
        (State::TMinus1, Event::PlatformHeld) => (
            MachineView { state: State::Verify, recovery_reason: m.recovery_reason },
            Action::VerifyImages,
        ),
        (State::Verify, Event::VerificationPassed) => (
            MachineView { state: State::Release, recovery_reason: m.recovery_reason },
            Action::ReleasePlatform,
        ),
        (State::Release, Event::ReleaseComplete) => (
            MachineView { state: State::Monitor, recovery_reason: m.recovery_reason },
            Action::StartMonitoring,
        ),
        (State::Recover, Event::RecoveryComplete) => (
            MachineView { state: State::Verify, recovery_reason: None },
            Action::VerifyImages,
        ),
        (_, Event::RecoveryFailed) => (
            MachineView {
                state: State::Lockdown,
                recovery_reason: Some(RecoveryReason::RecoveryFailed),
            },
            Action::Lockdown,
        ),
        (_, Event::VerificationFailed) => recovering(RecoveryReason::VerificationFailed),
        (_, Event::ResetDetected) => recovering(RecoveryReason::ResetDetected),
        (_, Event::WatchdogTimeout) => recovering(RecoveryReason::WatchdogTimeout),
        _ => (m, Action::Idle),
    }
}

/// The [`Transition`] reported when `event` arrives in `m`: an event is
/// ignored exactly when the state is unchanged and no action is requested.
pub open spec fn transition_for(m: MachineView, event: Event) -> Transition {
    let (n, action) = next_state(m, event);
    Transition {
        state: n.state,
        action,
        disposition: if n.state == m.state && action == Action::Idle {
            EventDisposition::Ignored
        } else {
            EventDisposition::Transitioned
        },
    }
}

/// The recovery reason is recorded exactly while the machine is recovering or
/// locked down.
pub open spec fn reason_consistent(m: MachineView) -> bool {
    m.recovery_reason is Some <==> (m.state == State::Recover || m.state == State::Lockdown)
}

/// Minimal pure-logic PFR state machine.
///
/// `Copy` so Embassy tasks can hold a value-type snapshot for logging.
#[derive(Debug, Clone, Copy, PartialEq, Eq, Structural)]
pub struct Machine {
    state: State,
    recovery_reason: Option<RecoveryReason>,
}

impl View for Machine {
    type V = MachineView;

    closed spec fn view(&self) -> MachineView {
        MachineView { state: self.state, recovery_reason: self.recovery_reason }
    }
}

impl Machine {
    /// Create a new machine in the [`State::Init`] state.
    pub fn new() -> (m: Self)
        ensures
            m@ == (MachineView { state: State::Init, recovery_reason: None }),
    {
        Machine { state: State::Init, recovery_reason: None }
    }

    /// Return the current state.
    pub fn state(&self) -> (s: State)
        ensures
            s == self@.state,
    {
        self.state
    }

    /// Return the reason for the last recovery or lockdown, if any.
    pub fn recovery_reason(&self) -> (r: Option<RecoveryReason>)
        ensures
            r == self@.recovery_reason,
    {
        self.recovery_reason
    }

    /// Return `true` if the machine has reached the terminal [`State::Lockdown`].
    pub fn is_locked_down(&self) -> (b: bool)
        ensures
            b <==> self@.state == State::Lockdown,
    {
        match self.state {
            State::Lockdown => true,
            _ => false,
        }
    }

    /// Process an event using `Component::Platform` as the source.
    pub fn step(&mut self, event: Event) -> (s: State)
        ensures
            final(self)@ == next_state(old(self)@, event).0,
            s == final(self)@.state,
    {
        self.step_record(EventRecord::new(event, Component::Platform)).state
    }

    /// Process an event and return the full transition including the requested action.
    pub fn step_with_action(&mut self, event: Event) -> (t: Transition)
        ensures
            final(self)@ == next_state(old(self)@, event).0,
            t == transition_for(old(self)@, event),
    {
        self.step_record(EventRecord::new(event, Component::Platform))
    }

    /// Process a component-tagged event record.
    ///
    /// The returned [`Action`] is hardware-independent; the caller is
    /// responsible for executing platform-specific consequences.
    pub fn step_record(&mut self, record: EventRecord) -> (t: Transition)
        ensures
            final(self)@ == next_state(old(self)@, record.event).0,
            t == transition_for(old(self)@, record.event),
    {
        let previous = self.state;
        let event = record.event;

        let action = match (self.state, event) {
            // Lockdown is terminal: every event is a no-op.
            (State::Lockdown, _) => Action::Idle,
            (State::Init, Event::Boot) => {
                self.state = State::TMinus1;
                Action::HoldPlatform
            },
            (State::TMinus1, Event::PlatformHeld) => {
                self.state = State::Verify;
                Action::VerifyImages
            },
            (State::Verify, Event::VerificationPassed) => {
                self.state = State::Release;
                Action::ReleasePlatform
            },
            (State::Release, Event::ReleaseComplete) => {
                self.state = State::Monitor;
                Action::StartMonitoring
            },
            (State::Recover, Event::RecoveryComplete) => {
                self.recovery_reason = None;
                self.state = State::Verify;
                Action::VerifyImages
            },
            // RecoveryFailed is terminal — enter Lockdown, not Recover.
            (_, Event::RecoveryFailed) => {
                self.recovery_reason = Some(RecoveryReason::RecoveryFailed);
                self.state = State::Lockdown;
                Action::Lockdown
            },
            (_, Event::VerificationFailed) => self.enter_recovery(
                RecoveryReason::VerificationFailed,
            ),
            (_, Event::ResetDetected) => self.enter_recovery(RecoveryReason::ResetDetected),
            (_, Event::WatchdogTimeout) => self.enter_recovery(RecoveryReason::WatchdogTimeout),
            // All other combinations are no-ops.
            _ => Action::Idle,
        };

        let ignored = self.state == previous && action == Action::Idle;
        Transition {
            state: self.state,
            action,
            disposition: if ignored {
                EventDisposition::Ignored
            } else {
                EventDisposition::Transitioned
            },
        }
    }

    fn enter_recovery(&mut self, reason: RecoveryReason) -> (a: Action)
        ensures
            (final(self)@, a) == recovering(reason),
    {
        self.recovery_reason = Some(reason);
        self.state = State::Recover;
        Action::RecoverImages
    }
}

impl Default for Machine {
    fn default() -> (m: Self)
        ensures
            m@ == (MachineView { state: State::Init, recovery_reason: None }),
    {
        Self::new()
    }
}

// ── Laws ─────────────────────────────────────────────────────────────────────

/// Lockdown is terminal: once locked down, no event changes the machine and no
/// event requests an action.
pub proof fn lemma_lockdown_is_terminal(m: MachineView, event: Event)
    requires
        m.state == State::Lockdown,
    ensures
        next_state(m, event).0 == m,
        transition_for(m, event).action == Action::Idle,
        transition_for(m, event).disposition == EventDisposition::Ignored,
{
}

/// A failed recovery locks the platform down from every state.
pub proof fn lemma_recovery_failed_locks_down(m: MachineView)
    ensures
        next_state(m, Event::RecoveryFailed).0.state == State::Lockdown,
{
}

/// A failed verification, a detected reset or a watchdog timeout forces
/// recovery from every state but lockdown, and records why.
pub proof fn lemma_faults_force_recovery(m: MachineView, event: Event)
    requires
        m.state != State::Lockdown,
        event == Event::VerificationFailed || event == Event::ResetDetected || event
            == Event::WatchdogTimeout,
    ensures
        next_state(m, event).0.state == State::Recover,
        next_state(m, event).1 == Action::RecoverImages,
        next_state(m, event).0.recovery_reason == Some(
            match event {
                Event::VerificationFailed => RecoveryReason::VerificationFailed,
                Event::ResetDetected => RecoveryReason::ResetDetected,
                _ => RecoveryReason::WatchdogTimeout,
            },
        ),
{
}

/// Every step keeps the recovery reason recorded exactly while the machine is
/// recovering or locked down.
pub proof fn lemma_step_keeps_reason_consistent(m: MachineView, event: Event)
    requires
        reason_consistent(m),
    ensures
        reason_consistent(next_state(m, event).0),
{
}

/// An event is reported as ignored exactly when it neither changes the state
/// nor requests an action; an ignored event leaves the whole machine unchanged.
pub proof fn lemma_ignored_means_unchanged(m: MachineView, event: Event)
    ensures
        transition_for(m, event).disposition == EventDisposition::Ignored <==> (next_state(
            m,
            event,
        ).0.state == m.state && next_state(m, event).1 == Action::Idle),
        transition_for(m, event).disposition == EventDisposition::Ignored ==> next_state(
            m,
            event,
        ).0 == m,
{
}

/// Every move into a state has one cause: the platform is held only after
/// boot, verified only once held or once recovery completed, released only
/// after verification passed in `Verify`, monitored only after release
/// completed, sent to recovery only by a fault, locked down only by a failed
/// recovery, and never returned to `Init`.
pub proof fn lemma_every_move_has_its_cause(m: MachineView, e: Event)
    ensures
        next_state(m, e).0.state != m.state ==> match next_state(m, e).0.state {
            State::Init => false,
            State::TMinus1 => m.state == State::Init && e == Event::Boot,
            State::Verify => (m.state == State::TMinus1 && e == Event::PlatformHeld) || (m.state
                == State::Recover && e == Event::RecoveryComplete),
            State::Release => m.state == State::Verify && e == Event::VerificationPassed,
            State::Monitor => m.state == State::Release && e == Event::ReleaseComplete,
            State::Recover => e == Event::VerificationFailed || e == Event::ResetDetected || e
                == Event::WatchdogTimeout,
            State::Lockdown => e == Event::RecoveryFailed,
        },
        next_state(m, e).0.state == State::Release ==> m.state == State::Release || (m.state
            == State::Verify && e == Event::VerificationPassed),
        next_state(m, e).1 == Action::ReleasePlatform ==> m.state == State::Verify && e
            == Event::VerificationPassed,
{
}

/// Recovery ends only with its outcome: from `Recover` every event but a
/// completed or failed recovery keeps the machine recovering, and keeps a
/// recorded reason.
pub proof fn lemma_recovery_left_only_by_outcome(m: MachineView, e: Event)
    requires
        m.state == State::Recover,
        e != Event::RecoveryComplete,
        e != Event::RecoveryFailed,
    ensures
        next_state(m, e).0.state == State::Recover,
        m.recovery_reason is Some ==> next_state(m, e).0.recovery_reason is Some,
{
}

} // verus!
