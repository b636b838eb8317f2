//! Runtime driver for the PFR state machine.
//!
//! The executor owns an event queue; for every record it dequeues it calls
//! [`Runtime::process`], performs the returned action on the platform, and —
//! when the action succeeded — feeds [`Runtime::success_event`] back into the
//! queue.
use vstd::prelude::*;
use crate::pfr::{
    Action,
    Component,
    Event,
    EventRecord,
    Machine,
    MachineView,
    State,
    Transition,
    next_state,
    transition_for,
};

verus! {

/// Depth of the event queue between protocol tasks and the runtime.
pub const EVENT_QUEUE_DEPTH: usize = 8;

/// The runtime wrapper around the PFR state machine.
#[derive(Debug)]
pub struct Runtime {
    machine: Machine,
}

impl View for Runtime {
    type V = MachineView;

    closed spec fn view(&self) -> MachineView {
        self.machine@
    }
}

/// The event that reports successful completion of `action`, if the action
/// completes with an event.
pub open spec fn success_event_of(action: Action) -> Option<Event> {
    match action {
        Action::HoldPlatform => Some(Event::PlatformHeld),
        Action::VerifyImages => Some(Event::VerificationPassed),
        Action::ReleasePlatform => Some(Event::ReleaseComplete),
        Action::RecoverImages => Some(Event::RecoveryComplete),
        _ => None,
    }
}

/// The event that follows `action`: a failed verification reports
/// `VerificationFailed`; every other outcome reports the action's success
/// event, if it has one.
pub open spec fn next_event_of(action: Action, verified: bool) -> Option<Event> {
    if action == Action::VerifyImages && !verified {
        Some(Event::VerificationFailed)
    } else {
        success_event_of(action)
    }
}

impl Runtime {
    pub fn new() -> (r: Self)
        ensures
            r@ == (MachineView { state: State::Init, recovery_reason: None }),
    {
        Runtime { machine: Machine::new() }
    }

    pub fn state(&self) -> (s: State)
        ensures
            s == self@.state,
    {
        self.machine.state()
    }

    pub fn process(&mut self, record: EventRecord) -> (t: Transition)
        ensures
            final(self)@ == next_state(old(self)@, record.event).0,
            t == transition_for(old(self)@, record.event),
    {
        self.machine.step_record(record)
    }

    pub fn success_event(action: Action, component: Component) -> (r: Option<EventRecord>)
        ensures
            r == (match success_event_of(action) {
                Some(event) => Some(EventRecord { event, component, code: 0 }),
                None => None,
            }),
    {
        let event = match action {
            Action::HoldPlatform => Event::PlatformHeld,
            Action::VerifyImages => Event::VerificationPassed,
            Action::ReleasePlatform => Event::ReleaseComplete,
            Action::RecoverImages => Event::RecoveryComplete,
            Action::Idle | Action::StartMonitoring | Action::Lockdown => return None,
        };

        Some(EventRecord::new(event, component))
    }

    /// The record to queue after performing `action` for `component`;
    /// `verified` is the outcome of image verification and matters only for
    /// `VerifyImages`.
    pub fn next_event(action: Action, verified: bool, component: Component) -> (r: Option<
        EventRecord,
    >)
        ensures
            r == (match next_event_of(action, verified) {
                Some(event) => Some(EventRecord { event, component, code: 0 }),
                None => None,
            }),
    {
        if action == Action::VerifyImages && !verified {
            return Some(EventRecord::new(Event::VerificationFailed, component));
        }
        Self::success_event(action, component)
    }
}

impl Default for Runtime {
    fn default() -> (r: Self)
        ensures
            r@ == (MachineView { state: State::Init, recovery_reason: None }),
    {
        Self::new()
    }
}

// ── Laws ─────────────────────────────────────────────────────────────────────

/// Feeding back the success event of a requested action always advances the
/// machine: after any step, the success event of the action it requested is
/// accepted by the new state, never ignored.
pub proof fn lemma_success_event_advances(m: MachineView, event: Event)
    ensures
        success_event_of(next_state(m, event).1) matches Some(done) ==> transition_for(
            next_state(m, event).0,
            done,
        ).disposition == crate::pfr::EventDisposition::Transitioned,
{
}

/// The boot path: from a fresh machine, a boot event followed by the success
/// events of the requested actions holds the platform, verifies it, releases
/// it and ends in monitoring.
pub proof fn lemma_boot_path_reaches_monitor()
    ensures
        ({
            let m0 = MachineView { state: State::Init, recovery_reason: None };
            let (m1, a1) = next_state(m0, Event::Boot);
            let (m2, a2) = next_state(m1, success_event_of(a1).unwrap());
            let (m3, a3) = next_state(m2, success_event_of(a2).unwrap());
            let (m4, a4) = next_state(m3, success_event_of(a3).unwrap());
            &&& a1 == Action::HoldPlatform
            &&& a2 == Action::VerifyImages
            &&& a3 == Action::ReleasePlatform
            &&& a4 == Action::StartMonitoring
            &&& m4.state == State::Monitor
            &&& success_event_of(a4) is None
        }),
{
}

/// A completed recovery re-enters verification: from recovery, the success
/// event of the recovery action leads to verification and clears the reason.
pub proof fn lemma_recovery_completes_into_verify(m: MachineView)
    requires
        m.state == State::Recover,
    ensures
        next_state(m, success_event_of(Action::RecoverImages).unwrap()).0 == (MachineView {
            state: State::Verify,
            recovery_reason: None,
        }),
        next_state(m, success_event_of(Action::RecoverImages).unwrap()).1 == Action::VerifyImages,
{
}

} // verus!
