//! Protocol-independent policy types.
//!
//! All types here are pure data — no I2C, I3C, or MCTP transport. Tasks
//! receive hardware bytes, deserialise them into these types, and pass them to
//! the PFR state machine via [`ProtocolEvent`] or [`CheckpointEvent`].
//!
//! PLDM Type 5 firmware update agent: manages firmware update lifecycle for
//! BMC, host, and component firmware, coordinating with the PFR state machine
//! for staged updates with A/B bank management and anti-rollback enforcement.
use vstd::prelude::*;
use crate::pfr;

verus! {

// ── Mailbox types ─────────────────────────────────────────────────────────────

/// Logical mailbox peer independent of I2C/I3C transport.
#[derive(Debug, Clone, Copy, PartialEq, Eq, Structural)]
pub enum MailboxPeer {
    Bmc,
    Pch,
}

/// Mailbox command independent of the storage/transport backend.
#[derive(Debug, Clone, Copy, PartialEq, Eq, Structural)]
pub enum MailboxCommand {
    /// No command pending.
    Idle,
    Provision,
    UpdateIntent,
    Checkpoint,
    ResetCommunication,
    RequestRecovery,
}

/// The PFR component that stands for a mailbox peer.
pub open spec fn peer_component(peer: MailboxPeer) -> pfr::Component {
    match peer {
        MailboxPeer::Bmc => pfr::Component::Bmc,
        MailboxPeer::Pch => pfr::Component::Pch,
    }
}

/// Protocol event delivered to the PFR state machine adapter.
#[derive(Debug, Clone, Copy, PartialEq, Eq, Structural)]
pub struct ProtocolEvent {
    pub peer: MailboxPeer,
    pub command: MailboxCommand,
    pub arg: u32,
}

/// A recovery request or a communication reset is reported to the state
/// machine as a detected reset; every other command needs no PFR action.
pub open spec fn protocol_pfr_event(command: MailboxCommand) -> Option<pfr::Event> {
    match command {
        MailboxCommand::RequestRecovery => Some(pfr::Event::ResetDetected),
        MailboxCommand::ResetCommunication => Some(pfr::Event::ResetDetected),
        _ => None,
    }
}

impl ProtocolEvent {
    /// Create a protocol event with no argument.
    pub fn new(peer: MailboxPeer, command: MailboxCommand) -> (e: Self)
        ensures
            e == (ProtocolEvent { peer, command, arg: 0 }),
    {
        ProtocolEvent { peer, command, arg: 0 }
    }

    /// Create a protocol event with an implementation-defined argument.
    pub fn with_arg(peer: MailboxPeer, command: MailboxCommand, arg: u32) -> (e: Self)
        ensures
            e == (ProtocolEvent { peer, command, arg }),
    {
        ProtocolEvent { peer, command, arg }
    }

    /// Map this event to a PFR state machine event, if any action is required.
    pub fn to_pfr_event(&self) -> (r: Option<pfr::Event>)
        ensures
            r == protocol_pfr_event(self.command),
    {
        match self.command {
            MailboxCommand::RequestRecovery => Some(pfr::Event::ResetDetected),
            MailboxCommand::ResetCommunication => Some(pfr::Event::ResetDetected),
            _ => None,
        }
    }

    /// Return the PFR component corresponding to this mailbox peer.
    pub fn pfr_component(&self) -> (c: pfr::Component)
        ensures
            c == peer_component(self.peer),
    {
        match self.peer {
            MailboxPeer::Bmc => pfr::Component::Bmc,
            MailboxPeer::Pch => pfr::Component::Pch,
        }
    }

    /// Convert directly to an [`pfr::EventRecord`] for `step_record`.
    pub fn to_event_record(&self) -> (r: Option<pfr::EventRecord>)
        ensures
            r == (match protocol_pfr_event(self.command) {
                Some(event) => Some(
                    pfr::EventRecord { event, component: peer_component(self.peer), code: 0 },
                ),
                None => None,
            }),
    {
        match self.to_pfr_event() {
            Some(event) => Some(pfr::EventRecord::new(event, self.pfr_component())),
            None => None,
        }
    }
}

// ── Checkpoint types ──────────────────────────────────────────────────────────

/// Firmware checkpoint class independent of watchdog hardware.
#[derive(Debug, Clone, Copy, PartialEq, Eq, Structural)]
pub enum CheckpointKind {
    Bmc,
    Acm,
    Bios,
}

/// Firmware boot progress independent of mailbox register layout.
#[derive(Debug, Clone, Copy, PartialEq, Eq, Structural)]
pub enum CheckpointProgress {
    Started,
    Paused,
    Resumed,
    Completed,
    AuthenticationFailed,
}

/// A checkpoint event from the platform mailbox.
#[derive(Debug, Clone, Copy, PartialEq, Eq, Structural)]
pub struct CheckpointEvent {
    pub kind: CheckpointKind,
    pub progress: CheckpointProgress,
}

/// A failed authentication at a checkpoint counts as a watchdog timeout;
/// every other progress report needs no PFR action.
pub open spec fn checkpoint_pfr_event(progress: CheckpointProgress) -> Option<pfr::Event> {
    match progress {
        CheckpointProgress::AuthenticationFailed => Some(pfr::Event::WatchdogTimeout),
        _ => None,
    }
}

/// BMC checkpoints belong to the BMC; ACM and BIOS checkpoints to the PCH.
pub open spec fn checkpoint_component(kind: CheckpointKind) -> pfr::Component {
    match kind {
        CheckpointKind::Bmc => pfr::Component::Bmc,
        _ => pfr::Component::Pch,
    }
}

impl CheckpointEvent {
    /// Create a checkpoint event.
    pub fn new(kind: CheckpointKind, progress: CheckpointProgress) -> (e: Self)
        ensures
            e == (CheckpointEvent { kind, progress }),
    {
        CheckpointEvent { kind, progress }
    }

    /// Map to a PFR event when boot-progress failure requires state machine action.
    pub fn to_pfr_event(&self) -> (r: Option<pfr::Event>)
        ensures
            r == checkpoint_pfr_event(self.progress),
    {
        match self.progress {
            CheckpointProgress::AuthenticationFailed => Some(pfr::Event::WatchdogTimeout),
            _ => None,
        }
    }

    /// Return the PFR component for this checkpoint kind.
    pub fn pfr_component(&self) -> (c: pfr::Component)
        ensures
            c == checkpoint_component(self.kind),
    {
        match self.kind {
            CheckpointKind::Bmc => pfr::Component::Bmc,
            CheckpointKind::Acm | CheckpointKind::Bios => pfr::Component::Pch,
        }
    }

    /// Convert to a [`pfr::EventRecord`] for `step_record`, if action is needed.
    pub fn to_event_record(&self) -> (r: Option<pfr::EventRecord>)
        ensures
            r == (match checkpoint_pfr_event(self.progress) {
                Some(event) => Some(
                    pfr::EventRecord { event, component: checkpoint_component(self.kind), code: 0 },
                ),
                None => None,
            }),
    {
        match self.to_pfr_event() {
            Some(event) => Some(pfr::EventRecord::new(event, self.pfr_component())),
            None => None,
        }
    }
}

// ── UpdateIntent ──────────────────────────────────────────────────────────────

/// Update intent carried by a BMC or PCH mailbox message.
#[derive(Debug, Clone, Copy, PartialEq, Eq, Structural)]
pub struct UpdateIntent {
    pub peer: MailboxPeer,
    pub update_active: bool,
    pub update_recovery: bool,
    pub update_staging: bool,
    pub dynamic_at_reset: bool,
}

/// Some image bank is to be updated.
pub open spec fn intent_updates(i: UpdateIntent) -> bool {
    i.update_active || i.update_recovery || i.update_staging
}

/// The PFR event of an update intent: any update request forces
/// re-verification.
pub open spec fn intent_pfr_event(i: UpdateIntent) -> Option<pfr::Event> {
    if intent_updates(i) {
        Some(pfr::Event::VerificationFailed)
    } else {
        None
    }
}

impl UpdateIntent {
    /// Create an update intent.
    pub fn new(peer: MailboxPeer) -> (i: Self)
        ensures
            i == (UpdateIntent {
                peer,
                update_active: false,
                update_recovery: false,
                update_staging: false,
                dynamic_at_reset: false,
            }),
    {
        UpdateIntent {
            peer,
            update_active: false,
            update_recovery: false,
            update_staging: false,
            dynamic_at_reset: false,
        }
    }

    /// Return `true` if any update flag is set.
    pub fn any_update(&self) -> (b: bool)
        ensures
            b == intent_updates(*self),
    {
        self.update_active || self.update_recovery || self.update_staging
    }

    /// Map to a PFR event; an update request always triggers re-verification.
    pub fn to_pfr_event(&self) -> (r: Option<pfr::Event>)
        ensures
            r == intent_pfr_event(*self),
    {
        if self.any_update() {
            Some(pfr::Event::VerificationFailed)
        } else {
            None
        }
    }

    /// Return the PFR component for this intent.
    pub fn pfr_component(&self) -> (c: pfr::Component)
        ensures
            c == peer_component(self.peer),
    {
        match self.peer {
            MailboxPeer::Bmc => pfr::Component::Bmc,
            MailboxPeer::Pch => pfr::Component::Pch,
        }
    }
}

// ── SecureState ───────────────────────────────────────────────────────────────

/// Platform secure-state value exposed via mailbox and protocol.
#[derive(Debug, Clone, Copy, PartialEq, Eq, Structural)]
pub enum SecureState {
    Unprovisioned,
    Provisioned,
    Recovery,
    Lockdown,
}

// ── Laws ─────────────────────────────────────────────────────────────────────

/// Protocol tasks are subordinate to the state machine: whatever a mailbox
/// command, a checkpoint or an update intent maps to, it can only force
/// recovery (a detected reset, a watchdog timeout or a failed verification);
/// it never releases the platform or marks verification as passed.
pub proof fn lemma_protocol_events_only_force_recovery(
    command: MailboxCommand,
    progress: CheckpointProgress,
    intent: UpdateIntent,
    m: pfr::MachineView,
)
    ensures
        protocol_pfr_event(command) matches Some(e) ==> e == pfr::Event::ResetDetected,
        checkpoint_pfr_event(progress) matches Some(e) ==> e == pfr::Event::WatchdogTimeout,
        intent_pfr_event(intent) matches Some(e) ==> e == pfr::Event::VerificationFailed,
        m.state != pfr::State::Lockdown ==> {
            &&& protocol_pfr_event(command) matches Some(e) ==> pfr::next_state(m, e).0.state
                == pfr::State::Recover
            &&& checkpoint_pfr_event(progress) matches Some(e) ==> pfr::next_state(m, e).0.state
                == pfr::State::Recover
            &&& intent_pfr_event(intent) matches Some(e) ==> pfr::next_state(m, e).0.state
                == pfr::State::Recover
        },
{
}

/// An update intent forces re-verification exactly when it asks to update
/// one of the banks: a request for the active, the recovery or the staging
/// bank each yields `VerificationFailed`, and an intent that updates no bank
/// yields nothing, whatever its reset timing.
pub proof fn lemma_bank_updates_force_reverification(i: UpdateIntent)
    ensures
        i.update_active ==> intent_pfr_event(i) == Some(pfr::Event::VerificationFailed),
        i.update_recovery ==> intent_pfr_event(i) == Some(pfr::Event::VerificationFailed),
        i.update_staging ==> intent_pfr_event(i) == Some(pfr::Event::VerificationFailed),
        !i.update_active && !i.update_recovery && !i.update_staging ==> intent_pfr_event(i)
            is None,
        intent_updates(i) <==> (i.update_active || i.update_recovery || i.update_staging),
        intent_pfr_event(i) == intent_pfr_event(
            UpdateIntent { dynamic_at_reset: !i.dynamic_at_reset, ..i },
        ),
{
}

} // verus!
