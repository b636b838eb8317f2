use aspeed_rot::pfr::{
    event_for, Action, Component, Event, EventDisposition, EventRecord, Machine, RecoveryReason,
    State,
};
use aspeed_rot::protocol::{
    CheckpointEvent, CheckpointKind, CheckpointProgress, MailboxCommand, MailboxPeer,
    ProtocolEvent, UpdateIntent,
};
use aspeed_rot::runtime::{Runtime, EVENT_QUEUE_DEPTH};

const ALL_EVENTS: [Event; 9] = [
    Event::Boot,
    Event::PlatformHeld,
    Event::VerificationPassed,
    Event::VerificationFailed,
    Event::ReleaseComplete,
    Event::ResetDetected,
    Event::WatchdogTimeout,
    Event::RecoveryComplete,
    Event::RecoveryFailed,
];

fn monitoring_machine() -> Machine {
    let mut m = Machine::new();
    m.step(Event::Boot);
    m.step(Event::PlatformHeld);
    m.step(Event::VerificationPassed);
    m.step(Event::ReleaseComplete);
    m
}

#[test]
fn boot_path_reaches_monitor() {
    let mut m = Machine::new();
    assert_eq!(m.state(), State::Init);
    let t = m.step_with_action(Event::Boot);
    assert_eq!((t.state, t.action), (State::TMinus1, Action::HoldPlatform));
    let t = m.step_with_action(Event::PlatformHeld);
    assert_eq!((t.state, t.action), (State::Verify, Action::VerifyImages));
    let t = m.step_with_action(Event::VerificationPassed);
    assert_eq!((t.state, t.action), (State::Release, Action::ReleasePlatform));
    let t = m.step_with_action(Event::ReleaseComplete);
    assert_eq!((t.state, t.action), (State::Monitor, Action::StartMonitoring));
    assert_eq!(t.disposition, EventDisposition::Transitioned);
    assert!(t.needs_action());
    assert_eq!(m.recovery_reason(), None);
}

#[test]
fn out_of_order_events_are_ignored() {
    let mut m = Machine::new();
    let t = m.step_with_action(Event::PlatformHeld);
    assert!(t.is_ignored());
    assert!(!t.needs_action());
    assert_eq!(t.state, State::Init);
    assert_eq!(t.action, Action::Idle);
    let mut m = monitoring_machine();
    let t = m.step_with_action(Event::Boot);
    assert!(t.is_ignored());
    assert_eq!(m.state(), State::Monitor);
}

#[test]
fn faults_force_recovery_from_any_state() {
    let faults = [
        (Event::VerificationFailed, RecoveryReason::VerificationFailed),
        (Event::ResetDetected, RecoveryReason::ResetDetected),
        (Event::WatchdogTimeout, RecoveryReason::WatchdogTimeout),
    ];
    for (event, reason) in faults {
        let mut m = monitoring_machine();
        let t = m.step_with_action(event);
        assert_eq!(t.state, State::Recover);
        assert_eq!(t.action, Action::RecoverImages);
        assert_eq!(m.recovery_reason(), Some(reason));
        let mut fresh = Machine::new();
        assert_eq!(fresh.step(event), State::Recover);
    }
}

#[test]
fn recovery_completes_into_verification() {
    let mut m = monitoring_machine();
    m.step(Event::WatchdogTimeout);
    let t = m.step_with_action(Event::RecoveryComplete);
    assert_eq!((t.state, t.action), (State::Verify, Action::VerifyImages));
    assert_eq!(m.recovery_reason(), None);
}

#[test]
fn recovery_failed_locks_down() {
    let mut m = Machine::default();
    let t = m.step_with_action(Event::RecoveryFailed);
    assert_eq!((t.state, t.action), (State::Lockdown, Action::Lockdown));
    assert!(m.is_locked_down());
    assert_eq!(m.recovery_reason(), Some(RecoveryReason::RecoveryFailed));
}

#[test]
fn lockdown_is_terminal() {
    let mut m = Machine::new();
    m.step(Event::RecoveryFailed);
    for event in ALL_EVENTS {
        let t = m.step_with_action(event);
        assert!(t.is_ignored());
        assert_eq!(t.state, State::Lockdown);
        assert_eq!(t.action, Action::Idle);
        assert_eq!(m.recovery_reason(), Some(RecoveryReason::RecoveryFailed));
    }
}

#[test]
fn step_record_ignores_component() {
    let mut a = Machine::new();
    let mut b = Machine::new();
    let ta = a.step_record(EventRecord::with_code(Event::Boot, Component::Bmc, 7));
    let tb = b.step_record(event_for(Event::Boot, Component::Platform));
    assert_eq!(ta, tb);
    assert_eq!(a, b);
}

#[test]
fn event_record_constructors() {
    let r = EventRecord::new(Event::Boot, Component::Pch);
    assert_eq!(r, EventRecord { event: Event::Boot, component: Component::Pch, code: 0 });
    let r = EventRecord::with_code(Event::ResetDetected, Component::Afm, 0xDEAD);
    assert_eq!(r.code, 0xDEAD);
    assert_eq!(event_for(Event::Boot, Component::Cpld).component, Component::Cpld);
}

#[test]
fn runtime_drives_boot_with_success_events() {
    let mut rt = Runtime::new();
    let mut record = EventRecord::new(Event::Boot, Component::Platform);
    let mut actions = Vec::new();
    loop {
        let t = rt.process(record);
        actions.push(t.action);
        match Runtime::success_event(t.action, record.component) {
            Some(next) => record = next,
            None => break,
        }
    }
    assert_eq!(
        actions,
        vec![
            Action::HoldPlatform,
            Action::VerifyImages,
            Action::ReleasePlatform,
            Action::StartMonitoring
        ]
    );
    assert_eq!(rt.state(), State::Monitor);
    assert_eq!(Runtime::default().state(), State::Init);
    assert_eq!(EVENT_QUEUE_DEPTH, 8);
}

#[test]
fn success_events_of_actions() {
    let c = Component::Bmc;
    assert_eq!(
        Runtime::success_event(Action::HoldPlatform, c),
        Some(EventRecord::new(Event::PlatformHeld, c))
    );
    assert_eq!(
        Runtime::success_event(Action::VerifyImages, c),
        Some(EventRecord::new(Event::VerificationPassed, c))
    );
    assert_eq!(
        Runtime::success_event(Action::ReleasePlatform, c),
        Some(EventRecord::new(Event::ReleaseComplete, c))
    );
    assert_eq!(
        Runtime::success_event(Action::RecoverImages, c),
        Some(EventRecord::new(Event::RecoveryComplete, c))
    );
    assert_eq!(Runtime::success_event(Action::Idle, c), None);
    assert_eq!(Runtime::success_event(Action::StartMonitoring, c), None);
    assert_eq!(Runtime::success_event(Action::Lockdown, c), None);
}

#[test]
fn mailbox_commands_map_to_pfr_events() {
    let e = ProtocolEvent::new(MailboxPeer::Bmc, MailboxCommand::RequestRecovery);
    assert_eq!(e.arg, 0);
    assert_eq!(e.to_pfr_event(), Some(Event::ResetDetected));
    assert_eq!(e.pfr_component(), Component::Bmc);
    assert_eq!(
        e.to_event_record(),
        Some(EventRecord::new(Event::ResetDetected, Component::Bmc))
    );
    let e = ProtocolEvent::with_arg(MailboxPeer::Pch, MailboxCommand::ResetCommunication, 9);
    assert_eq!(e.arg, 9);
    assert_eq!(
        e.to_event_record(),
        Some(EventRecord::new(Event::ResetDetected, Component::Pch))
    );
    for command in [
        MailboxCommand::Idle,
        MailboxCommand::Provision,
        MailboxCommand::UpdateIntent,
        MailboxCommand::Checkpoint,
    ] {
        let e = ProtocolEvent::new(MailboxPeer::Pch, command);
        assert_eq!(e.to_pfr_event(), None);
        assert_eq!(e.to_event_record(), None);
    }
}

#[test]
fn checkpoint_failures_time_out_the_watchdog() {
    let e = CheckpointEvent::new(CheckpointKind::Bios, CheckpointProgress::AuthenticationFailed);
    assert_eq!(e.to_pfr_event(), Some(Event::WatchdogTimeout));
    assert_eq!(
        e.to_event_record(),
        Some(EventRecord::new(Event::WatchdogTimeout, Component::Pch))
    );
    assert_eq!(CheckpointEvent::new(CheckpointKind::Acm, CheckpointProgress::Started).pfr_component(), Component::Pch);
    assert_eq!(CheckpointEvent::new(CheckpointKind::Bmc, CheckpointProgress::Started).pfr_component(), Component::Bmc);
    for progress in [
        CheckpointProgress::Started,
        CheckpointProgress::Paused,
        CheckpointProgress::Resumed,
        CheckpointProgress::Completed,
    ] {
        let e = CheckpointEvent::new(CheckpointKind::Bmc, progress);
        assert_eq!(e.to_event_record(), None);
    }
}

#[test]
fn update_intent_forces_reverification() {
    let mut intent = UpdateIntent::new(MailboxPeer::Bmc);
    assert!(!intent.any_update());
    assert_eq!(intent.to_pfr_event(), None);
    intent.dynamic_at_reset = true;
    assert_eq!(intent.to_pfr_event(), None);
    intent.update_staging = true;
    assert!(intent.any_update());
    assert_eq!(intent.to_pfr_event(), Some(Event::VerificationFailed));
    assert_eq!(intent.pfr_component(), Component::Bmc);
    assert_eq!(UpdateIntent::new(MailboxPeer::Pch).pfr_component(), Component::Pch);
}

#[test]
fn protocol_event_drives_monitor_into_recovery() {
    let mut m = monitoring_machine();
    let record = ProtocolEvent::new(MailboxPeer::Bmc, MailboxCommand::RequestRecovery)
        .to_event_record()
        .unwrap();
    let t = m.step_record(record);
    assert_eq!(t.state, State::Recover);
    assert_eq!(m.recovery_reason(), Some(RecoveryReason::ResetDetected));
}

#[test]
fn next_event_after_actions() {
    let c = Component::Platform;
    assert_eq!(
        Runtime::next_event(Action::VerifyImages, false, c),
        Some(EventRecord::new(Event::VerificationFailed, c))
    );
    assert_eq!(
        Runtime::next_event(Action::VerifyImages, true, c),
        Some(EventRecord::new(Event::VerificationPassed, c))
    );
    assert_eq!(
        Runtime::next_event(Action::HoldPlatform, false, c),
        Some(EventRecord::new(Event::PlatformHeld, c))
    );
    assert_eq!(Runtime::next_event(Action::StartMonitoring, true, c), None);
    assert_eq!(Runtime::next_event(Action::Lockdown, false, c), None);
}
