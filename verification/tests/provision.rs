use aspeed_rot::provision::{ProvisionCommand, ProvisionError, ProvisionState, ProvisionStatus};

const WRITES: [ProvisionCommand; 5] = [
    ProvisionCommand::WriteRootKey,
    ProvisionCommand::DeployManifest,
    ProvisionCommand::SetPlatformDescriptor,
    ProvisionCommand::BurnAntiRollback,
    ProvisionCommand::LockProvisioning,
];

#[test]
fn initial_state_is_unprovisioned() {
    let s = ProvisionState::new();
    assert_eq!(s, ProvisionState::default());
    assert!(!s.is_provisioned());
    assert!(!s.locked);
    assert_eq!(s.svn_burned, 0);
}

#[test]
fn full_provisioning_sequence() {
    let s = ProvisionState::new();
    let s = s.apply(ProvisionCommand::WriteRootKey).unwrap();
    let s = s.apply(ProvisionCommand::DeployManifest).unwrap();
    assert!(!s.is_provisioned());
    let s = s.apply(ProvisionCommand::SetPlatformDescriptor).unwrap();
    assert!(s.is_provisioned());
    let s = s.apply(ProvisionCommand::BurnAntiRollback).unwrap();
    assert_eq!(s.svn_burned, 1);
    let s = s.apply(ProvisionCommand::LockProvisioning).unwrap();
    assert!(s.locked);
    assert_eq!(
        s,
        ProvisionState {
            root_key_written: true,
            manifest_deployed: true,
            descriptor_set: true,
            locked: true,
            svn_burned: 1,
        }
    );
}

#[test]
fn manifest_needs_root_key() {
    let s = ProvisionState::new();
    assert_eq!(
        s.apply(ProvisionCommand::DeployManifest),
        Err(ProvisionError::MissingPrerequisite)
    );
}

#[test]
fn lock_needs_full_provisioning() {
    let s = ProvisionState::new().apply(ProvisionCommand::WriteRootKey).unwrap();
    assert_eq!(
        s.apply(ProvisionCommand::LockProvisioning),
        Err(ProvisionError::MissingPrerequisite)
    );
}

#[test]
fn locked_state_rejects_every_write() {
    let s = ProvisionState {
        root_key_written: true,
        manifest_deployed: true,
        descriptor_set: true,
        locked: true,
        svn_burned: 4,
    };
    for c in WRITES {
        assert_eq!(s.apply(c), Err(ProvisionError::AlreadyLocked));
    }
    assert_eq!(s.apply(ProvisionCommand::ReadDeviceId), Ok(s));
    assert_eq!(s.apply(ProvisionCommand::QueryStatus), Ok(s));
}

#[test]
fn read_only_commands_change_nothing() {
    let s = ProvisionState::new().apply(ProvisionCommand::WriteRootKey).unwrap();
    assert_eq!(s.apply(ProvisionCommand::ReadDeviceId), Ok(s));
    assert_eq!(s.apply(ProvisionCommand::QueryStatus), Ok(s));
}

#[test]
fn anti_rollback_counter_saturates() {
    let s = ProvisionState { svn_burned: u32::MAX, ..ProvisionState::new() };
    let next = s.apply(ProvisionCommand::BurnAntiRollback).unwrap();
    assert_eq!(next.svn_burned, u32::MAX);
}

#[test]
fn repeatable_commands_are_idempotent() {
    let s = ProvisionState::new().apply(ProvisionCommand::WriteRootKey).unwrap();
    let once = s.apply(ProvisionCommand::SetPlatformDescriptor).unwrap();
    let twice = once.apply(ProvisionCommand::SetPlatformDescriptor).unwrap();
    assert_eq!(once, twice);
    assert_eq!(s.apply(ProvisionCommand::WriteRootKey), Ok(s));
}

#[test]
fn status_values_are_distinct() {
    let all = [
        ProvisionStatus::Idle,
        ProvisionStatus::InProgress,
        ProvisionStatus::Success,
        ProvisionStatus::Failure,
        ProvisionStatus::Locked,
    ];
    for (i, a) in all.iter().enumerate() {
        for (j, b) in all.iter().enumerate() {
            assert_eq!(i == j, a == b);
        }
    }
}
