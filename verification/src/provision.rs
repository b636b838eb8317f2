//! Provisioning service — pure command/state model.
//!
//! All provisioning state transitions are expressed as pure functions.
//! The OTP, flash, and I/O backends are injected by the caller so this
//! module stays hardware-independent.
//!
//! | Command | Reversibility |
//! |---------|---------------|
//! | `WriteRootKey`          | **Irreversible** (OTP) |
//! | `DeployManifest`        | Repeatable until locked |
//! | `SetPlatformDescriptor` | Repeatable until locked |
//! | `BurnAntiRollback`      | **Irreversible** (forward-only) |
//! | `LockProvisioning`      | **Irreversible** (OTP lock bit) |
//! | `ReadDeviceId`          | Read-only |
//! | `QueryStatus`           | Read-only |
//!
//! Usage pattern: compute the next state with [`ProvisionState::apply`],
//! perform the storage operation, and only commit the new state after storage
//! succeeds.
use vstd::prelude::*;

verus! {

/// Provisioning command received from the authenticated management channel.
#[derive(Debug, Clone, Copy, PartialEq, Eq, Structural)]
pub enum ProvisionCommand {
    /// Write the root public-key hash into OTP (irreversible).
    WriteRootKey,
    /// Deploy a signed platform firmware manifest into flash.
    DeployManifest,
    /// Set the platform configuration descriptor.
    SetPlatformDescriptor,
    /// Burn one anti-rollback counter increment (irreversible).
    BurnAntiRollback,
    /// Lock all provisioning fields (irreversible once root key is written).
    LockProvisioning,
    /// Read-only: return the chip device identifier.
    ReadDeviceId,
    /// Read-only: return the current provisioning status.
    QueryStatus,
}

/// Provisioning operation status returned to the management channel.
#[derive(Debug, Clone, Copy, PartialEq, Eq, Structural)]
pub enum ProvisionStatus {
    Idle,
    InProgress,
    Success,
    Failure,
    Locked,
}

/// Provisioning state-transition error.
#[derive(Debug, Clone, Copy, PartialEq, Eq, Structural)]
pub enum ProvisionError {
    /// The provisioning fields are locked; the command is not allowed.
    AlreadyLocked,
    /// A prerequisite step has not been completed.
    MissingPrerequisite,
    /// The command is not valid in the current state.
    InvalidState,
}

/// Pure provisioning state independent of any storage backend.
///
/// `Copy` so the orchestrator can cheaply hold a before/after snapshot.
#[derive(Debug, Clone, Copy, PartialEq, Eq, Structural)]
pub struct ProvisionState {
    pub root_key_written: bool,
    pub manifest_deployed: bool,
    pub descriptor_set: bool,
    pub locked: bool,
    pub svn_burned: u32,
}

/// The unprovisioned state.
pub open spec fn initial_state() -> ProvisionState {
    ProvisionState {
        root_key_written: false,
        manifest_deployed: false,
        descriptor_set: false,
        locked: false,
        svn_burned: 0,
    }
}

/// Root key, manifest and platform descriptor are all in place.
pub open spec fn provisioned(s: ProvisionState) -> bool {
    s.root_key_written && s.manifest_deployed && s.descriptor_set
}

/// The command only reads.
pub open spec fn is_read_only(c: ProvisionCommand) -> bool {
    c == ProvisionCommand::ReadDeviceId || c == ProvisionCommand::QueryStatus
}

/// The provisioning rules: read-only commands always succeed and change
/// nothing; once locked every other command is refused; the manifest needs
/// the root key first; locking needs the full provisioning set; the
/// anti-rollback counter saturates at `u32::MAX`.
pub open spec fn apply_command(s: ProvisionState, c: ProvisionCommand) -> Result<
    ProvisionState,
    ProvisionError,
> {
    if is_read_only(c) {
        Ok(s)
    } else if s.locked {
        Err(ProvisionError::AlreadyLocked)
    } else {
        match c {
            ProvisionCommand::WriteRootKey => Ok(ProvisionState { root_key_written: true, ..s }),
            ProvisionCommand::DeployManifest => if !s.root_key_written {
                Err(ProvisionError::MissingPrerequisite)
            } else {
                Ok(ProvisionState { manifest_deployed: true, ..s })
            },
            ProvisionCommand::SetPlatformDescriptor => Ok(
                ProvisionState { descriptor_set: true, ..s },
            ),
            ProvisionCommand::BurnAntiRollback => Ok(
                ProvisionState {
                    svn_burned: if s.svn_burned == u32::MAX {
                        u32::MAX
                    } else {
                        (s.svn_burned + 1) as u32
                    },
                    ..s
                },
            ),
            ProvisionCommand::LockProvisioning => if !provisioned(s) {
                Err(ProvisionError::MissingPrerequisite)
            } else {
                Ok(ProvisionState { locked: true, ..s })
            },
            _ => Ok(s),
        }
    }
}

impl ProvisionState {
    /// Create the initial (unprovisioned) state.
    pub fn new() -> (s: Self)
        ensures
            s == initial_state(),
    {
        ProvisionState {
            root_key_written: false,
            manifest_deployed: false,
            descriptor_set: false,
            locked: false,
            svn_burned: 0,
        }
    }

    /// Return `true` if the minimum provisioning set is complete.
    pub fn is_provisioned(&self) -> (b: bool)
        ensures
            b == provisioned(*self),
    {
        self.root_key_written && self.manifest_deployed && self.descriptor_set
    }

    /// Return the state after applying `command`, without side effects.
    ///
    /// The caller is responsible for persisting the returned state and
    /// performing the associated hardware operation (OTP write, flash write).
    pub fn apply(&self, command: ProvisionCommand) -> (r: Result<Self, ProvisionError>)
        ensures
            r == apply_command(*self, command),
    {
        // Read-only commands are always allowed.
        match command {
            ProvisionCommand::ReadDeviceId | ProvisionCommand::QueryStatus => {
                return Ok(*self);
            },
            _ => {},
        }

        if self.locked {
            return Err(ProvisionError::AlreadyLocked);
        }

        let mut next = *self;

        match command {
            ProvisionCommand::WriteRootKey => {
                next.root_key_written = true;
            },
            ProvisionCommand::DeployManifest => {
                if !next.root_key_written {
                    return Err(ProvisionError::MissingPrerequisite);
                }
                next.manifest_deployed = true;
            },
            ProvisionCommand::SetPlatformDescriptor => {
                next.descriptor_set = true;
            },
            ProvisionCommand::BurnAntiRollback => {
                next.svn_burned = next.svn_burned.saturating_add(1);
            },
            ProvisionCommand::LockProvisioning => {
                if !next.is_provisioned() {
                    return Err(ProvisionError::MissingPrerequisite);
                }
                next.locked = true;
            },
            // Already handled above.
            ProvisionCommand::ReadDeviceId | ProvisionCommand::QueryStatus => {},
        }

        Ok(next)
    }
}

impl Default for ProvisionState {
    fn default() -> (s: Self)
        ensures
            s == initial_state(),
    {
        Self::new()
    }
}

// ── Laws ─────────────────────────────────────────────────────────────────────

/// Read-only commands always succeed and leave the state unchanged.
pub proof fn lemma_read_only_changes_nothing(s: ProvisionState, c: ProvisionCommand)
    requires
        is_read_only(c),
    ensures
        apply_command(s, c) == Ok::<ProvisionState, ProvisionError>(s),
{
}

/// Locking is irreversible: once locked, every command either is refused with
/// `AlreadyLocked` or is read-only and changes nothing, so the state stays
/// locked forever.
pub proof fn lemma_locked_is_final(s: ProvisionState, c: ProvisionCommand)
    requires
        s.locked,
    ensures
        is_read_only(c) ==> apply_command(s, c) == Ok::<ProvisionState, ProvisionError>(s),
        !is_read_only(c) ==> apply_command(s, c) == Err::<ProvisionState, ProvisionError>(
            ProvisionError::AlreadyLocked,
        ),
{
}

/// Every accepted command moves forward only: no completed step is undone,
/// the lock is never released and the anti-rollback counter never decreases.
pub proof fn lemma_apply_is_monotonic(s: ProvisionState, c: ProvisionCommand)
    ensures
        apply_command(s, c) matches Ok(n) ==> {
            &&& s.root_key_written ==> n.root_key_written
            &&& s.manifest_deployed ==> n.manifest_deployed
            &&& s.descriptor_set ==> n.descriptor_set
            &&& s.locked ==> n.locked
            &&& n.svn_burned >= s.svn_burned
        },
{
}

/// A deployed manifest always comes after the root key, and a lock only after
/// the full provisioning set: both hold of every state reachable from the
/// initial state.
pub open spec fn provision_order_ok(s: ProvisionState) -> bool {
    &&& s.manifest_deployed ==> s.root_key_written
    &&& s.locked ==> provisioned(s)
}

/// Every accepted command keeps the provisioning order.
pub proof fn lemma_apply_keeps_order(s: ProvisionState, c: ProvisionCommand)
    requires
        provision_order_ok(s),
    ensures
        apply_command(s, c) matches Ok(n) ==> provision_order_ok(n),
{
}

/// The initial state keeps the provisioning order.
pub proof fn lemma_initial_order()
    ensures
        provision_order_ok(initial_state()),
{
}

/// Each command changes only what it names: an accepted command sets the
/// root key, the manifest, the platform descriptor or the lock only when it
/// is the command for that step, leaves every other field as it was, and
/// moves the anti-rollback counter only when it burns one (by one, stopping
/// at the maximum).
pub proof fn lemma_each_command_changes_only_its_step(s: ProvisionState, c: ProvisionCommand)
    ensures
        apply_command(s, c) matches Ok(n) ==> {
            &&& n.root_key_written == (s.root_key_written || c == ProvisionCommand::WriteRootKey)
            &&& n.manifest_deployed == (s.manifest_deployed || c
                == ProvisionCommand::DeployManifest)
            &&& n.descriptor_set == (s.descriptor_set || c
                == ProvisionCommand::SetPlatformDescriptor)
            &&& n.locked == (s.locked || c == ProvisionCommand::LockProvisioning)
            &&& n.svn_burned == if c == ProvisionCommand::BurnAntiRollback && s.svn_burned
                < u32::MAX {
                s.svn_burned + 1
            } else {
                s.svn_burned as int
            }
        },
{
}

/// Locking succeeds exactly when the device is unlocked and the root key,
/// the manifest and the platform descriptor are all in place; otherwise it
/// is refused as already locked or as missing a prerequisite.
pub proof fn lemma_lock_needs_every_step(s: ProvisionState)
    ensures
        apply_command(s, ProvisionCommand::LockProvisioning) is Ok <==> (!s.locked
            && s.root_key_written && s.manifest_deployed && s.descriptor_set),
        !s.locked && !(s.root_key_written && s.manifest_deployed && s.descriptor_set)
            ==> apply_command(s, ProvisionCommand::LockProvisioning) == Err::<
            ProvisionState,
            ProvisionError,
        >(ProvisionError::MissingPrerequisite),
{
}

/// A manifest is deployed only on top of a written root key.
pub proof fn lemma_manifest_needs_root_key(s: ProvisionState)
    ensures
        apply_command(s, ProvisionCommand::DeployManifest) is Ok <==> (!s.locked
            && s.root_key_written),
{
}

} // verus!
