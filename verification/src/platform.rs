//! Platform abstraction traits and hardware-independent command types.
//!
//! The traits here are free of Embassy, logging, or HAL imports;
//! hardware-specific implementations live with the embedding firmware.
//!
//! ```text
//! PFR orchestrator (pfr::Machine)
//!   emits Action
//!   ──► platform executor reads trait impls
//!         reads flash via FlashReader
//!         parses manifests via ManifestParser
//!         applies policy via PlatformPolicy
//!         returns Transition to orchestrator
//! ```
use vstd::prelude::*;
use crate::flash::{RecoveryLevel, Slot, max_recovery_level};
use crate::manifest::PlatformFirmwareManifest;
use crate::protocol::SecureState;

verus! {

// ── Flash I/O traits ──────────────────────────────────────────────────────────

/// Read raw bytes from a named flash region.
///
/// Implementations may back this with SPI NOR flash, SRAM, or any other
/// byte-addressable storage.
pub trait FlashReader {
    /// Error type returned on I/O failure.
    type Error;

    /// Read `buf.len()` bytes from `slot` starting at `offset`.
    fn read(&self, slot: Slot, offset: u32, buf: &mut [u8]) -> Result<(), Self::Error>;

    /// Return the byte size of `slot`, or `None` if the slot is not available.
    fn region_size(&self, slot: Slot) -> Option<u32>;
}

// ── Manifest parsing ──────────────────────────────────────────────────────────

/// Parse a raw byte buffer into a [`PlatformFirmwareManifest`].
///
/// The lifetime `'a` is tied to the input buffer so no allocation is needed.
pub trait ManifestParser {
    /// Error returned when the buffer is malformed or unsigned.
    type Error;

    /// Parse `data` and return a manifest that borrows from it.
    fn parse<'a>(&self, data: &'a [u8]) -> Result<PlatformFirmwareManifest<'a>, Self::Error>;
}

// ── Platform policy ───────────────────────────────────────────────────────────

/// Platform-level policy decisions, independent of storage and hardware.
///
/// This trait separates policy from mechanism: the same trait can be
/// implemented by a ROM-resident default, a flash-resident config, or a
/// test double.
pub trait PlatformPolicy {
    /// Return `true` if `svn >= minimum_svn` (standard anti-rollback rule).
    fn accepts_svn(&self, svn: u32, minimum_svn: u32) -> bool;

    /// Return `true` if another recovery attempt at `level` is allowed.
    fn accepts_recovery_level(&self, level: RecoveryLevel) -> bool;

    /// Return the current platform secure state for mailbox reporting.
    fn current_secure_state(&self) -> SecureState;
}

// ── Default policy ────────────────────────────────────────────────────────────

/// Permissive default policy used in development / unprovisioned mode.
///
/// Accepts all SVNs at or above the minimum and all recovery levels up to
/// [`RecoveryLevel::maximum`].
pub struct DefaultPolicy;

impl PlatformPolicy for DefaultPolicy {
    fn accepts_svn(&self, svn: u32, minimum_svn: u32) -> (b: bool)
        ensures
            b == (svn >= minimum_svn),
    {
        svn >= minimum_svn
    }

    fn accepts_recovery_level(&self, level: RecoveryLevel) -> (b: bool)
        ensures
            b == (level@ <= max_recovery_level()),
    {
        level.get() <= RecoveryLevel::maximum().get()
    }

    fn current_secure_state(&self) -> (s: SecureState)
        ensures
            s == SecureState::Unprovisioned,
    {
        SecureState::Unprovisioned
    }
}

// ── PlatformCommand ───────────────────────────────────────────────────────────

/// Hardware-independent platform command emitted by the PFR orchestrator.
///
/// The executor maps each variant to the concrete HAL calls required by the
/// target SoC and board.
///
/// Marked `#[non_exhaustive]` so adding variants in the future is not a
/// breaking change for downstream executors.
#[non_exhaustive]
#[derive(Debug, Clone, Copy, PartialEq, Eq, Structural)]
pub enum PlatformCommand {
    /// Assert target reset lines and switch SPI monitors to RoT ownership.
    HoldTargetsInReset,
    /// Release SPI monitor passthrough to allow target flash access.
    ReleaseSpiPassthrough,
    /// Program the SPI write-protect filter from the active PFM policy.
    ProgramSpiFilter,
    /// Deassert target reset and sideband signals in board order.
    ReleaseTargetsFromReset,
    /// Arm the boot-progress watchdog for the named component.
    StartWatchdog,
    /// Disarm the boot-progress watchdog.
    StopWatchdog,
    /// Begin image recovery from the golden/recovery slot.
    TriggerRecovery,
    /// Enter terminal lockdown; no further release is possible.
    EnterLockdown,
}

} // verus!
