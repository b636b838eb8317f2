//! SPI/I2C filter policy derived from verified manifests.
//!
//! The AST1060 SPI monitor (SPIPF) write-protects flash in 16 KiB blocks: a
//! table of sixteen 32-bit words holds one bit per block, covering the first
//! 512 blocks (8 MiB). This module computes that table from a manifest and the
//! SCU register values that route each monitor instance; applying them to the
//! hardware is the embedding firmware's job.
use vstd::prelude::*;
use crate::manifest::{PlatformFirmwareManifest, ProtectedRegion};

verus! {

/// Number of 32-bit entries in the AST1060 SPIPF address table.
pub const SPI_ADDRESS_TABLE_ENTRIES: usize = 16;

/// Bytes covered by one write-protect bit.
pub const SPI_BLOCK_SIZE: u32 = 0x4000;

/// Blocks the address table can describe.
pub const SPI_TABLE_BLOCKS: u32 = 512;

/// Bit `b` of `w` is set.
pub open spec fn bit_set(w: u32, b: u32) -> bool {
    (w >> b) & 1 == 1
}

/// Block `r` is write-protected by `table`.
pub open spec fn block_protected(table: Seq<u32>, r: int) -> bool {
    bit_set(table[r / 32], (r % 32) as u32)
}

/// `[offset, offset+size)` touches block `r`: the range is non-empty, does not
/// overflow, and `r` lies between the blocks of its first and last byte.
pub open spec fn range_covers_block(offset: u32, size: u32, r: int) -> bool {
    &&& size > 0
    &&& offset + size <= u32::MAX
    &&& offset / 0x4000 <= r
    &&& r <= (offset + size - 1) / 0x4000
}

/// Block `r` lies in some region of `regions` that does not grant writes.
pub open spec fn block_write_protected_by(regions: Seq<ProtectedRegion>, r: int) -> bool {
    exists|k: int|
        0 <= k < regions.len() && !(#[trigger] regions[k]).permissions.write && range_covers_block(
            regions[k].offset,
            regions[k].size,
            r,
        )
}

proof fn lemma_set_bit(w: u32, b: u32, c: u32)
    requires
        b < 32,
        c < 32,
    ensures
        bit_set(w | (1u32 << b), c) == (bit_set(w, c) || c == b),
{
    assert(((w | (1u32 << b)) >> c) & 1 == 1 <==> (((w >> c) & 1 == 1) || c == b)) by (bit_vector)
        requires
            b < 32,
            c < 32,
    ;
}

proof fn lemma_clear_bit(w: u32, b: u32, c: u32)
    requires
        b < 32,
        c < 32,
    ensures
        bit_set(w & !(1u32 << b), c) == (bit_set(w, c) && c != b),
{
    assert(((w & !(1u32 << b)) >> c) & 1 == 1 <==> (((w >> c) & 1 == 1) && c != b)) by (bit_vector)
        requires
            b < 32,
            c < 32,
    ;
}

proof fn lemma_zero_bits(c: u32)
    requires
        c < 32,
    ensures
        !bit_set(0, c),
{
    assert((0u32 >> c) & 1 == 0) by (bit_vector);
}

/// SPI filter policy for one flash monitor instance.
#[derive(Debug, Clone, Copy, PartialEq, Eq)]
pub struct SpiFilterPolicy {
    write_disable: [u32; SPI_ADDRESS_TABLE_ENTRIES],
    provisioned: bool,
}

impl SpiFilterPolicy {
    /// The write-disable table.
    pub closed spec fn table(&self) -> Seq<u32> {
        self.write_disable@
    }

    /// The policy was derived from a provisioned manifest.
    pub closed spec fn is_provisioned(&self) -> bool {
        self.provisioned
    }

    /// Create an unprovisioned pass-through policy.
    pub fn unprovisioned_bypass() -> (p: Self)
        ensures
            !p.is_provisioned(),
            p.table() == Seq::new(16, |i: int| 0u32),
    {
        let p = SpiFilterPolicy { write_disable: [0;SPI_ADDRESS_TABLE_ENTRIES], provisioned: false };
        assert(p.table() =~= Seq::new(16, |i: int| 0u32));
        p
    }

    /// Create a provisioned policy from protected manifest regions.
    ///
    /// Exactly the blocks touched by a region without write permission are
    /// write-protected.
    pub fn from_manifest(manifest: &PlatformFirmwareManifest<'_>) -> (p: Self)
        ensures
            p.is_provisioned(),
            p.table().len() == 16,
            forall|r: int|
                0 <= r < 512 ==> (block_protected(p.table(), r) <==> block_write_protected_by(
                    manifest.protected_regions@,
                    r,
                )),
    {
        let mut policy = SpiFilterPolicy {
            write_disable: [0;SPI_ADDRESS_TABLE_ENTRIES],
            provisioned: true,
        };
        proof {
            assert forall|r: int| 0 <= r < 512 implies !block_protected(policy.table(), r) by {
                assert(policy.table()[r / 32] == 0);
                lemma_zero_bits((r % 32) as u32);
            }
        }
        let regions = manifest.protected_regions;
        let mut i: usize = 0;
        while i < regions.len()
            invariant
                i <= regions@.len(),
                regions@ == manifest.protected_regions@,
                policy.provisioned,
                policy.table().len() == 16,
                forall|r: int|
                    0 <= r < 512 ==> (block_protected(policy.table(), r) <==> block_write_protected_by(
                        regions@.take(i as int),
                        r,
                    )),
            decreases regions@.len() - i,
        {
            let region = regions[i];
            let ghost before = policy.table();
            if !region.permissions.write {
                policy.protect_range(region.offset, region.size);
            }
            proof {
                let pre = regions@.take(i as int);
                let post = regions@.take(i + 1);
                assert forall|r: int| 0 <= r < 512 implies (block_protected(policy.table(), r)
                    <==> block_write_protected_by(post, r)) by {
                    assert(post[i as int] == region);
                    if block_protected(policy.table(), r) {
                        if block_protected(before, r) {
                            let k = choose|k: int|
                                0 <= k < pre.len() && !(#[trigger] pre[k]).permissions.write
                                    && range_covers_block(pre[k].offset, pre[k].size, r);
                            assert(post[k] == pre[k]);
                            assert(!post[k].permissions.write && range_covers_block(
                                post[k].offset,
                                post[k].size,
                                r,
                            ));
                        } else {
                            assert(!post[i as int].permissions.write && range_covers_block(
                                post[i as int].offset,
                                post[i as int].size,
                                r,
                            ));
                        }
                    }
                    if block_write_protected_by(post, r) {
                        let k = choose|k: int|
                            0 <= k < post.len() && !(#[trigger] post[k]).permissions.write
                                && range_covers_block(post[k].offset, post[k].size, r);
                        if k < i {
                            assert(pre[k] == post[k]);
                            assert(!pre[k].permissions.write && range_covers_block(
                                pre[k].offset,
                                pre[k].size,
                                r,
                            ));
                            assert(block_protected(before, r));
                        }
                    }
                }
            }
            i += 1;
        }
        proof {
            assert(regions@.take(regions@.len() as int) =~= regions@);
        }
        policy
    }

    /// The policy applied when the platform is released: a pass-through
    /// bypass while the manifest names no images (unprovisioned mode), the
    /// manifest's write protection otherwise.
    pub fn for_release(manifest: &PlatformFirmwareManifest<'_>) -> (p: Self)
        ensures
            manifest.images@.len() == 0 ==> !p.is_provisioned() && p.table() == Seq::new(
                16,
                |i: int| 0u32,
            ),
            manifest.images@.len() > 0 ==> p.is_provisioned() && p.table().len() == 16 && forall|
                r: int,
            |
                0 <= r < 512 ==> (block_protected(p.table(), r) <==> block_write_protected_by(
                    manifest.protected_regions@,
                    r,
                )),
    {
        if manifest.images.len() == 0 {
            Self::unprovisioned_bypass()
        } else {
            Self::from_manifest(manifest)
        }
    }

    /// Return true if this policy intentionally bypasses filtering.
    pub fn is_bypass(&self) -> (b: bool)
        ensures
            b == !self.is_provisioned(),
    {
        !self.provisioned
    }

    /// Return the write-disable address table.
    pub fn write_disable_table(&self) -> (t: &[u32; SPI_ADDRESS_TABLE_ENTRIES])
        ensures
            t@ == self.table(),
    {
        &self.write_disable
    }

    /// Write-protect every 16 KiB block touched by `[offset, offset+size)`.
    ///
    /// Empty or overflowing ranges are ignored; blocks beyond the table are
    /// not representable and are skipped.
    fn protect_range(&mut self, offset: u32, size: u32)
        requires
            old(self).table().len() == 16,
        ensures
            final(self).is_provisioned() == old(self).is_provisioned(),
            final(self).table().len() == 16,
            forall|r: int|
                0 <= r < 512 ==> (block_protected(final(self).table(), r) <==> (block_protected(
                    old(self).table(),
                    r,
                ) || range_covers_block(offset, size, r))),
    {
        let end = match offset.checked_add(size) {
            Some(end) => end,
            None => return,
        };
        if size == 0 {
            return;
        }

        let first = offset / 0x4000;
        let last = end.saturating_sub(1) / 0x4000;
        let ghost old_table = self.table();
        assert(first <= last);
        let mut region = first;
        while region <= last && region < 512
            invariant
                first == offset / 0x4000,
                last == (offset + size - 1) / 0x4000,
                size > 0,
                offset + size <= u32::MAX,
                first <= region,
                region <= last + 1,
                self.table().len() == 16,
                self.is_provisioned() == old(self).is_provisioned(),
                forall|r: int|
                    0 <= r < 512 ==> (block_protected(self.table(), r) <==> (block_protected(
                        old_table,
                        r,
                    ) || (first <= r < region))),
            decreases 512 - region,
        {
            let entry = (region / 32) as usize;
            let bit = region % 32;
            let ghost before = self.table();
            self.write_disable[entry] = self.write_disable[entry] | (1u32 << bit);
            proof {
                assert forall|r: int| 0 <= r < 512 implies (block_protected(self.table(), r) <==> (
                block_protected(before, r) || r == region)) by {
                    lemma_set_bit(before[entry as int], bit, (r % 32) as u32);
                    if r / 32 != entry {
                        assert(self.table()[r / 32] == before[r / 32]);
                    }
                }
            }
            region += 1;
        }
    }
}

// ── SCU SPI-monitor routing ─────────────────────────────────────────────────

/// `value` with bit `b` set when `enable`, cleared otherwise.
pub open spec fn with_bit(value: u32, b: u32, enable: bool) -> u32 {
    if enable {
        value | (1u32 << b)
    } else {
        value & !(1u32 << b)
    }
}

/// The register value after setting or clearing the bit of SPI monitor
/// instance `inst` (1–4) in the field that starts at `base_bit`; `None`
/// (leave the register alone) for any other instance.
pub open spec fn spim_bit_update(value: u32, inst: u8, base_bit: u8, enable: bool) -> Option<u32> {
    if 1 <= inst <= 4 {
        Some(with_bit(value, (base_bit + inst - 1) as u32, enable))
    } else {
        None
    }
}

fn set_scu_spim_bit(value: u32, inst: u8, base_bit: u8, enable: bool) -> (r: Option<u32>)
    requires
        base_bit <= 12,
    ensures
        r == spim_bit_update(value, inst, base_bit, enable),
        r matches Some(v) ==> forall|c: u32|
            c < 32 ==> bit_set(v, c) == (if c == base_bit + inst - 1 {
                enable
            } else {
                bit_set(value, c)
            }),
{
    if !(1 <= inst && inst <= 4) {
        return None;
    }
    let b = (base_bit + inst - 1) as u32;
    let bit = 1u32 << b;
    proof {
        assert forall|c: u32| c < 32 implies bit_set(with_bit(value, b, enable), c) == (if c == b {
            enable
        } else {
            bit_set(value, c)
        }) by {
            lemma_set_bit(value, b, c);
            lemma_clear_bit(value, b, c);
        }
    }
    if enable {
        Some(value | bit)
    } else {
        Some(value & !bit)
    }
}

/// The SCU SPIM mode control value with internal passthrough (bits 7:4) of
/// SPIPF instance `inst` turned on or off; `None` for an instance outside 1–4.
pub fn set_ast1060_scu_passthrough(value: u32, inst: u8, enable: bool) -> (r: Option<u32>)
    ensures
        r == spim_bit_update(value, inst, 4, enable),
{
    set_scu_spim_bit(value, inst, 4, enable)
}

/// The SCU SPIM mode control value with monitor output (bits 11:8) of SPIPF
/// instance `inst` turned on or off; `None` for an instance outside 1–4.
pub fn set_ast1060_scu_monitor(value: u32, inst: u8, enable: bool) -> (r: Option<u32>)
    ensures
        r == spim_bit_update(value, inst, 8, enable),
{
    set_scu_spim_bit(value, inst, 8, enable)
}

/// The SCU SPIM mode control value with the external flash mux (bits 15:12)
/// of SPIPF instance `inst` handed to the RoT; `None` outside 1–4.
pub fn set_spim_ext_mux_rot(value: u32, inst: u8) -> (r: Option<u32>)
    ensures
        r == spim_bit_update(value, inst, 12, true),
{
    set_scu_spim_bit(value, inst, 12, true)
}

/// The SCU SPIM mode control value with the external flash mux (bits 15:12)
/// of SPIPF instance `inst` handed back to the target; `None` outside 1–4.
pub fn set_spim_ext_mux_target(value: u32, inst: u8) -> (r: Option<u32>)
    ensures
        r == spim_bit_update(value, inst, 12, false),
{
    set_scu_spim_bit(value, inst, 12, false)
}

/// Handing the external mux to the RoT and back restores the register: the
/// two routings only touch the instance's own mux bit.
pub proof fn lemma_mux_rot_then_target(value: u32, inst: u8)
    requires
        1 <= inst <= 4,
    ensures
        spim_bit_update(value, inst, 12, true) matches Some(v) && spim_bit_update(
            v,
            inst,
            12,
            false,
        ) matches Some(w) && forall|c: u32|
            c < 32 && c != 11 + inst ==> bit_set(w, c) == bit_set(value, c),
        spim_bit_update(value, inst, 12, true) matches Some(v) && bit_set(v, (11 + inst) as u32),
{
    let b = (11 + inst) as u32;
    let v = with_bit(value, b, true);
    assert forall|c: u32| c < 32 && c != 11 + inst implies bit_set(with_bit(v, b, false), c)
        == bit_set(value, c) by {
        lemma_set_bit(value, b, c);
        lemma_clear_bit(v, b, c);
    }
    lemma_set_bit(value, b, b);
}

// ── SPI-monitor command table ────────────────────────────────────────────────

/// One entry of the SPI monitor's command allow-list.
#[derive(Debug, Clone, Copy, PartialEq, Eq, Structural)]
pub struct CmdEntry {
    pub opcode: u8,
    pub addr_bytes: u8,
    pub addr_width: u8,
    pub data_width: u8,
    pub dummy_cycles: u8,
    pub erase_size: u8,
    pub is_read: bool,
    pub is_write: bool,
    pub is_mem: bool,
}

/// The allow-list entry of a single-width command with `addr_bytes` address
/// bytes and no dummy cycles.
pub open spec fn spec_cmd(opcode: u8, addr_bytes: u8, is_read: bool, is_write: bool, is_mem: bool) -> CmdEntry {
    CmdEntry {
        opcode,
        addr_bytes,
        addr_width: if addr_bytes == 0 { 0 } else { 1 },
        data_width: 1,
        dummy_cycles: 0,
        erase_size: 0,
        is_read,
        is_write,
        is_mem,
    }
}

/// The allow-list entry of an erase command; chip erase (`0xC7`) carries no
/// address.
pub open spec fn spec_erase_cmd(opcode: u8, erase_size: u8) -> CmdEntry {
    CmdEntry {
        opcode,
        addr_bytes: if opcode == 0xc7 { 0 } else { 3 },
        addr_width: if opcode == 0xc7 { 0 } else { 1 },
        data_width: 0,
        dummy_cycles: 0,
        erase_size,
        is_read: false,
        is_write: true,
        is_mem: true,
    }
}

/// Build a command allow-list entry.
pub fn cmd(opcode: u8, addr_bytes: u8, is_read: bool, is_write: bool, is_mem: bool) -> (e: CmdEntry)
    ensures
        e == spec_cmd(opcode, addr_bytes, is_read, is_write, is_mem),
{
    CmdEntry {
        opcode,
        addr_bytes,
        addr_width: if addr_bytes == 0 { 0 } else { 1 },
        data_width: 1,
        dummy_cycles: 0,
        erase_size: 0,
        is_read,
        is_write,
        is_mem,
    }
}

/// Build an erase-command allow-list entry.
pub fn erase_cmd(opcode: u8, erase_size: u8) -> (e: CmdEntry)
    ensures
        e == spec_erase_cmd(opcode, erase_size),
{
    CmdEntry {
        opcode,
        addr_bytes: if opcode == 0xc7 { 0 } else { 3 },
        addr_width: if opcode == 0xc7 { 0 } else { 1 },
        data_width: 0,
        dummy_cycles: 0,
        erase_size,
        is_read: false,
        is_write: true,
        is_mem: true,
    }
}

/// Number of commands every provisioned SPI monitor allows.
pub const COMMON_COMMANDS: usize = 16;

/// The allow-list slot `i` of a provisioned SPI monitor: the read commands
/// (normal, fast, dual/quad output and I/O), the ID and status reads, write
/// enable/disable, page program, and the 4 KiB, 32 KiB, 64 KiB and chip
/// erases.
pub open spec fn common_command(i: int) -> CmdEntry {
    if i == 0 { spec_cmd(0x03, 3, true, false, true) }
    else if i == 1 { spec_cmd(0x0b, 3, true, false, true) }
    else if i == 2 { spec_cmd(0x3b, 3, true, false, true) }
    else if i == 3 { spec_cmd(0x6b, 3, true, false, true) }
    else if i == 4 { spec_cmd(0xbb, 3, true, false, true) }
    else if i == 5 { spec_cmd(0xeb, 3, true, false, true) }
    else if i == 6 { spec_cmd(0x9f, 0, true, false, false) }
    else if i == 7 { spec_cmd(0x05, 0, true, false, false) }
    else if i == 8 { spec_cmd(0x35, 0, true, false, false) }
    else if i == 9 { spec_cmd(0x06, 0, false, true, false) }
    else if i == 10 { spec_cmd(0x04, 0, false, true, false) }
    else if i == 11 { spec_cmd(0x02, 3, false, true, true) }
    else if i == 12 { spec_erase_cmd(0x20, 1) }
    else if i == 13 { spec_erase_cmd(0x52, 3) }
    else if i == 14 { spec_erase_cmd(0xd8, 5) }
    else { spec_erase_cmd(0xc7, 7) }
}

/// The command allow-list of a provisioned SPI monitor, in slot order.
pub fn common_commands() -> (t: [CmdEntry; COMMON_COMMANDS])
    ensures
        forall|i: int| 0 <= i < COMMON_COMMANDS ==> t@[i] == common_command(i),
{
    [
        cmd(0x03, 3, true, false, true),
        cmd(0x0b, 3, true, false, true),
        cmd(0x3b, 3, true, false, true),
        cmd(0x6b, 3, true, false, true),
        cmd(0xbb, 3, true, false, true),
        cmd(0xeb, 3, true, false, true),
        cmd(0x9f, 0, true, false, false),
        cmd(0x05, 0, true, false, false),
        cmd(0x35, 0, true, false, false),
        cmd(0x06, 0, false, true, false),
        cmd(0x04, 0, false, true, false),
        cmd(0x02, 3, false, true, true),
        erase_cmd(0x20, 1),
        erase_cmd(0x52, 3),
        erase_cmd(0xd8, 5),
        erase_cmd(0xc7, 7),
    ]
}

} // verus!
