use aspeed_rot::filter::{
    cmd, common_commands, erase_cmd, set_ast1060_scu_monitor, set_ast1060_scu_passthrough,
    set_spim_ext_mux_rot, set_spim_ext_mux_target, CmdEntry, SpiFilterPolicy, COMMON_COMMANDS,
    SPI_ADDRESS_TABLE_ENTRIES,
};
use aspeed_rot::manifest::{PlatformFirmwareManifest, ProtectedRegion, RegionPermissions};

fn policy_for(regions: &[ProtectedRegion]) -> SpiFilterPolicy {
    SpiFilterPolicy::from_manifest(&PlatformFirmwareManifest {
        version: 0,
        protected_regions: regions,
        images: &[],
    })
}

fn ro(offset: u32, size: u32) -> ProtectedRegion {
    ProtectedRegion { offset, size, permissions: RegionPermissions::read_only() }
}

#[test]
fn bypass_policy_is_empty() {
    let p = SpiFilterPolicy::unprovisioned_bypass();
    assert!(p.is_bypass());
    assert_eq!(p.write_disable_table(), &[0u32; SPI_ADDRESS_TABLE_ENTRIES]);
}

#[test]
fn read_only_regions_are_write_protected() {
    let p = policy_for(&[ro(0, 0x4000), ro(33 * 0x4000, 0x8000)]);
    assert!(!p.is_bypass());
    let t = p.write_disable_table();
    assert_eq!(t[0], 1);
    assert_eq!(t[1], 0b110);
    assert!(t[2..].iter().all(|w| *w == 0));
}

#[test]
fn partial_blocks_are_protected_whole() {
    // 0x3FFF..0x4001 touches blocks 0 and 1.
    let p = policy_for(&[ro(0x3FFF, 2)]);
    assert_eq!(p.write_disable_table()[0], 0b11);
}

#[test]
fn writable_empty_and_overflowing_regions_are_not_protected() {
    let rw = ProtectedRegion {
        offset: 0,
        size: 0x10000,
        permissions: RegionPermissions::read_write(),
    };
    let p = policy_for(&[rw, ro(0x8000, 0), ro(0xFFFF_C000, 0x8000)]);
    assert!(!p.is_bypass());
    assert_eq!(p.write_disable_table(), &[0u32; SPI_ADDRESS_TABLE_ENTRIES]);
}

#[test]
fn table_covers_first_512_blocks_only() {
    // Blocks 511 and 512: only 511 fits in the table.
    let p = policy_for(&[ro(511 * 0x4000, 0x8000)]);
    let t = p.write_disable_table();
    assert_eq!(t[15], 0x8000_0000);
    assert!(t[..15].iter().all(|w| *w == 0));
}

#[test]
fn scu_routing_bits() {
    assert_eq!(set_ast1060_scu_passthrough(0, 1, true), Some(0x10));
    assert_eq!(set_ast1060_scu_passthrough(0xFF, 4, false), Some(0x7F));
    assert_eq!(set_ast1060_scu_monitor(0, 2, true), Some(0x200));
    assert_eq!(set_spim_ext_mux_rot(0, 1), Some(0x1000));
    assert_eq!(set_spim_ext_mux_rot(0, 4), Some(0x8000));
    assert_eq!(set_spim_ext_mux_target(0xF000, 3), Some(0xB000));
    assert_eq!(set_spim_ext_mux_rot(0, 0), None);
    assert_eq!(set_ast1060_scu_monitor(0, 5, true), None);
}

#[test]
fn mux_round_trip_restores_register() {
    let v = 0x1234_0F0F;
    for inst in 1..=4u8 {
        let rot = set_spim_ext_mux_rot(v, inst).unwrap();
        assert_ne!(rot & (1 << (11 + inst)), 0);
        assert_eq!(set_spim_ext_mux_target(rot, inst), Some(v & !(1 << (11 + inst))));
    }
}

#[test]
fn command_entries() {
    assert_eq!(
        cmd(0x9f, 0, true, false, false),
        CmdEntry {
            opcode: 0x9f,
            addr_bytes: 0,
            addr_width: 0,
            data_width: 1,
            dummy_cycles: 0,
            erase_size: 0,
            is_read: true,
            is_write: false,
            is_mem: false,
        }
    );
    assert_eq!(cmd(0x03, 3, true, false, true).addr_width, 1);
    let chip = erase_cmd(0xc7, 7);
    assert_eq!((chip.addr_bytes, chip.addr_width, chip.erase_size), (0, 0, 7));
    let sector = erase_cmd(0x20, 1);
    assert_eq!((sector.addr_bytes, sector.addr_width, sector.data_width), (3, 1, 0));
    assert!(sector.is_write && sector.is_mem && !sector.is_read);
}

#[test]
fn common_command_table() {
    let t = common_commands();
    assert_eq!(t.len(), COMMON_COMMANDS);
    let opcodes: Vec<u8> = t.iter().map(|e| e.opcode).collect();
    assert_eq!(
        opcodes,
        vec![
            0x03, 0x0b, 0x3b, 0x6b, 0xbb, 0xeb, 0x9f, 0x05, 0x35, 0x06, 0x04, 0x02, 0x20, 0x52,
            0xd8, 0xc7
        ]
    );
    assert_eq!(t[11], cmd(0x02, 3, false, true, true));
    assert_eq!(t[14], erase_cmd(0xd8, 5));
    let erase_sizes: Vec<u8> = t[12..].iter().map(|e| e.erase_size).collect();
    assert_eq!(erase_sizes, vec![1, 3, 5, 7]);
}

#[test]
fn release_policy_follows_provisioning() {
    let regions = [ro(0, 0x4000)];
    let unprovisioned = PlatformFirmwareManifest { version: 0, protected_regions: &regions, images: &[] };
    assert_eq!(SpiFilterPolicy::for_release(&unprovisioned), SpiFilterPolicy::unprovisioned_bypass());
    let images = [aspeed_rot::manifest::ImageDescriptor {
        offset: 0,
        size: 0x100,
        hash: aspeed_rot::manifest::HashAlgorithm::Sha256,
        signature: aspeed_rot::manifest::SignatureAlgorithm::EcdsaP384,
        svn: 0,
    }];
    let provisioned = PlatformFirmwareManifest { version: 0, protected_regions: &regions, images: &images };
    let p = SpiFilterPolicy::for_release(&provisioned);
    assert!(!p.is_bypass());
    assert_eq!(p.write_disable_table()[0], 1);
    assert_eq!(p, SpiFilterPolicy::from_manifest(&provisioned));
    assert_eq!(unprovisioned, unprovisioned);
    assert_ne!(unprovisioned, provisioned);
}
