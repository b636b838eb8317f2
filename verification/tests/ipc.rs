use aspeed_rot::ipc::{decode, encode, Envelope, Payload, RotStatus};

fn roundtrip(env: Envelope) {
    let mut buf = [0u8; 64];
    let n = encode(&env, &mut buf).expect("encode");
    let got = decode(&buf[..n]).expect("decode");
    assert_eq!(env, got);
}

#[test]
fn golden_ping() {
    // Envelope{ seq: 7, ping: Ping{ nonce: 0x1234 } }
    // seq f1 varint: 08 07
    // ping f2 LEN: 12 03  { nonce f1 varint: 08 B4 24 }  (0x1234 = varint B4 24)
    let env = Envelope::new(7, Payload::Ping(0x1234));
    let mut buf = [0u8; 64];
    let n = encode(&env, &mut buf).unwrap();
    assert_eq!(&buf[..n], &[0x08, 0x07, 0x12, 0x03, 0x08, 0xB4, 0x24]);
}

#[test]
fn golden_get_rot_status() {
    // Envelope{ seq: 0, get_rot_status: {} } -> f4 LEN, len 0: 22 00
    let env = Envelope::new(0, Payload::GetRotStatus);
    let mut buf = [0u8; 64];
    let n = encode(&env, &mut buf).unwrap();
    assert_eq!(&buf[..n], &[0x22, 0x00]);
}

#[test]
fn rot_status_defaults_omitted() {
    // All-default RotStatus encodes to an empty body: envelope is f5 LEN 00.
    let env = Envelope::new(1, Payload::RotStatus(RotStatus::default()));
    let mut buf = [0u8; 64];
    let n = encode(&env, &mut buf).unwrap();
    assert_eq!(&buf[..n], &[0x08, 0x01, 0x2A, 0x00]);
}

#[test]
fn roundtrips() {
    roundtrip(Envelope::new(0, Payload::Ping(0)));
    roundtrip(Envelope::new(42, Payload::Pong(0xDEAD_BEEF)));
    roundtrip(Envelope::new(0, Payload::GetRotStatus));
    roundtrip(Envelope::new(
        0xFFFF_FFFF,
        Payload::RotStatus(RotStatus {
            silicon_rev: 0x2750_00A2,
            caliptra_flow_status: 0x0000_080A,
            caliptra_boot_status: 0x1234,
            secure_boot_enabled: false,
            caliptra_rt_ready: true,
        }),
    ));
}

#[test]
fn unknown_fields_skipped() {
    // seq=5, then an unknown field 9 varint, then get_rot_status.
    // 08 05 | 48 63 (f9 varint 0x63) | 22 00
    let buf = [0x08, 0x05, 0x48, 0x63, 0x22, 0x00];
    let env = decode(&buf).unwrap();
    assert_eq!(env.seq, 5);
    assert_eq!(env.payload, Payload::GetRotStatus);
}

#[test]
fn truncated_is_none() {
    assert!(decode(&[0x08]).is_none()); // varint tag with no value
    assert!(decode(&[0x12, 0x05, 0x00]).is_none()); // len says 5, only 1 byte
}

// ── Further codec cases ──────────────────────────────────────────────────────

#[test]
fn unset_payload_encodes_seq_only() {
    let env = Envelope::new(3, Payload::Unset);
    let mut buf = [0u8; 8];
    let n = encode(&env, &mut buf).unwrap();
    assert_eq!(&buf[..n], &[0x08, 0x03]);
    assert_eq!(decode(&buf[..n]), Some(env));
}

#[test]
fn empty_buffer_decodes_to_default_envelope() {
    assert_eq!(decode(&[]), Some(Envelope::new(0, Payload::Unset)));
}

#[test]
fn encode_into_short_buffer_is_none() {
    let env = Envelope::new(7, Payload::Ping(0x1234));
    let mut buf = [0u8; 6];
    assert_eq!(encode(&env, &mut buf), None);
    // What fit before the body ran out of room stays written.
    let mut short = [0xEEu8; 4];
    assert_eq!(encode(&env, &mut short), None);
    assert_eq!(short, [0x08, 0x07, 0x12, 0x03]);
    let mut tiny = [0xEEu8; 1];
    assert_eq!(encode(&env, &mut tiny), None);
    assert_eq!(tiny, [0x08]);
    let mut exact = [0u8; 7];
    assert_eq!(encode(&env, &mut exact), Some(7));
}

#[test]
fn encode_leaves_tail_untouched() {
    let env = Envelope::new(0, Payload::GetRotStatus);
    let mut buf = [0xAAu8; 8];
    let n = encode(&env, &mut buf).unwrap();
    assert_eq!(n, 2);
    assert_eq!(&buf[2..], &[0xAA; 6]);
}

#[test]
fn max_seq_encodes_in_five_bytes() {
    let env = Envelope::new(0xFFFF_FFFF, Payload::Unset);
    let mut buf = [0u8; 16];
    let n = encode(&env, &mut buf).unwrap();
    assert_eq!(&buf[..n], &[0x08, 0xFF, 0xFF, 0xFF, 0xFF, 0x0F]);
}

#[test]
fn pong_golden_bytes() {
    let env = Envelope::new(1, Payload::Pong(1));
    let mut buf = [0u8; 16];
    let n = encode(&env, &mut buf).unwrap();
    assert_eq!(&buf[..n], &[0x08, 0x01, 0x1A, 0x02, 0x08, 0x01]);
}

#[test]
fn rot_status_fields_golden_bytes() {
    let status = RotStatus {
        silicon_rev: 1,
        caliptra_flow_status: 0,
        caliptra_boot_status: 2,
        secure_boot_enabled: true,
        caliptra_rt_ready: false,
    };
    let env = Envelope::new(0, Payload::RotStatus(status));
    let mut buf = [0u8; 32];
    let n = encode(&env, &mut buf).unwrap();
    assert_eq!(&buf[..n], &[0x2A, 0x06, 0x08, 0x01, 0x18, 0x02, 0x20, 0x01]);
    assert_eq!(decode(&buf[..n]), Some(env));
}

#[test]
fn last_payload_wins() {
    // ping{nonce:1} then get_rot_status
    let buf = [0x12, 0x02, 0x08, 0x01, 0x22, 0x00];
    assert_eq!(decode(&buf).unwrap().payload, Payload::GetRotStatus);
}

#[test]
fn seq_wider_than_u32_is_truncated() {
    // f1 varint 0x1_0000_0005 keeps the low 32 bits.
    let buf = [0x08, 0x85, 0x80, 0x80, 0x80, 0x10];
    assert_eq!(decode(&buf).unwrap().seq, 5);
}

#[test]
fn unknown_wire_types_are_skipped_or_rejected() {
    // unknown field 6, fixed64, then seq 2
    let buf = [0x31, 0, 0, 0, 0, 0, 0, 0, 0, 0x08, 0x02];
    assert_eq!(decode(&buf).unwrap().seq, 2);
    // unknown field 6, fixed32
    let buf = [0x35, 1, 2, 3, 4];
    assert_eq!(decode(&buf), Some(Envelope::new(0, Payload::Unset)));
    // unknown field 6, wire type 3 (group start) is malformed
    assert!(decode(&[0x33]).is_none());
}

#[test]
fn overlong_varint_is_none() {
    let buf = [0x08, 0xFF, 0xFF, 0xFF, 0xFF, 0xFF, 0xFF, 0xFF, 0xFF, 0xFF, 0xFF, 0x01];
    assert!(decode(&buf).is_none());
}

#[test]
fn unknown_fields_with_long_keys_are_skipped() {
    // field 300, varint 7 (key 0x960 = E0 12), then get_rot_status
    let buf = [0xE0, 0x12, 0x07, 0x22, 0x00];
    assert_eq!(decode(&buf), Some(Envelope::new(0, Payload::GetRotStatus)));
    // field 9, length-delimited with a 3-byte body, then seq 4
    let buf = [0x4A, 0x03, 0xFF, 0xFF, 0xFF, 0x08, 0x04];
    assert_eq!(decode(&buf), Some(Envelope::new(4, Payload::Unset)));
}

#[test]
fn large_field_numbers_are_unknown() {
    // field 257 (key 0x808 = 88 10) with varint 5 is not `seq`.
    let buf = [0x88, 0x10, 0x05];
    assert_eq!(decode(&buf), Some(Envelope::new(0, Payload::Unset)));
    // field 258, length-delimited, is not a ping.
    let buf = [0x92, 0x10, 0x02, 0x08, 0x01];
    assert_eq!(decode(&buf), Some(Envelope::new(0, Payload::Unset)));
}
