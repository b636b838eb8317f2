use aspeed_rot::bootmcu::{
    a2_ca35_placement, a35_entry_addr, a35_header_valid, boot_step_allowed, build_status_response,
    entropy, idevid_next, mac_rgmii_clk_sel, put_word, secure_boot_enabled, timer_entropy,
    verify_payload, A35BootHeader, IdevidEvent, IdevidState, A2_CA35_LOAD_ADDR, A2_HDR_LEN,
    A35_LOAD_ADDR, A35_LOAD_FUDGE, HWSTRAP1_EN_SECBOOT, IDEVID_TBS_TAG, MAC_CLK_MASK,
};

const MAGIC: u32 = 0x3533_4131;

fn header(entry_off: u32, payload_len: u32) -> A35BootHeader {
    A35BootHeader { magic: MAGIC, entry_off, payload_len, check: MAGIC ^ entry_off ^ payload_len }
}

#[test]
fn secure_boot_strap() {
    assert_eq!(HWSTRAP1_EN_SECBOOT, 1 << 5);
    assert!(secure_boot_enabled(0x20));
    assert!(secure_boot_enabled(0xFFFF_FFFF));
    assert!(!secure_boot_enabled(0xFFFF_FFDF));
    assert!(!secure_boot_enabled(0));
}

#[test]
fn failures_tolerated_only_without_secure_boot() {
    assert!(boot_step_allowed(true, true));
    assert!(boot_step_allowed(true, false));
    assert!(boot_step_allowed(false, false));
    assert!(!boot_step_allowed(false, true));
}

fn run_idevid(events: &[IdevidEvent], secure_boot: bool, max_tbs: usize) -> IdevidState {
    let mut s = IdevidState::CheckReady;
    for e in events {
        s = idevid_next(s, *e, secure_boot, max_tbs);
    }
    s
}

#[test]
fn idevid_happy_path() {
    // Length word 0x0001_0000 byte-swapped is 0x100; the TBS is 0x104 bytes.
    let events = [
        IdevidEvent::Ready(true),
        IdevidEvent::Tag(Some(IDEVID_TBS_TAG)),
        IdevidEvent::Length(Some(0x0001_0000)),
    ];
    assert_eq!(run_idevid(&events, true, 0x200), IdevidState::ReadTbs { size: 0x104 });
    let events = [
        IdevidEvent::Ready(true),
        IdevidEvent::Tag(Some(IDEVID_TBS_TAG)),
        IdevidEvent::Length(Some(0x0001_0000)),
        IdevidEvent::TbsRead(true),
        IdevidEvent::SignatureRead(true),
        IdevidEvent::CertificateBuilt(Some(600)),
    ];
    assert_eq!(run_idevid(&events, true, 0x200), IdevidState::Populate { cert_size: 600 });
    let mut all = events.to_vec();
    all.push(IdevidEvent::Populated(true));
    assert_eq!(run_idevid(&all, true, 0x200), IdevidState::Done { ok: true });
}

#[test]
fn idevid_failures_follow_secure_boot() {
    for secure_boot in [false, true] {
        let fail = IdevidState::Done { ok: !secure_boot };
        assert_eq!(run_idevid(&[IdevidEvent::Ready(false)], secure_boot, 0x200), fail);
        // Empty OTP and a foreign tag both end the flow.
        let empty = [IdevidEvent::Ready(true), IdevidEvent::Tag(Some(0))];
        assert_eq!(run_idevid(&empty, secure_boot, 0x200), fail);
        let bad = [IdevidEvent::Ready(true), IdevidEvent::Tag(Some(0x3082))];
        assert_eq!(run_idevid(&bad, secure_boot, 0x200), fail);
        let unread = [IdevidEvent::Ready(true), IdevidEvent::Tag(None)];
        assert_eq!(run_idevid(&unread, secure_boot, 0x200), fail);
        // A TBS larger than the buffer is refused.
        let large = [
            IdevidEvent::Ready(true),
            IdevidEvent::Tag(Some(IDEVID_TBS_TAG)),
            IdevidEvent::Length(Some(0xFF01_0000)),
        ];
        assert_eq!(run_idevid(&large, secure_boot, 0x200), fail);
        let populate_failed = [
            IdevidEvent::Ready(true),
            IdevidEvent::Tag(Some(IDEVID_TBS_TAG)),
            IdevidEvent::Length(Some(0)),
            IdevidEvent::TbsRead(true),
            IdevidEvent::SignatureRead(true),
            IdevidEvent::CertificateBuilt(Some(10)),
            IdevidEvent::Populated(false),
        ];
        assert_eq!(run_idevid(&populate_failed, secure_boot, 0x200), fail);
    }
}

#[test]
fn idevid_ignores_unrelated_events() {
    let s = IdevidState::ReadTag;
    assert_eq!(idevid_next(s, IdevidEvent::Ready(true), true, 16), s);
    let done = IdevidState::Done { ok: false };
    assert_eq!(idevid_next(done, IdevidEvent::Populated(true), true, 16), done);
}

#[test]
fn a35_entry_from_header() {
    let h = header(0x7_dc00, 0x10_0000);
    assert!(a35_header_valid(&h, MAGIC));
    assert_eq!(a35_entry_addr(&h, MAGIC), Some(A35_LOAD_ADDR + A35_LOAD_FUDGE + 0x7_dc00));
    assert_eq!(a35_entry_addr(&h, MAGIC), Some(0x8407_dc00));
    let mut bad = h;
    bad.check ^= 1;
    assert!(!a35_header_valid(&bad, MAGIC));
    assert_eq!(a35_entry_addr(&bad, MAGIC), None);
    assert_eq!(a35_entry_addr(&h, MAGIC ^ 1), None);
}

#[test]
fn a2_placement() {
    let h = header(0x7_dca0, 0x20_0000);
    assert_eq!(
        a2_ca35_placement(&h, MAGIC, 0x20_0010),
        Some((A2_CA35_LOAD_ADDR + 0x7_dca0, 0x20_0010 - A2_HDR_LEN))
    );
    assert_eq!(a2_ca35_placement(&h, MAGIC, 16), Some((0x8407_dc00, 0)));
    let mut bad = h;
    bad.magic = 0;
    assert_eq!(a2_ca35_placement(&bad, MAGIC, 32), None);
    // An invalid header is refused whatever the image size.
    assert_eq!(a2_ca35_placement(&bad, MAGIC, 8), None);
}

#[test]
fn payload_verification() {
    let head = [1, 2, 3, 4];
    let tail = [5, 6, 7, 8];
    assert!(verify_payload(&head, &head, 64, &tail, &tail));
    assert!(!verify_payload(&head, &[1, 2, 3, 5], 64, &tail, &tail));
    assert!(!verify_payload(&head, &head, 64, &tail, &[5, 6, 7, 0]));
    // Short payloads do not compare the tail.
    assert!(verify_payload(&head, &head, 8, &tail, &[0, 0, 0, 0]));
    // A blank flash source is never accepted.
    let blank = [0, 0xFFFF_FFFF, 0, 0xFFFF_FFFF];
    assert!(!verify_payload(&blank, &blank, 64, &tail, &tail));
}

fn xorshift(mut x: u32) -> u32 {
    x ^= x << 13;
    x ^= x >> 17;
    x ^= x << 5;
    x
}

#[test]
fn entropy_words() {
    let samples = [0x1111_1111u32; 12];
    let mut seed = 1u32;
    let out = entropy(&mut seed, &samples);
    let mut x = 1u32;
    for word in out {
        x = xorshift(x);
        assert_eq!(word, x ^ 0x1111_1111);
    }
    assert_eq!(seed, x);
    assert_eq!(xorshift(1), 270369);
}

#[test]
fn timer_entropy_words() {
    let samples = [0x8000_0001u32; 12];
    let e = timer_entropy(&samples);
    for (i, word) in e.iter().enumerate() {
        let i = i as u32;
        assert_eq!(*word, 0x8000_0001u32.rotate_left(i * 5) ^ i.wrapping_mul(0x9e37_79b9));
    }
    assert_eq!(e[0], 0x8000_0001);
    assert_eq!(e[1], 0x0000_0030 ^ 0x9e37_79b9);
}

#[test]
fn mac_clock_dividers() {
    assert_eq!(mac_rgmii_clk_sel(0), 0x8680_0000);
    assert_eq!(mac_rgmii_clk_sel(0xFFFF_FFFF), 0x979F_FFFF);
    assert_eq!(mac_rgmii_clk_sel(0x1234_5678) & !MAC_CLK_MASK, 0x1234_5678 & !MAC_CLK_MASK);
}

#[test]
fn status_response_layout() {
    let mut request = [0u8; 32];
    request[..4].copy_from_slice(&[9, 8, 7, 6]);
    request[4] = 0xFF;
    let r = build_status_response(0x0000_080A, 0x1234, 0x4040_7dc0, &request);
    assert_eq!(&r[..4], b"BMCU");
    assert_eq!(&r[4..8], &0x0000_080Au32.to_le_bytes());
    assert_eq!(&r[8..12], &0x1234u32.to_le_bytes());
    assert_eq!(&r[12..16], &0x4040_7dc0u32.to_le_bytes());
    assert_eq!(&r[16..20], &[9, 8, 7, 6]);
    assert_eq!(&r[20..], &[0u8; 12]);
}

#[test]
fn put_word_little_endian() {
    let mut p = [0xAAu8; 32];
    put_word(&mut p, 7, 0x0102_0304);
    assert_eq!(&p[28..], &[4, 3, 2, 1]);
    assert_eq!(&p[..28], &[0xAA; 28]);
}
