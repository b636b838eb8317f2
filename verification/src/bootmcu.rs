//! Boot decisions of the AST2700 BootMCU Root of Trust.
//!
//! Boot sequence: WDT/EXTRST masks → SLI calibration → SCU policy →
//! DRAM init → fabric/PCI → load payloads → MPU → release CA35/SSP/TSP.
//!
//! The firmware reads registers, flash and OTP and talks to Caliptra; the
//! values it reads are handed to the functions here, which decide what to
//! program, whether a payload arrived intact, where the CA35 enters, and
//! whether a failed step may be tolerated.
use vstd::prelude::*;

verus! {

// ── Secure-boot strap and failure policy ─────────────────────────────────────

/// SCU1 hardware strap bit 5: secure boot enabled.
pub const HWSTRAP1_EN_SECBOOT: u32 = 0x20;

/// Whether the SCU1 `HWSTRAP1` value enables secure boot.
pub fn secure_boot_enabled(hwstrap1: u32) -> (b: bool)
    ensures
        b == (hwstrap1 & 0x20 != 0),
{
    hwstrap1 & HWSTRAP1_EN_SECBOOT != 0
}

/// Whether boot may continue after an authentication step: a failure is
/// tolerated only on a development board, i.e. when secure boot is disabled.
pub fn boot_step_allowed(succeeded: bool, secure_boot: bool) -> (b: bool)
    ensures
        b == (succeeded || !secure_boot),
{
    succeeded || !secure_boot
}

// ── IDEVID certificate provisioning ──────────────────────────────────────────

/// The OTP TBS tag that marks a provisioned IDEVID (DER SEQUENCE, 2-byte length).
pub const IDEVID_TBS_TAG: u32 = 0x8230;

/// Stage of IDEVID certificate provisioning; each stage names the platform
/// operation to perform next.
#[derive(Debug, Clone, Copy, PartialEq, Eq, Structural)]
pub enum IdevidState {
    /// Ask whether Caliptra's runtime is ready.
    CheckReady,
    /// Read the TBS tag word from OTP.
    ReadTag,
    /// Read the TBS length word from OTP.
    ReadLength,
    /// Read `size` TBS bytes from OTP.
    ReadTbs { size: usize },
    /// Read the signature `r` and `s` halves from OTP.
    ReadSignature { size: usize },
    /// Have Caliptra build the certificate from the TBS and signature.
    BuildCertificate { size: usize },
    /// Hand the `cert_size`-byte certificate to Caliptra.
    Populate { cert_size: usize },
    /// Finished; `ok` says whether boot may continue.
    Done { ok: bool },
}

/// The result of the operation the previous stage asked for.
#[derive(Debug, Clone, Copy, PartialEq, Eq, Structural)]
pub enum IdevidEvent {
    Ready(bool),
    Tag(Option<u32>),
    Length(Option<u32>),
    TbsRead(bool),
    SignatureRead(bool),
    CertificateBuilt(Option<usize>),
    Populated(bool),
}

/// `w` with its four bytes in reverse order.
pub open spec fn spec_swap_bytes(w: u32) -> u32 {
    ((w >> 24) & 0xff) | ((w >> 8) & 0xff00) | ((w << 8) & 0xff0000) | ((w << 24) & 0xff000000)
}

/// The TBS size encoded by the OTP length word: the big-endian DER length
/// plus the four header bytes.
pub open spec fn tbs_size_of(len_word: u32) -> int {
    spec_swap_bytes(len_word) + 4
}

/// The provisioning rules. Every failure ends the flow with `ok` equal to
/// "secure boot is disabled"; an empty OTP (tag 0) is skipped the same way; a
/// tag other than the TBS tag, or a TBS larger than `max_tbs`, is a failure.
/// An event that does not answer the current stage leaves it unchanged.
pub open spec fn idevid_step(
    state: IdevidState,
    event: IdevidEvent,
    secure_boot: bool,
    max_tbs: usize,
) -> IdevidState {
    let fail = IdevidState::Done { ok: !secure_boot };
    match (state, event) {
        (IdevidState::CheckReady, IdevidEvent::Ready(ready)) => if ready {
            IdevidState::ReadTag
        } else {
            fail
        },
        (IdevidState::ReadTag, IdevidEvent::Tag(tag)) => match tag {
            Some(t) => if t == IDEVID_TBS_TAG {
                IdevidState::ReadLength
            } else {
                fail
            },
            None => fail,
        },
        (IdevidState::ReadLength, IdevidEvent::Length(len)) => match len {
            Some(w) => if tbs_size_of(w) > max_tbs {
                fail
            } else {
                IdevidState::ReadTbs { size: tbs_size_of(w) as usize }
            },
            None => fail,
        },
        (IdevidState::ReadTbs { size }, IdevidEvent::TbsRead(ok)) => if ok {
            IdevidState::ReadSignature { size }
        } else {
            fail
        },
        (IdevidState::ReadSignature { size }, IdevidEvent::SignatureRead(ok)) => if ok {
            IdevidState::BuildCertificate { size }
        } else {
            fail
        },
        (IdevidState::BuildCertificate { size }, IdevidEvent::CertificateBuilt(cert)) => match cert {
            Some(n) => IdevidState::Populate { cert_size: n },
            None => fail,
        },
        (IdevidState::Populate { cert_size }, IdevidEvent::Populated(ok)) => if ok {
            IdevidState::Done { ok: true }
        } else {
            fail
        },
        _ => state,
    }
}

fn swap_bytes(w: u32) -> (r: u32)
    ensures
        r == spec_swap_bytes(w),
{
    ((w >> 24) & 0xff) | ((w >> 8) & 0xff00) | ((w << 8) & 0xff0000) | ((w << 24) & 0xff000000)
}

/// Advance IDEVID provisioning by the result of the last operation.
pub fn idevid_next(state: IdevidState, event: IdevidEvent, secure_boot: bool, max_tbs: usize) -> (next:
    IdevidState)
    ensures
        next == idevid_step(state, event, secure_boot, max_tbs),
{
    let fail = IdevidState::Done { ok: !secure_boot };
    match (state, event) {
        (IdevidState::CheckReady, IdevidEvent::Ready(ready)) => if ready {
            IdevidState::ReadTag
        } else {
            fail
        },
        (IdevidState::ReadTag, IdevidEvent::Tag(tag)) => match tag {
            Some(t) => if t == IDEVID_TBS_TAG {
                IdevidState::ReadLength
            } else {
                fail
            },
            None => fail,
        },
        (IdevidState::ReadLength, IdevidEvent::Length(len)) => match len {
            Some(w) => {
                let size = swap_bytes(w) as u64 + 4;
                if size > max_tbs as u64 {
                    fail
                } else {
                    IdevidState::ReadTbs { size: size as usize }
                }
            },
            None => fail,
        },
        (IdevidState::ReadTbs { size }, IdevidEvent::TbsRead(ok)) => if ok {
            IdevidState::ReadSignature { size }
        } else {
            fail
        },
        (IdevidState::ReadSignature { size }, IdevidEvent::SignatureRead(ok)) => if ok {
            IdevidState::BuildCertificate { size }
        } else {
            fail
        },
        (IdevidState::BuildCertificate { size }, IdevidEvent::CertificateBuilt(cert)) => match cert {
            Some(n) => IdevidState::Populate { cert_size: n },
            None => fail,
        },
        (IdevidState::Populate { cert_size }, IdevidEvent::Populated(ok)) => if ok {
            IdevidState::Done { ok: true }
        } else {
            fail
        },
        _ => state,
    }
}

/// IDEVID provisioning never blocks a development board: whatever happens,
/// once it is done with secure boot disabled, boot may continue; and with
/// secure boot enabled it is done with success only after the certificate was
/// populated.
pub proof fn lemma_idevid_failures_block_only_secure_boot(
    state: IdevidState,
    event: IdevidEvent,
    secure_boot: bool,
    max_tbs: usize,
)
    ensures
        !secure_boot && !(state is Done) && (idevid_step(state, event, secure_boot, max_tbs) is Done)
            ==> idevid_step(state, event, secure_boot, max_tbs) == (IdevidState::Done { ok: true }),
        secure_boot && !(state is Done) && idevid_step(state, event, secure_boot, max_tbs) == (
        IdevidState::Done { ok: true }) ==> (state is Populate) && event == IdevidEvent::Populated(
            true,
        ),
{
}

/// The state reached from `state` after `events`, in order.
pub open spec fn idevid_run(
    state: IdevidState,
    events: Seq<IdevidEvent>,
    secure_boot: bool,
    max_tbs: usize,
) -> IdevidState
    decreases events.len(),
{
    if events.len() == 0 {
        state
    } else {
        idevid_run(idevid_step(state, events[0], secure_boot, max_tbs), events.skip(1), secure_boot, max_tbs)
    }
}

/// The TBS size a state works on, if it works on one.
pub open spec fn tbs_size_in(state: IdevidState) -> Option<usize> {
    match state {
        IdevidState::ReadTbs { size } => Some(size),
        IdevidState::ReadSignature { size } => Some(size),
        IdevidState::BuildCertificate { size } => Some(size),
        _ => None,
    }
}

proof fn lemma_tbs_size_traced(
    state: IdevidState,
    events: Seq<IdevidEvent>,
    secure_boot: bool,
    max_tbs: usize,
    size: usize,
)
    requires
        tbs_size_in(idevid_run(state, events, secure_boot, max_tbs)) == Some(size),
    ensures
        tbs_size_in(state) == Some(size) || exists|i: int, w: u32|
            0 <= i < events.len() && events[i] == IdevidEvent::Length(Some(w)) && size
                == tbs_size_of(w) && size <= max_tbs,
    decreases events.len(),
{
    if events.len() > 0 {
        let e = events[0];
        let rest = events.skip(1);
        let next = idevid_step(state, e, secure_boot, max_tbs);
        lemma_tbs_size_traced(next, rest, secure_boot, max_tbs, size);
        if tbs_size_in(next) == Some(size) {
            if tbs_size_in(state) != Some(size) {
                if let IdevidEvent::Length(Some(w)) = e {
                    assert(events[0] == IdevidEvent::Length(Some(w)));
                }
            }
        } else {
            let (i, w) = choose|i: int, w: u32|
                0 <= i < rest.len() && rest[i] == IdevidEvent::Length(Some(w)) && size
                    == tbs_size_of(w) && size <= max_tbs;
            assert(events[i + 1] == rest[i]);
        }
    }
}

/// The TBS that is read and the one the certificate is built from have the
/// size the OTP length word gives: whenever provisioning, started afresh,
/// is reading the TBS or the signature or building the certificate for
/// `size` bytes, some length word `w` was read with `size` equal to its
/// big-endian value plus the four header bytes, and within the TBS buffer.
pub proof fn lemma_certificate_covers_whole_tbs(
    events: Seq<IdevidEvent>,
    secure_boot: bool,
    max_tbs: usize,
)
    ensures
        tbs_size_in(idevid_run(IdevidState::CheckReady, events, secure_boot, max_tbs)) matches Some(
            size,
        ) ==> exists|i: int, w: u32|
            0 <= i < events.len() && events[i] == IdevidEvent::Length(Some(w)) && size == (
            (w & 0xff) * 0x100_0000 + ((w >> 8u32) & 0xff) * 0x1_0000 + ((w >> 16u32) & 0xff)
                * 0x100 + ((w >> 24u32) & 0xff)) + 4 && size <= max_tbs,
{
    if let Some(size) = tbs_size_in(idevid_run(IdevidState::CheckReady, events, secure_boot, max_tbs)) {
        lemma_tbs_size_traced(IdevidState::CheckReady, events, secure_boot, max_tbs, size);
        let (i, w) = choose|i: int, w: u32|
            0 <= i < events.len() && events[i] == IdevidEvent::Length(Some(w)) && size
                == tbs_size_of(w) && size <= max_tbs;
        lemma_swap_bytes_value(w);
    }
}

/// The byte swap of `w`, as a number: its least significant byte becomes the
/// most significant.
proof fn lemma_swap_bytes_value(w: u32)
    ensures
        spec_swap_bytes(w) == (w & 0xff) * 0x100_0000 + ((w >> 8u32) & 0xff) * 0x1_0000 + ((w
            >> 16u32) & 0xff) * 0x100 + ((w >> 24u32) & 0xff),
{
    assert(spec_swap_bytes(w) == (w & 0xff) * 0x100_0000 + ((w >> 8u32) & 0xff) * 0x1_0000 + ((w
        >> 16u32) & 0xff) * 0x100 + ((w >> 24u32) & 0xff)) by (bit_vector);
}

// ── CA35 boot header ─────────────────────────────────────────────────────────

/// BootMCU-space address at which raw payload byte 0 of the CA35 image lands.
pub const A35_LOAD_ADDR: u64 = 0x83FF_FF60;

/// Load-placement compensation: `A35_LOAD_ADDR + A35_LOAD_FUDGE` is the
/// BootMCU-space address of the A35 binary's link text base.
pub const A35_LOAD_FUDGE: u64 = 0xA0;

/// BootMCU-space address at which the A2 CA35 payload lands.
pub const A2_CA35_LOAD_ADDR: u64 = 0x83FF_FF60;

/// Length of the CA35 boot header prefixed to the SoC image: magic,
/// entry offset, payload length and check word.
pub const A2_HDR_LEN: u32 = 16;

/// The 16-byte CA35 boot header written by the image tools.
#[derive(Debug, Clone, Copy, PartialEq, Eq, Structural)]
pub struct A35BootHeader {
    pub magic: u32,
    pub entry_off: u32,
    pub payload_len: u32,
    pub check: u32,
}

/// The header carries the expected magic and its check word is the XOR of
/// the other three words.
pub open spec fn header_valid(h: A35BootHeader, expected_magic: u32) -> bool {
    h.magic == expected_magic && h.check == h.magic ^ h.entry_off ^ h.payload_len
}

/// Whether the CA35 boot header is intact.
pub fn a35_header_valid(h: &A35BootHeader, expected_magic: u32) -> (b: bool)
    ensures
        b == header_valid(*h, expected_magic),
{
    h.magic == expected_magic && h.check == (h.magic ^ h.entry_off ^ h.payload_len)
}

/// The absolute BootMCU-space entry address of the raw-header (A1) CA35
/// payload, or `None` when the header is invalid (the firmware then halts
/// rather than jumping to a guessed offset).
pub fn a35_entry_addr(h: &A35BootHeader, expected_magic: u32) -> (r: Option<u64>)
    ensures
        r == (if header_valid(*h, expected_magic) {
            Some((A35_LOAD_ADDR + A35_LOAD_FUDGE + h.entry_off) as u64)
        } else {
            None
        }),
{
    if !a35_header_valid(h, expected_magic) {
        return None;
    }
    Some(A35_LOAD_ADDR + A35_LOAD_FUDGE + h.entry_off as u64)
}

/// Where to load the A2 (FLSH container) CA35 payload: its entry address and
/// the number of payload bytes after the header, or `None` when the header is
/// invalid.
pub fn a2_ca35_placement(h: &A35BootHeader, expected_magic: u32, image_size: u32) -> (r: Option<
    (u64, u32),
>)
    requires
        header_valid(*h, expected_magic) ==> image_size >= A2_HDR_LEN,
    ensures
        r == (if header_valid(*h, expected_magic) {
            Some(((A2_CA35_LOAD_ADDR + h.entry_off) as u64, (image_size - A2_HDR_LEN) as u32))
        } else {
            None
        }),
{
    if !a35_header_valid(h, expected_magic) {
        return None;
    }
    Some((A2_CA35_LOAD_ADDR + h.entry_off as u64, image_size - A2_HDR_LEN))
}

// ── Payload check ────────────────────────────────────────────────────────────

/// A copied payload is accepted when its first four words match the flash
/// source, its last four words match too when it is at least 16 bytes long,
/// and the source head is not blank (some word neither 0 nor all-ones).
pub open spec fn payload_ok(
    src_head: Seq<u32>,
    dst_head: Seq<u32>,
    len: usize,
    src_tail: Seq<u32>,
    dst_tail: Seq<u32>,
) -> bool {
    &&& forall|i: int| 0 <= i < 4 ==> src_head[i] == dst_head[i]
    &&& len >= 16 ==> forall|i: int| 0 <= i < 4 ==> src_tail[i] == dst_tail[i]
    &&& exists|i: int| 0 <= i < 4 && src_head[i] != 0 && src_head[i] != 0xFFFF_FFFF
}

/// Compare the head (and, for payloads of 16 bytes or more, the tail) words of
/// a copied payload with its flash source.
pub fn verify_payload(
    src_head: &[u32; 4],
    dst_head: &[u32; 4],
    len: usize,
    src_tail: &[u32; 4],
    dst_tail: &[u32; 4],
) -> (ok: bool)
    ensures
        ok == payload_ok(src_head@, dst_head@, len, src_tail@, dst_tail@),
{
    let mut ok = true;
    let mut non_blank = false;
    let mut i: usize = 0;
    while i < 4
        invariant
            i <= 4,
            ok == (forall|k: int| 0 <= k < i ==> src_head@[k] == dst_head@[k]),
            non_blank == (exists|k: int|
                0 <= k < i && src_head@[k] != 0 && src_head@[k] != 0xFFFF_FFFF),
        decreases 4 - i,
    {
        let s = src_head[i];
        let d = dst_head[i];
        ok = ok && s == d;
        non_blank = non_blank || (s != 0 && s != 0xFFFF_FFFF);
        proof {
            if !non_blank {
                assert forall|k: int| 0 <= k < i + 1 implies !(src_head@[k] != 0 && src_head@[k]
                    != 0xFFFF_FFFF) by {}
            }
        }
        i += 1;
    }
    if len >= 16 {
        let mut i: usize = 0;
        let head_ok = ok;
        while i < 4
            invariant
                i <= 4,
                ok == (head_ok && forall|k: int| 0 <= k < i ==> src_tail@[k] == dst_tail@[k]),
            decreases 4 - i,
        {
            ok = ok && src_tail[i] == dst_tail[i];
            i += 1;
        }
    }
    ok && non_blank
}

// ── Caliptra entropy ─────────────────────────────────────────────────────────

/// One step of the xorshift32 generator.
pub open spec fn xorshift32(x: u32) -> u32 {
    let a = x ^ (x << 13u32);
    let b = a ^ (a >> 17u32);
    b ^ (b << 5u32)
}

/// `n` steps of xorshift32 from `x`.
pub open spec fn xorshift_iter(x: u32, n: nat) -> u32
    decreases n,
{
    if n == 0 {
        x
    } else {
        xorshift32(xorshift_iter(x, (n - 1) as nat))
    }
}

/// Twelve TRNG words for Caliptra: the xorshift32 sequence continuing from
/// `seed`, each word mixed with a raw timer sample; `seed` advances by twelve
/// steps.
pub fn entropy(seed: &mut u32, samples: &[u32; 12]) -> (out: [u32; 12])
    ensures
        *final(seed) == xorshift_iter(*old(seed), 12),
        forall|i: int| 0 <= i < 12 ==> out@[i] == xorshift_iter(*old(seed), (i + 1) as nat) ^ samples@[i],
{
    let mut out = [0u32; 12];
    let mut i: usize = 0;
    while i < 12
        invariant
            i <= 12,
            out@.len() == 12,
            *seed == xorshift_iter(*old(seed), i as nat),
            forall|k: int| 0 <= k < i ==> out@[k] == xorshift_iter(*old(seed), (k + 1) as nat)
                ^ samples@[k],
        decreases 12 - i,
    {
        *seed = *seed ^ (*seed << 13u32);
        *seed = *seed ^ (*seed >> 17u32);
        *seed = *seed ^ (*seed << 5u32);
        out[i] = *seed ^ samples[i];
        i += 1;
    }
    out
}

/// `x` rotated left by `r` bits (modulo 32).
pub open spec fn rotl(x: u32, r: u32) -> u32 {
    if r % 32 == 0 {
        x
    } else {
        (x << (r % 32)) | (x >> (32 - r % 32) as u32)
    }
}

fn rotate_left(x: u32, r: u32) -> (v: u32)
    ensures
        v == rotl(x, r),
{
    let k = r % 32;
    if k == 0 {
        x
    } else {
        (x << k) | (x >> (32 - k))
    }
}

/// Word `i` of the timer entropy: the counter sample rotated left by `5·i`
/// bits, mixed with `i` times the golden-ratio constant (wrapping).
pub open spec fn timer_entropy_word(sample: u32, i: int) -> u32 {
    rotl(sample, (5 * i) as u32) ^ ((i * 0x9e37_79b9) % 0x1_0000_0000) as u32
}

/// Cheap entropy for Caliptra's TRNG from twelve samples of the free-running
/// 1 MHz timer counter, varied per word by rotation and an odd constant.
pub fn timer_entropy(samples: &[u32; 12]) -> (e: [u32; 12])
    ensures
        forall|i: int| 0 <= i < 12 ==> e@[i] == timer_entropy_word(samples@[i], i),
{
    let mut e = [0u32; 12];
    let mut i: u32 = 0;
    while i < 12
        invariant
            i <= 12,
            e@.len() == 12,
            forall|k: int| 0 <= k < i ==> e@[k] == timer_entropy_word(samples@[k], k),
        decreases 12 - i,
    {
        let raw = samples[i as usize];
        let mix = i.wrapping_mul(0x9e37_79b9);
        e[i as usize] = rotate_left(raw, i * 5) ^ mix;
        i += 1;
    }
    e
}

// ── Clock and IPC register values ────────────────────────────────────────────

/// The MAC/RGMII/RMII divider fields of SCU1 `clk_sel1`: bits 31:29, 27:25
/// and 23:21.
pub const MAC_CLK_MASK: u32 = 0xEEE0_0000;

/// MAC 200 MHz (HPLL/5, index 4), RGMII 125 MHz (HPLL/8, index 3), RMII
/// 50 MHz (HPLL/20, index 4).
pub const MAC_CLK_DIVIDERS: u32 = 0x8680_0000;

/// The SCU1 `clk_sel1` value with the MAC, RGMII and RMII source-clock
/// dividers programmed and every other bit kept.
pub fn mac_rgmii_clk_sel(cur: u32) -> (v: u32)
    ensures
        v == (cur & !MAC_CLK_MASK) | MAC_CLK_DIVIDERS,
        (v >> 29u32) & 7 == 4,
        (v >> 25u32) & 7 == 3,
        (v >> 21u32) & 7 == 4,
        v & !MAC_CLK_MASK == cur & !MAC_CLK_MASK,
{
    let v = (cur & !MAC_CLK_MASK) | MAC_CLK_DIVIDERS;
    assert((v >> 29u32) & 7 == 4 && (v >> 25u32) & 7 == 3 && (v >> 21u32) & 7 == 4 && v
        & !0xEEE0_0000u32 == cur & !0xEEE0_0000u32) by (bit_vector)
        requires
            v == (cur & !0xEEE0_0000u32) | 0x8680_0000u32,
    ;
    v
}

/// Byte `k` (0 = least significant) of `v`.
pub open spec fn le_byte(v: u32, k: u32) -> u8 {
    ((v >> (8 * k)) & 0xff) as u8
}

/// Store `value` little-endian into 32-bit word `index` of a mailbox payload.
pub fn put_word(payload: &mut [u8; 32], index: usize, value: u32)
    requires
        index < 8,
    ensures
        forall|k: int|
            0 <= k < 32 ==> final(payload)@[k] == (if 4 * index <= k < 4 * index + 4 {
                le_byte(value, (k - 4 * index) as u32)
            } else {
                old(payload)@[k]
            }),
{
    payload[index * 4] = (value & 0xff) as u8;
    payload[index * 4 + 1] = ((value >> 8u32) & 0xff) as u8;
    payload[index * 4 + 2] = ((value >> 16u32) & 0xff) as u8;
    payload[index * 4 + 3] = ((value >> 24u32) & 0xff) as u8;
    assert(value >> 0u32 == value) by (bit_vector);
}

/// The ASCII bytes of `"BMCU"`.
pub open spec fn bmcu_magic() -> Seq<u8> {
    seq![66u8, 77u8, 67u8, 85u8]
}

/// The status response to a CA35 IPC request: `"BMCU"`, the Caliptra flow and
/// boot status words, the CA35 reset vector, the first four request bytes,
/// and zeros.
pub fn build_status_response(flow_status: u32, boot_status: u32, rvbar: u32, request: &[u8; 32]) -> (r:
    [u8; 32])
    ensures
        forall|k: int| 0 <= k < 4 ==> r@[k] == bmcu_magic()[k],
        forall|k: int| 4 <= k < 8 ==> r@[k] == le_byte(flow_status, (k - 4) as u32),
        forall|k: int| 8 <= k < 12 ==> r@[k] == le_byte(boot_status, (k - 8) as u32),
        forall|k: int| 12 <= k < 16 ==> r@[k] == le_byte(rvbar, (k - 12) as u32),
        forall|k: int| 16 <= k < 20 ==> r@[k] == request@[k - 16],
        forall|k: int| 20 <= k < 32 ==> r@[k] == 0,
{
    let mut response = [0u8; 32];
    response[0] = 66u8;
    response[1] = 77u8;
    response[2] = 67u8;
    response[3] = 85u8;
    put_word(&mut response, 1, flow_status);
    put_word(&mut response, 2, boot_status);
    put_word(&mut response, 3, rvbar);
    response[16] = request[0];
    response[17] = request[1];
    response[18] = request[2];
    response[19] = request[3];
    response
}

} // verus!
