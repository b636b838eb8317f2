//! Protobuf codec for the inter-core IPC envelope.
//!
//! Mirrors `schema/v1/ipc.proto` (`IpcEnvelope` and its `oneof`) for cores
//! that cannot run a full protobuf runtime. The encoding is standard proto3
//! wire format, so it interoperates byte-for-byte with the other cores that
//! share the same `.proto`.
//!
//! No allocation: encode/decode operate on caller-provided buffers. Only the
//! small scalar message set the BootMCU needs is implemented; unknown fields
//! are skipped on decode so the schema can grow without breaking it.
//!
//! Field numbers (must match `ipc.proto`):
//! - `IpcEnvelope`: 1 `seq`, 2 `ping`, 3 `pong`, 4 `get_rot_status`, 5 `rot_status`
//! - `Ping`/`Pong`: 1 `nonce`
//! - `RotStatus`: 1 `silicon_rev`, 2 `caliptra_flow_status`,
//!   3 `caliptra_boot_status`, 4 `secure_boot_enabled`, 5 `caliptra_rt_ready`
use vstd::prelude::*;

verus! {

/// Largest encoded envelope that fits one 32-byte mailbox slot after the 1-byte
/// length prefix the transport prepends.
pub const MAX_ENVELOPE_LEN: usize = 31;

// Protobuf wire types.
const WT_VARINT: u8 = 0;
const WT_I64: u8 = 1;
const WT_LEN: u8 = 2;
const WT_I32: u8 = 5;


/// Decoded `RotStatus` (see `ipc.proto`).
#[derive(Debug, Clone, Copy, PartialEq, Eq, Structural)]
pub struct RotStatus {
    pub silicon_rev: u32,
    pub caliptra_flow_status: u32,
    pub caliptra_boot_status: u32,
    pub secure_boot_enabled: bool,
    pub caliptra_rt_ready: bool,
}

/// The all-default `RotStatus`: every counter zero, every flag false.
pub open spec fn default_rot_status() -> RotStatus {
    RotStatus {
        silicon_rev: 0,
        caliptra_flow_status: 0,
        caliptra_boot_status: 0,
        secure_boot_enabled: false,
        caliptra_rt_ready: false,
    }
}

impl Default for RotStatus {
    fn default() -> (rs: Self)
        ensures
            rs == default_rot_status(),
    {
        RotStatus {
            silicon_rev: 0,
            caliptra_flow_status: 0,
            caliptra_boot_status: 0,
            secure_boot_enabled: false,
            caliptra_rt_ready: false,
        }
    }
}

/// The `IpcEnvelope.payload` oneof.
#[derive(Debug, Clone, Copy, PartialEq, Eq, Structural)]
pub enum Payload {
    /// No oneof case set.
    Unset,
    Ping(u32),
    Pong(u32),
    GetRotStatus,
    RotStatus(RotStatus),
}

/// A decoded/encodable `IpcEnvelope`.
#[derive(Debug, Clone, Copy, PartialEq, Eq, Structural)]
pub struct Envelope {
    pub seq: u32,
    pub payload: Payload,
}

impl Envelope {
    pub fn new(seq: u32, payload: Payload) -> (env: Self)
        ensures
            env == (Envelope { seq, payload }),
    {
        Envelope { seq, payload }
    }
}

/// The payload of one wire field.
pub enum FieldBody {
    /// A varint value (wire type 0).
    Varint(u64),
    /// A length-delimited body (wire type 2).
    Bytes(Seq<u8>),
    /// A skipped fixed-width value (wire types 1 and 5).
    Fixed,
}

// ── Wire-format model ───────────────────────────────────────────────────────

/// `128^k`.
pub open spec fn pow128(k: nat) -> nat
    decreases k,
{
    if k == 0 {
        1
    } else {
        128 * pow128((k - 1) as nat)
    }
}

/// `2^64`, the modulus of a decoded varint.
pub open spec fn two_pow_64() -> nat {
    0x1_0000_0000_0000_0000
}

/// Little-endian base-128 value of the low seven bits of each byte of `s`.
pub open spec fn digits(s: Seq<u8>) -> nat
    decreases s.len(),
{
    if s.len() == 0 {
        0
    } else {
        digits(s.drop_last()) + (s.last() % 128) as nat * pow128((s.len() - 1) as nat)
    }
}

/// The base-128 varint encoding of `v`: seven bits per byte, least
/// significant group first, high bit set on every byte but the last.
pub open spec fn varint_bytes(v: nat) -> Seq<u8>
    decreases v,
{
    if v < 128 {
        seq![v as u8]
    } else {
        seq![(v % 128 + 128) as u8] + varint_bytes(v / 128)
    }
}

/// Position (plus one) of the first byte below `0x80` at or after index `i`,
/// looking no further than the first ten bytes of `s`.
pub open spec fn first_terminator(s: Seq<u8>, i: nat) -> Option<nat>
    decreases 10 - i,
{
    if i >= 10 || i >= s.len() {
        None
    } else if s[i as int] < 128 {
        Some(i + 1)
    } else {
        first_terminator(s, i + 1)
    }
}

/// The varint at the front of `s` and the number of bytes it occupies: the
/// bytes up to and including the first byte below `0x80`, which must be among
/// the first ten; its value is reduced modulo `2^64`.
pub open spec fn parse_varint(s: Seq<u8>) -> Option<(u64, nat)> {
    match first_terminator(s, 0) {
        Some(n) => Some(((digits(s.take(n as int)) % two_pow_64()) as u64, n)),
        None => None,
    }
}

/// A field key: field number and wire type.
pub open spec fn tag_bytes(field: nat, wire: nat) -> Seq<u8> {
    varint_bytes(field * 8 + wire)
}

/// A proto3 `uint32` field, omitted when zero.
pub open spec fn u32_field(field: nat, v: u32) -> Seq<u8> {
    if v == 0 {
        seq![]
    } else {
        tag_bytes(field, 0) + varint_bytes(v as nat)
    }
}

/// A proto3 `bool` field, omitted when false.
pub open spec fn bool_field(field: nat, b: bool) -> Seq<u8> {
    if !b {
        seq![]
    } else {
        tag_bytes(field, 0) + varint_bytes(1)
    }
}

/// A length-delimited field: key, body length, body.
pub open spec fn len_field(field: nat, body: Seq<u8>) -> Seq<u8> {
    tag_bytes(field, 2) + varint_bytes(body.len()) + body
}

/// Body of a message with a single `nonce` (field 1) — Ping and Pong.
pub open spec fn nonce_body(nonce: u32) -> Seq<u8> {
    u32_field(1, nonce)
}

/// Body of a `RotStatus` message; default-valued fields are omitted.
pub open spec fn rot_status_body(rs: RotStatus) -> Seq<u8> {
    u32_field(1, rs.silicon_rev) + u32_field(2, rs.caliptra_flow_status) + u32_field(
        3,
        rs.caliptra_boot_status,
    ) + bool_field(4, rs.secure_boot_enabled) + bool_field(5, rs.caliptra_rt_ready)
}

/// The `payload` oneof: nothing when unset, else one length-delimited field.
pub open spec fn payload_bytes(p: Payload) -> Seq<u8> {
    match p {
        Payload::Unset => seq![],
        Payload::Ping(n) => len_field(2, nonce_body(n)),
        Payload::Pong(n) => len_field(3, nonce_body(n)),
        Payload::GetRotStatus => len_field(4, seq![]),
        Payload::RotStatus(rs) => len_field(5, rot_status_body(rs)),
    }
}

/// The proto3 wire encoding of an envelope: `seq` (omitted when zero), then
/// the payload case.
pub open spec fn envelope_bytes(env: Envelope) -> Seq<u8> {
    u32_field(1, env.seq) + payload_bytes(env.payload)
}

/// The payload of a field of wire type `wire` at the front of `s`, and the
/// number of bytes it occupies. Wire types other than varint, 64-bit,
/// length-delimited and 32-bit are rejected, as is a body that runs past the
/// end of `s`.
pub open spec fn parse_body(wire: u8, s: Seq<u8>) -> Option<(FieldBody, nat)> {
    if wire == 0 {
        match parse_varint(s) {
            Some((v, n)) => Some((FieldBody::Varint(v), n)),
            None => None,
        }
    } else if wire == 1 {
        if 8 <= s.len() {
            Some((FieldBody::Fixed, 8))
        } else {
            None
        }
    } else if wire == 2 {
        match parse_varint(s) {
            Some((len, n)) => if n + len <= s.len() {
                Some((FieldBody::Bytes(s.subrange(n as int, n + len)), (n + len) as nat))
            } else {
                None
            },
            None => None,
        }
    } else if wire == 5 {
        if 4 <= s.len() {
            Some((FieldBody::Fixed, 4))
        } else {
            None
        }
    } else {
        None
    }
}

/// One field at the front of `s`: its field number (the key's field bits),
/// its wire type, its payload and its total length.
pub open spec fn parse_field(s: Seq<u8>) -> Option<(u64, u8, FieldBody, nat)> {
    match parse_varint(s) {
        None => None,
        Some((tag, n)) => match parse_body((tag % 8) as u8, s.skip(n as int)) {
            None => None,
            Some((body, m)) => Some(((tag / 8) as u64, (tag % 8) as u8, body, n + m)),
        },
    }
}

/// Decode the fields of `s` in order, folding each into `acc` with `apply`;
/// `None` as soon as a field is malformed or `apply` rejects it.
pub open spec fn decode_fields<T>(
    s: Seq<u8>,
    acc: T,
    apply: spec_fn(T, u64, u8, FieldBody) -> Option<T>,
) -> Option<T>
    decreases s.len(),
{
    if s.len() == 0 {
        Some(acc)
    } else {
        match parse_field(s) {
            None => None,
            Some((field, wire, body, n)) => if 0 < n <= s.len() {
                match apply(acc, field, wire, body) {
                    None => None,
                    Some(next) => decode_fields(s.skip(n as int), next, apply),
                }
            } else {
                None
            },
        }
    }
}

/// A `nonce` field (1, varint) sets the nonce; every other field is skipped.
pub open spec fn apply_nonce_field(nonce: u32, field: u64, wire: u8, body: FieldBody) -> Option<u32> {
    match body {
        FieldBody::Varint(v) => if field == 1 && wire == 0 {
            Some(v as u32)
        } else {
            Some(nonce)
        },
        _ => Some(nonce),
    }
}

pub open spec fn nonce_fields() -> spec_fn(u32, u64, u8, FieldBody) -> Option<u32> {
    |n: u32, f: u64, w: u8, b: FieldBody| apply_nonce_field(n, f, w, b)
}

/// The nonce of a Ping/Pong body: the last `nonce` field, 0 when absent.
pub open spec fn spec_decode_nonce(s: Seq<u8>) -> Option<u32> {
    decode_fields(s, 0u32, nonce_fields())
}

/// The varint fields 1–5 of a `RotStatus` body set the matching member (the
/// flags are true for any non-zero value); every other field is skipped.
pub open spec fn apply_rot_status_field(
    rs: RotStatus,
    field: u64,
    wire: u8,
    body: FieldBody,
) -> Option<RotStatus> {
    match body {
        FieldBody::Varint(v) => if wire != 0 {
            Some(rs)
        } else if field == 1 {
            Some(
                RotStatus {
                    silicon_rev: v as u32,
                    caliptra_flow_status: rs.caliptra_flow_status,
                    caliptra_boot_status: rs.caliptra_boot_status,
                    secure_boot_enabled: rs.secure_boot_enabled,
                    caliptra_rt_ready: rs.caliptra_rt_ready,
                },
            )
        } else if field == 2 {
            Some(
                RotStatus {
                    silicon_rev: rs.silicon_rev,
                    caliptra_flow_status: v as u32,
                    caliptra_boot_status: rs.caliptra_boot_status,
                    secure_boot_enabled: rs.secure_boot_enabled,
                    caliptra_rt_ready: rs.caliptra_rt_ready,
                },
            )
        } else if field == 3 {
            Some(
                RotStatus {
                    silicon_rev: rs.silicon_rev,
                    caliptra_flow_status: rs.caliptra_flow_status,
                    caliptra_boot_status: v as u32,
                    secure_boot_enabled: rs.secure_boot_enabled,
                    caliptra_rt_ready: rs.caliptra_rt_ready,
                },
            )
        } else if field == 4 {
            Some(
                RotStatus {
                    silicon_rev: rs.silicon_rev,
                    caliptra_flow_status: rs.caliptra_flow_status,
                    caliptra_boot_status: rs.caliptra_boot_status,
                    secure_boot_enabled: v != 0,
                    caliptra_rt_ready: rs.caliptra_rt_ready,
                },
            )
        } else if field == 5 {
            Some(
                RotStatus {
                    silicon_rev: rs.silicon_rev,
                    caliptra_flow_status: rs.caliptra_flow_status,
                    caliptra_boot_status: rs.caliptra_boot_status,
                    secure_boot_enabled: rs.secure_boot_enabled,
                    caliptra_rt_ready: v != 0,
                },
            )
        } else {
            Some(rs)
        },
        _ => Some(rs),
    }
}

pub open spec fn rot_status_fields() -> spec_fn(RotStatus, u64, u8, FieldBody) -> Option<RotStatus> {
    |r: RotStatus, f: u64, w: u8, b: FieldBody| apply_rot_status_field(r, f, w, b)
}

/// A `RotStatus` body, starting from the all-default status.
pub open spec fn spec_decode_rot_status(s: Seq<u8>) -> Option<RotStatus> {
    decode_fields(s, default_rot_status(), rot_status_fields())
}

/// Envelope fields: `seq` (1, varint) sets the sequence number; a
/// length-delimited field 2–5 sets the payload case, whose body must decode;
/// every other field is skipped. The last payload case present wins.
pub open spec fn apply_envelope_field(
    env: Envelope,
    field: u64,
    wire: u8,
    body: FieldBody,
) -> Option<Envelope> {
    match body {
        FieldBody::Varint(v) => if field == 1 && wire == 0 {
            Some(Envelope { seq: v as u32, payload: env.payload })
        } else {
            Some(env)
        },
        FieldBody::Bytes(b) => if wire != 2 {
            Some(env)
        } else if field == 2 {
            match spec_decode_nonce(b) {
                Some(n) => Some(Envelope { seq: env.seq, payload: Payload::Ping(n) }),
                None => None,
            }
        } else if field == 3 {
            match spec_decode_nonce(b) {
                Some(n) => Some(Envelope { seq: env.seq, payload: Payload::Pong(n) }),
                None => None,
            }
        } else if field == 4 {
            Some(Envelope { seq: env.seq, payload: Payload::GetRotStatus })
        } else if field == 5 {
            match spec_decode_rot_status(b) {
                Some(rs) => Some(Envelope { seq: env.seq, payload: Payload::RotStatus(rs) }),
                None => None,
            }
        } else {
            Some(env)
        },
        FieldBody::Fixed => Some(env),
    }
}

pub open spec fn envelope_fields() -> spec_fn(Envelope, u64, u8, FieldBody) -> Option<Envelope> {
    |e: Envelope, f: u64, w: u8, b: FieldBody| apply_envelope_field(e, f, w, b)
}

/// The envelope that `s` decodes to, starting from `seq` 0 and no payload.
pub open spec fn spec_decode(s: Seq<u8>) -> Option<Envelope> {
    decode_fields(s, Envelope { seq: 0, payload: Payload::Unset }, envelope_fields())
}

/// `buf2` is `buf1` with `bytes` written at `pos1`, ending at `pos2`.
pub open spec fn wrote(buf1: Seq<u8>, buf2: Seq<u8>, pos1: nat, pos2: nat, bytes: Seq<u8>) -> bool {
    &&& buf2.len() == buf1.len()
    &&& pos2 == pos1 + bytes.len()
    &&& pos2 <= buf1.len()
    &&& buf2.take(pos2 as int) == buf1.take(pos1 as int) + bytes
    &&& buf2.skip(pos2 as int) == buf1.skip(pos2 as int)
}

/// `buf` with `bytes` written from `pos` on, as far as `buf` reaches.
pub open spec fn overwrite(buf: Seq<u8>, pos: int, bytes: Seq<u8>) -> Seq<u8> {
    Seq::new(buf.len(), |i: int| if pos <= i < pos + bytes.len() { bytes[i - pos] } else { buf[i] })
}

/// The number of bytes a writer at `pos` gets out of `bytes` before `buf`
/// ends.
pub open spec fn room_for(buf: Seq<u8>, pos: int, bytes: Seq<u8>) -> int {
    if bytes.len() <= buf.len() - pos {
        bytes.len() as int
    } else {
        buf.len() - pos
    }
}

/// The bytes of a length-delimited field that precede its body: the key and
/// the body length.
pub open spec fn len_key(field: nat, body_len: nat) -> Seq<u8> {
    tag_bytes(field, 2) + varint_bytes(body_len)
}

/// The key and length of the payload field, or nothing when no payload case
/// is set.
pub open spec fn payload_key(p: Payload) -> Seq<u8> {
    match p {
        Payload::Unset => seq![],
        Payload::Ping(n) => len_key(2, nonce_body(n).len()),
        Payload::Pong(n) => len_key(3, nonce_body(n).len()),
        Payload::GetRotStatus => len_key(4, 0),
        Payload::RotStatus(rs) => len_key(5, rot_status_body(rs).len()),
    }
}

/// How many bytes of an envelope's encoding come before the body of its
/// payload: the `seq` field and the payload's key and length.
pub open spec fn envelope_head_len(env: Envelope) -> nat {
    u32_field(1, env.seq).len() + payload_key(env.payload).len()
}

proof fn lemma_overwrite_parts(orig: Seq<u8>, buf: Seq<u8>, start: int, end: int, bytes: Seq<u8>)
    requires
        buf.len() == orig.len(),
        0 <= start <= end <= buf.len(),
        bytes.len() == end - start,
        buf.take(end) == orig.take(start) + bytes,
        buf.skip(end) == orig.skip(end),
    ensures
        buf == overwrite(orig, start, bytes),
{
    assert forall|i: int| 0 <= i < buf.len() implies buf[i] == overwrite(orig, start, bytes)[i] by {
        if i < end {
            assert(buf.take(end)[i] == buf[i]);
        } else {
            assert(buf.skip(end)[i - end] == buf[i]);
            assert(orig.skip(end)[i - end] == orig[i]);
        }
    }
    assert(buf =~= overwrite(orig, start, bytes));
}

proof fn lemma_wrote_overwrite(b1: Seq<u8>, b2: Seq<u8>, p1: nat, p2: nat, bytes: Seq<u8>)
    requires
        wrote(b1, b2, p1, p2, bytes),
    ensures
        b2 == overwrite(b1, p1 as int, bytes),
{
    lemma_overwrite_parts(b1, b2, p1 as int, p2 as int, bytes);
}

/// Writing `m` bytes of `c` right after a complete write of `a` is writing
/// the first `a.len() + m` bytes of `a + c`.
proof fn lemma_overwrite_after(
    b0: Seq<u8>,
    b1: Seq<u8>,
    b2: Seq<u8>,
    p0: nat,
    p1: nat,
    a: Seq<u8>,
    c: Seq<u8>,
    m: int,
)
    requires
        wrote(b0, b1, p0, p1, a),
        0 <= m <= c.len(),
        b2 == overwrite(b1, p1 as int, c.take(m)),
    ensures
        b2 == overwrite(b0, p0 as int, (a + c).take(a.len() + m)),
{
    lemma_wrote_overwrite(b0, b1, p0, p1, a);
    assert(b2 =~= overwrite(b0, p0 as int, (a + c).take(a.len() + m)));
}

/// The first `m` bytes of `bytes` are the first `m` bytes of anything that
/// starts with `bytes`.
proof fn lemma_overwrite_extend(
    b1: Seq<u8>,
    b2: Seq<u8>,
    pos: int,
    bytes: Seq<u8>,
    more: Seq<u8>,
    m: int,
)
    requires
        0 <= m <= bytes.len(),
        b2 == overwrite(b1, pos, bytes.take(m)),
    ensures
        b2 == overwrite(b1, pos, (bytes + more).take(m)),
{
    assert(bytes.take(m) =~= (bytes + more).take(m));
}

// ── Varint lemmas ───────────────────────────────────────────────────────────

proof fn lemma_pow128_facts(k: nat)
    ensures
        pow128(k) >= 1,
        k <= 10 ==> pow128(k) <= pow128(10),
        pow128(9) == 0x8000_0000_0000_0000,
        pow128(10) == 0x40_0000_0000_0000_0000,
        pow128(5) == 0x8_0000_0000,
        pow128(1) == 128,
    decreases k,
{
    reveal_with_fuel(pow128, 11);
    if k > 0 {
        lemma_pow128_facts((k - 1) as nat);
    }
    if k <= 10 && k < 10 {
        lemma_pow128_mono(k, 10);
    }
}

proof fn lemma_pow128_mono(a: nat, b: nat)
    requires
        a <= b,
    ensures
        pow128(a) <= pow128(b),
    decreases b - a,
{
    if a < b {
        lemma_pow128_mono(a, (b - 1) as nat);
        assert(pow128((b - 1) as nat) >= 0);
    }
}

proof fn lemma_digits_bound(s: Seq<u8>)
    ensures
        digits(s) < pow128(s.len()),
    decreases s.len(),
{
    if s.len() > 0 {
        let n = (s.len() - 1) as nat;
        lemma_digits_bound(s.drop_last());
        let d = digits(s.drop_last());
        let x = (s.last() % 128) as nat;
        let p = pow128(n);
        assert(d + x * p < 128 * p) by (nonlinear_arith)
            requires
                d < p,
                x <= 127,
        ;
    }
}

proof fn lemma_digits_prepend(b: u8, t: Seq<u8>)
    ensures
        digits(seq![b] + t) == (b % 128) as nat + 128 * digits(t),
    decreases t.len(),
{
    let u = seq![b] + t;
    if t.len() == 0 {
        assert(u.drop_last() =~= Seq::<u8>::empty());
        assert(u.last() == b);
        assert(digits(Seq::<u8>::empty()) == 0);
        assert(digits(t) == 0);
        assert(pow128(0) == 1);
        assert(digits(u) == digits(u.drop_last()) + (b % 128) as nat * pow128(0));
    } else {
        assert(u.drop_last() =~= seq![b] + t.drop_last());
        assert(u.last() == t.last());
        lemma_digits_prepend(b, t.drop_last());
        let x = (t.last() % 128) as nat;
        let n = (t.len() - 1) as nat;
        assert(pow128(t.len()) == 128 * pow128(n));
        let dt = digits(t.drop_last());
        assert(digits(t) == dt + x * pow128(n));
        assert(digits(u) == digits(u.drop_last()) + x * pow128(t.len()));
        assert(digits(u.drop_last()) == (b % 128) as nat + 128 * dt);
        assert((b % 128) as nat + 128 * dt + x * (128 * pow128(n)) == (b % 128) as nat + 128 * (dt
            + x * pow128(n))) by (nonlinear_arith);
    }
}

/// Facts about the varint encoding of `v`.
proof fn lemma_varint_bytes(v: nat, k: nat)
    ensures
        varint_bytes(v).len() >= 1,
        digits(varint_bytes(v)) == v,
        varint_bytes(v).last() < 128,
        forall|i: int| 0 <= i < varint_bytes(v).len() - 1 ==> varint_bytes(v)[i] >= 128,
        1 <= k && v < pow128(k) ==> varint_bytes(v).len() <= k,
        v < 128 ==> varint_bytes(v).len() == 1,
    decreases v,
{
    let s = varint_bytes(v);
    if v < 128 {
        assert(s.drop_last() =~= Seq::<u8>::empty());
        assert(digits(Seq::<u8>::empty()) == 0);
        assert(pow128(0) == 1);
        assert(digits(s) == (v as u8 % 128) as nat * pow128(0));
    } else {
        let t = varint_bytes(v / 128);
        if k >= 1 && v < pow128(k) {
            assert(k >= 2) by {
                if k == 1 {
                    assert(pow128(1) == 128 * pow128(0));
                }
            }
            assert(pow128(k) == 128 * pow128((k - 1) as nat));
            assert(v / 128 < pow128((k - 1) as nat));
        }
        lemma_varint_bytes(v / 128, (k - 1) as nat);
        lemma_digits_prepend((v % 128 + 128) as u8, t);
        assert(s.last() == t.last());
        assert forall|i: int| 0 <= i < s.len() - 1 implies s[i] >= 128 by {
            if i > 0 {
                assert(s[i] == t[i - 1]);
            }
        }
    }
}

proof fn lemma_first_terminator(s: Seq<u8>, i: nat, n: nat)
    requires
        i < n,
        n <= 10,
        n <= s.len(),
        forall|j: int| i <= j < n - 1 ==> s[j] >= 128,
        s[n - 1] < 128,
    ensures
        first_terminator(s, i) == Some(n),
    decreases n - i,
{
    if i + 1 < n {
        lemma_first_terminator(s, i + 1, n);
    }
}

/// A varint of a 64-bit value parses back to that value, whatever follows it.
proof fn lemma_parse_varint_bytes(v: u64, rest: Seq<u8>)
    ensures
        parse_varint(varint_bytes(v as nat) + rest) == Some((v, varint_bytes(v as nat).len())),
{
    let b = varint_bytes(v as nat);
    let s = b + rest;
    lemma_pow128_facts(10);
    lemma_varint_bytes(v as nat, 10);
    lemma_first_terminator(s, 0, b.len());
    assert(s.take(b.len() as int) =~= b);
}

proof fn lemma_varint_len_u32(v: u32)
    ensures
        varint_bytes(v as nat).len() <= 5,
{
    lemma_pow128_facts(5);
    lemma_varint_bytes(v as nat, 5);
}

// ── Varint codec ────────────────────────────────────────────────────────────

/// Append a base-128 varint. Returns false if `buf` is too small.
fn put_varint(buf: &mut [u8], pos: &mut usize, value: u64) -> (ok: bool)
    requires
        *old(pos) <= old(buf).len(),
    ensures
        final(buf).len() == old(buf).len(),
        ok <==> *old(pos) + varint_bytes(value as nat).len() <= old(buf).len(),
        ok ==> wrote(old(buf)@, final(buf)@, *old(pos) as nat, *final(pos) as nat, varint_bytes(value as nat)),
        !ok ==> final(buf)@ == overwrite(
            old(buf)@,
            *old(pos) as int,
            varint_bytes(value as nat).take(old(buf).len() - *old(pos)),
        ),
{
    let ghost start = *pos as nat;
    let ghost all = varint_bytes(value as nat);
    let ghost orig = buf@;
    proof {
        lemma_varint_bytes(value as nat, 0);
        assert(all.take(0) =~= Seq::<u8>::empty());
        assert(all.skip(0) =~= all);
    }
    let mut v = value;
    loop
        invariant
            start == *old(pos),
            orig == old(buf)@,
            start <= *pos <= buf.len(),
            buf.len() == orig.len(),
            all == varint_bytes(value as nat),
            *pos - start <= all.len(),
            all.skip(*pos - start) == varint_bytes(v as nat),
            buf@.take(*pos as int) == orig.take(start as int) + all.take(*pos - start),
            buf@.skip(*pos as int) == orig.skip(*pos as int),
        decreases v,
    {
        proof {
            lemma_varint_bytes(v as nat, 0);
        }
        if *pos >= buf.len() {
            assert(all.skip(*pos - start).len() >= 1);
            proof {
                assert(buf@.skip(*pos as int) =~= orig.skip(*pos as int));
                lemma_overwrite_parts(
                    orig,
                    buf@,
                    start as int,
                    *pos as int,
                    all.take(*pos - start),
                );
            }
            return false;
        }
        let ghost i = (*pos - start) as int;
        let ghost cur = v as nat;
        let mut byte = (v % 128) as u8;
        v = v / 128;
        if v != 0 {
            byte = byte + 128;
        }
        let ghost before = buf@;
        buf[*pos] = byte;
        *pos += 1;
        proof {
            let tail = varint_bytes(cur);
            assert(tail[0] == byte);
            assert(all[i] == tail[0]);
            assert(buf@.take(*pos as int) =~= before.take(*pos - 1) + seq![byte]);
            assert(all.take(i + 1) =~= all.take(i) + seq![byte]);
            assert forall|k: int| *pos <= k < orig.len() implies before[k] == orig[k] by {
                assert(before.skip(*pos - 1)[k - *pos + 1] == orig.skip(*pos - 1)[k - *pos + 1]);
            }
            assert(buf@.skip(*pos as int) =~= orig.skip(*pos as int));
            if cur >= 128 {
                assert(tail.skip(1) =~= varint_bytes(cur / 128));
                assert(all.skip(i + 1) =~= tail.skip(1));
            } else {
                assert(tail.len() == 1);
                assert(all.skip(i + 1).len() == 0);
                assert(all.take(i + 1) =~= all);
            }
        }
        if v == 0 {
            assert(cur < 128);
            assert(all.take(*pos - start) =~= all);
            assert(buf@.take(*pos as int) == orig.take(start as int) + all);
            assert(wrote(orig, buf@, start, *pos as nat, all));
            return true;
        }
    }
}

/// Read a base-128 varint. Returns None on truncation or overlong (more than
/// ten byte) input.
fn get_varint(buf: &[u8], pos: &mut usize) -> (r: Option<u64>)
    requires
        *old(pos) <= buf.len(),
    ensures
        match r {
            Some(v) => *old(pos) <= *final(pos) <= buf.len() && parse_varint(
                buf@.skip(*old(pos) as int),
            ) == Some((v, (*final(pos) - *old(pos)) as nat)),
            None => parse_varint(buf@.skip(*old(pos) as int)) is None,
        },
{
    let ghost start = *pos as int;
    let ghost s = buf@.skip(start);
    let mut value: u128 = 0;
    let mut scale: u128 = 1;
    let mut count: usize = 0;
    proof {
        lemma_pow128_facts(0);
        assert(s.take(0) =~= Seq::<u8>::empty());
    }
    loop
        invariant
            start == *old(pos),
            start <= *pos <= buf.len(),
            s == buf@.skip(start),
            s.len() == buf.len() - start,
            count == *pos - start,
            count <= 10,
            scale == pow128(count as nat),
            value == digits(s.take(count as int)),
            forall|j: int| 0 <= j < count ==> s[j] >= 128,
            first_terminator(s, 0) == first_terminator(s, count as nat),
        decreases 10 - count,
    {
        proof {
            lemma_pow128_facts(count as nat);
            lemma_digits_bound(s.take(count as int));
        }
        if *pos >= buf.len() || count >= 10 {
            return None;
        }
        let p = *pos;
        let byte = buf[p];
        *pos = p + 1;
        assert(s[count as int] == buf@[p as int]);
        proof {
            let t = s.take(count + 1);
            assert(t.drop_last() =~= s.take(count as int));
            assert(t.last() == byte);
            assert((byte % 128) as nat * pow128(count as nat) <= 127 * pow128(9)) by (nonlinear_arith)
                requires
                    pow128(count as nat) <= pow128(9),
                    byte % 128 <= 127,
            ;
        }
        assert(count <= 9);
        proof {
            lemma_pow128_mono(count as nat, 9);
        }
        value = value + (byte % 128) as u128 * scale;
        if byte < 128 {
            proof {
                lemma_first_terminator(s, count as nat, (count + 1) as nat);
            }
            return Some((value % 0x1_0000_0000_0000_0000) as u64);
        }
        proof {
            assert(pow128((count + 1) as nat) == 128 * pow128(count as nat));
        }
        scale = scale * 128;
        count += 1;
    }
}


proof fn lemma_wrote_empty(b: Seq<u8>, p: nat)
    requires
        p <= b.len(),
    ensures
        wrote(b, b, p, p, Seq::<u8>::empty()),
{
    assert(b.take(p as int) + Seq::<u8>::empty() =~= b.take(p as int));
}

proof fn lemma_wrote_trans(
    b0: Seq<u8>,
    b1: Seq<u8>,
    b2: Seq<u8>,
    p0: nat,
    p1: nat,
    p2: nat,
    x: Seq<u8>,
    y: Seq<u8>,
)
    requires
        wrote(b0, b1, p0, p1, x),
        wrote(b1, b2, p1, p2, y),
    ensures
        wrote(b0, b2, p0, p2, x + y),
{
    assert(b0.take(p0 as int) + x + y =~= b0.take(p0 as int) + (x + y));
    assert forall|k: int| 0 <= k < b0.len() - p2 implies b1.skip(p2 as int)[k] == b0.skip(
        p2 as int,
    )[k] by {
        assert(b1.skip(p1 as int)[k + p2 - p1] == b0.skip(p1 as int)[k + p2 - p1]);
    }
    assert(b1.skip(p2 as int) =~= b0.skip(p2 as int));
}

/// A key of a field below 16 is one byte long.
proof fn lemma_tag_len(field: nat, wire: nat)
    requires
        field < 16,
        wire < 8,
    ensures
        tag_bytes(field, wire).len() == 1,
{
    lemma_varint_bytes(field * 8 + wire, 0);
}

proof fn lemma_u32_field_len(field: nat, v: u32)
    requires
        field < 16,
    ensures
        u32_field(field, v).len() <= 6,
{
    lemma_tag_len(field, 0);
    lemma_varint_len_u32(v);
}

proof fn lemma_bool_field_len(field: nat, b: bool)
    requires
        field < 16,
    ensures
        bool_field(field, b).len() <= 2,
{
    lemma_tag_len(field, 0);
    lemma_varint_bytes(1, 0);
}

fn put_tag(buf: &mut [u8], pos: &mut usize, field: u8, wire: u8) -> (ok: bool)
    requires
        *old(pos) <= old(buf).len(),
        wire < 8,
    ensures
        final(buf).len() == old(buf).len(),
        ok <==> *old(pos) + tag_bytes(field as nat, wire as nat).len() <= old(buf).len(),
        ok ==> wrote(
            old(buf)@,
            final(buf)@,
            *old(pos) as nat,
            *final(pos) as nat,
            tag_bytes(field as nat, wire as nat),
        ),
        !ok ==> final(buf)@ == overwrite(
            old(buf)@,
            *old(pos) as int,
            tag_bytes(field as nat, wire as nat).take(old(buf).len() - *old(pos)),
        ),
{
    put_varint(buf, pos, field as u64 * 8 + wire as u64)
}

/// Encode a proto3 scalar `uint32` field, omitting it when zero (proto3 default).
fn put_u32(buf: &mut [u8], pos: &mut usize, field: u8, v: u32) -> (ok: bool)
    requires
        *old(pos) <= old(buf).len(),
    ensures
        final(buf).len() == old(buf).len(),
        ok <==> *old(pos) + u32_field(field as nat, v).len() <= old(buf).len(),
        ok ==> wrote(
            old(buf)@,
            final(buf)@,
            *old(pos) as nat,
            *final(pos) as nat,
            u32_field(field as nat, v),
        ),
        !ok ==> final(buf)@ == overwrite(
            old(buf)@,
            *old(pos) as int,
            u32_field(field as nat, v).take(old(buf).len() - *old(pos)),
        ),
{
    if v == 0 {
        proof {
            lemma_wrote_empty(buf@, *pos as nat);
        }
        return true;
    }
    let ghost b0 = buf@;
    let ghost p0 = *pos as nat;
    if !put_tag(buf, pos, field, WT_VARINT) {
        proof {
            lemma_overwrite_extend(
                b0,
                buf@,
                p0 as int,
                tag_bytes(field as nat, 0),
                varint_bytes(v as nat),
                b0.len() - p0,
            );
        }
        return false;
    }
    let ghost b1 = buf@;
    let ghost p1 = *pos as nat;
    let ok = put_varint(buf, pos, v as u64);
    proof {
        if !ok {
            lemma_overwrite_after(
                b0,
                b1,
                buf@,
                p0,
                p1,
                tag_bytes(field as nat, 0),
                varint_bytes(v as nat),
                b1.len() - p1,
            );
        }
        if ok {
            lemma_wrote_trans(
                b0,
                b1,
                buf@,
                p0,
                p1,
                *pos as nat,
                tag_bytes(field as nat, 0),
                varint_bytes(v as nat),
            );
        }
    }
    ok
}

/// Encode a proto3 `bool` field, omitting it when false (proto3 default).
fn put_bool(buf: &mut [u8], pos: &mut usize, field: u8, v: bool) -> (ok: bool)
    requires
        *old(pos) <= old(buf).len(),
    ensures
        final(buf).len() == old(buf).len(),
        ok <==> *old(pos) + bool_field(field as nat, v).len() <= old(buf).len(),
        ok ==> wrote(
            old(buf)@,
            final(buf)@,
            *old(pos) as nat,
            *final(pos) as nat,
            bool_field(field as nat, v),
        ),
        !ok ==> final(buf)@ == overwrite(
            old(buf)@,
            *old(pos) as int,
            bool_field(field as nat, v).take(old(buf).len() - *old(pos)),
        ),
{
    if !v {
        proof {
            lemma_wrote_empty(buf@, *pos as nat);
        }
        return true;
    }
    let ghost b0 = buf@;
    let ghost p0 = *pos as nat;
    if !put_tag(buf, pos, field, WT_VARINT) {
        proof {
            lemma_overwrite_extend(
                b0,
                buf@,
                p0 as int,
                tag_bytes(field as nat, 0),
                varint_bytes(1),
                b0.len() - p0,
            );
        }
        return false;
    }
    let ghost b1 = buf@;
    let ghost p1 = *pos as nat;
    let ok = put_varint(buf, pos, 1);
    proof {
        if !ok {
            lemma_overwrite_after(
                b0,
                b1,
                buf@,
                p0,
                p1,
                tag_bytes(field as nat, 0),
                varint_bytes(1),
                b1.len() - p1,
            );
        }
        if ok {
            lemma_wrote_trans(
                b0,
                b1,
                buf@,
                p0,
                p1,
                *pos as nat,
                tag_bytes(field as nat, 0),
                varint_bytes(1),
            );
        }
    }
    ok
}

/// Write a length-delimited (wire type 2) sub-message: tag, length, body.
fn put_submessage(buf: &mut [u8], pos: &mut usize, field: u8, body: &[u8]) -> (ok: bool)
    requires
        *old(pos) <= old(buf).len(),
    ensures
        final(buf).len() == old(buf).len(),
        ok <==> *old(pos) + len_field(field as nat, body@).len() <= old(buf).len(),
        ok ==> wrote(
            old(buf)@,
            final(buf)@,
            *old(pos) as nat,
            *final(pos) as nat,
            len_field(field as nat, body@),
        ),
        !ok ==> final(buf)@ == overwrite(
            old(buf)@,
            *old(pos) as int,
            len_field(field as nat, body@).take(
                room_for(old(buf)@, *old(pos) as int, len_key(field as nat, body@.len())),
            ),
        ),
{
    let ghost b0 = buf@;
    let ghost p0 = *pos as nat;
    if !put_tag(buf, pos, field, WT_LEN) {
        proof {
            lemma_overwrite_extend(
                b0,
                buf@,
                p0 as int,
                tag_bytes(field as nat, 2),
                varint_bytes(body.len() as nat) + body@,
                b0.len() - p0,
            );
            assert(tag_bytes(field as nat, 2) + (varint_bytes(body.len() as nat) + body@)
                =~= len_field(field as nat, body@));
        }
        return false;
    }
    let ghost b1 = buf@;
    let ghost p1 = *pos as nat;
    if !put_varint(buf, pos, body.len() as u64) {
        proof {
            lemma_overwrite_after(
                b0,
                b1,
                buf@,
                p0,
                p1,
                tag_bytes(field as nat, 2),
                varint_bytes(body.len() as nat),
                b1.len() - p1,
            );
            lemma_overwrite_extend(
                b0,
                buf@,
                p0 as int,
                len_key(field as nat, body@.len()),
                body@,
                b0.len() - p0,
            );
        }
        return false;
    }
    let ghost b2 = buf@;
    let ghost p2 = *pos as nat;
    proof {
        lemma_wrote_trans(
            b0,
            b1,
            b2,
            p0,
            p1,
            p2,
            tag_bytes(field as nat, 2),
            varint_bytes(body.len() as nat),
        );
    }
    if body.len() > buf.len() - *pos {
        proof {
            let key = len_key(field as nat, body@.len());
            lemma_wrote_overwrite(b0, b2, p0, p2, key);
            assert(key.take(key.len() as int) =~= key);
            lemma_overwrite_extend(b0, b2, p0 as int, key, body@, key.len() as int);
        }
        return false;
    }
    let start = *pos;
    let mut i: usize = 0;
    while i < body.len()
        invariant
            start == p2,
            start + body.len() <= buf.len(),
            buf.len() == b2.len(),
            i <= body.len(),
            buf@.take(start as int) == b2.take(start as int),
            buf@.subrange(start as int, start + i) == body@.take(i as int),
            buf@.skip(start + i) == b2.skip(start + i),
        decreases body.len() - i,
    {
        let ghost before = buf@;
        buf[start + i] = body[i];
        proof {
            assert(buf@.take(start as int) =~= before.take(start as int));
            assert(buf@.subrange(start as int, start + i + 1) =~= before.subrange(
                start as int,
                start + i,
            ) + seq![body@[i as int]]);
            assert(body@.take(i + 1) =~= body@.take(i as int) + seq![body@[i as int]]);
            assert forall|k: int| start + i + 1 <= k < b2.len() implies before[k] == b2[k] by {
                assert(before.skip(start + i)[k - start - i] == b2.skip(start + i)[k - start - i]);
            }
            assert(buf@.skip(start + i + 1) =~= b2.skip(start + i + 1));
        }
        i += 1;
    }
    *pos = start + body.len();
    proof {
        assert(body@.take(body.len() as int) =~= body@);
        assert(buf@.take(*pos as int) =~= b2.take(start as int) + body@);
        assert(wrote(b2, buf@, p2, *pos as nat, body@));
        lemma_wrote_trans(
            b0,
            b2,
            buf@,
            p0,
            p2,
            *pos as nat,
            tag_bytes(field as nat, 2) + varint_bytes(body.len() as nat),
            body@,
        );
    }
    true
}


proof fn lemma_body_lens(n: u32, rs: RotStatus)
    ensures
        nonce_body(n).len() <= 6,
        rot_status_body(rs).len() <= 22,
{
    lemma_u32_field_len(1, n);
    lemma_u32_field_len(1, rs.silicon_rev);
    lemma_u32_field_len(2, rs.caliptra_flow_status);
    lemma_u32_field_len(3, rs.caliptra_boot_status);
    lemma_bool_field_len(4, rs.secure_boot_enabled);
    lemma_bool_field_len(5, rs.caliptra_rt_ready);
}

// ── RotStatus body ──────────────────────────────────────────────────────────

fn encode_rot_status(rs: &RotStatus, buf: &mut [u8]) -> (r: Option<usize>)
    ensures
        final(buf).len() == old(buf).len(),
        r is Some <==> rot_status_body(*rs).len() <= old(buf).len(),
        r matches Some(n) ==> wrote(old(buf)@, final(buf)@, 0, n as nat, rot_status_body(*rs)),
{
    let ghost b0 = buf@;
    let ghost f1 = u32_field(1, rs.silicon_rev);
    let ghost f2 = u32_field(2, rs.caliptra_flow_status);
    let ghost f3 = u32_field(3, rs.caliptra_boot_status);
    let ghost f4 = bool_field(4, rs.secure_boot_enabled);
    let ghost f5 = bool_field(5, rs.caliptra_rt_ready);
    let mut pos: usize = 0;
    if !put_u32(buf, &mut pos, 1, rs.silicon_rev) {
        return None;
    }
    let ghost b1 = buf@;
    let ghost p1 = pos as nat;
    if !put_u32(buf, &mut pos, 2, rs.caliptra_flow_status) {
        return None;
    }
    proof {
        lemma_wrote_trans(b0, b1, buf@, 0, p1, pos as nat, f1, f2);
    }
    let ghost b2 = buf@;
    let ghost p2 = pos as nat;
    if !put_u32(buf, &mut pos, 3, rs.caliptra_boot_status) {
        return None;
    }
    proof {
        lemma_wrote_trans(b0, b2, buf@, 0, p2, pos as nat, f1 + f2, f3);
    }
    let ghost b3 = buf@;
    let ghost p3 = pos as nat;
    if !put_bool(buf, &mut pos, 4, rs.secure_boot_enabled) {
        return None;
    }
    proof {
        lemma_wrote_trans(b0, b3, buf@, 0, p3, pos as nat, f1 + f2 + f3, f4);
    }
    let ghost b4 = buf@;
    let ghost p4 = pos as nat;
    if !put_bool(buf, &mut pos, 5, rs.caliptra_rt_ready) {
        return None;
    }
    proof {
        lemma_wrote_trans(b0, b4, buf@, 0, p4, pos as nat, f1 + f2 + f3 + f4, f5);
    }
    Some(pos)
}

/// Body of a message with a single `nonce` (field 1) — Ping and Pong.
fn encode_nonce(nonce: u32, buf: &mut [u8]) -> (r: Option<usize>)
    ensures
        final(buf).len() == old(buf).len(),
        r is Some <==> nonce_body(nonce).len() <= old(buf).len(),
        r matches Some(n) ==> wrote(old(buf)@, final(buf)@, 0, n as nat, nonce_body(nonce)),
{
    let mut pos: usize = 0;
    if put_u32(buf, &mut pos, 1, nonce) {
        Some(pos)
    } else {
        None
    }
}

// ── Envelope ────────────────────────────────────────────────────────────────

/// Encode `env` into `out`, returning the number of bytes written.
///
/// Returns `None` if `out` is too small. A scratch buffer sized for the
/// largest sub-message is used internally (no allocation).
pub fn encode(env: &Envelope, out: &mut [u8]) -> (r: Option<usize>)
    ensures
        final(out).len() == old(out).len(),
        r is Some <==> envelope_bytes(*env).len() <= old(out).len(),
        r matches Some(n) ==> n == envelope_bytes(*env).len() && final(out)@.take(n as int)
            == envelope_bytes(*env) && final(out)@.skip(n as int) == old(out)@.skip(n as int),
        r is None ==> final(out)@ == overwrite(
            old(out)@,
            0,
            envelope_bytes(*env).take(
                if envelope_head_len(*env) <= old(out).len() {
                    envelope_head_len(*env) as int
                } else {
                    old(out).len() as int
                },
            ),
        ),
{
    let ghost b0 = out@;
    let mut pos: usize = 0;
    if !put_u32(out, &mut pos, 1, env.seq) {
        proof {
            lemma_overwrite_extend(
                b0,
                out@,
                0,
                u32_field(1, env.seq),
                payload_bytes(env.payload),
                b0.len() as int,
            );
        }
        return None;
    }
    let ghost b1 = out@;
    let ghost p1 = pos as nat;
    let ghost head = u32_field(1, env.seq);
    let mut scratch = [0u8; 32];
    proof {
        lemma_body_lens(
            match env.payload {
                Payload::Ping(n) => n,
                Payload::Pong(n) => n,
                _ => 0,
            },
            match env.payload {
                Payload::RotStatus(rs) => rs,
                _ => default_rot_status(),
            },
        );
    }
    match &env.payload {
        Payload::Unset => {
            proof {
                assert(head + payload_bytes(env.payload) =~= head);
            }
        },
        Payload::Ping(n) => {
            let len = match encode_nonce(*n, &mut scratch) {
                Some(len) => len,
                None => return None,
            };
            if !put_submessage(out, &mut pos, 2, &scratch[0..len]) {
                proof {
                    lemma_overwrite_after(
                        b0,
                        b1,
                        out@,
                        0,
                        p1,
                        head,
                        payload_bytes(env.payload),
                        room_for(b1, p1 as int, payload_key(env.payload)),
                    );
                }
                return None;
            }
            proof {
                lemma_wrote_trans(b0, b1, out@, 0, p1, pos as nat, head, payload_bytes(env.payload));
            }
        },
        Payload::Pong(n) => {
            let len = match encode_nonce(*n, &mut scratch) {
                Some(len) => len,
                None => return None,
            };
            if !put_submessage(out, &mut pos, 3, &scratch[0..len]) {
                proof {
                    lemma_overwrite_after(
                        b0,
                        b1,
                        out@,
                        0,
                        p1,
                        head,
                        payload_bytes(env.payload),
                        room_for(b1, p1 as int, payload_key(env.payload)),
                    );
                }
                return None;
            }
            proof {
                lemma_wrote_trans(b0, b1, out@, 0, p1, pos as nat, head, payload_bytes(env.payload));
            }
        },
        Payload::GetRotStatus => {
            if !put_submessage(out, &mut pos, 4, &scratch[0..0]) {
                proof {
                    assert(scratch@.subrange(0, 0) =~= Seq::<u8>::empty());
                    lemma_overwrite_after(
                        b0,
                        b1,
                        out@,
                        0,
                        p1,
                        head,
                        payload_bytes(env.payload),
                        room_for(b1, p1 as int, payload_key(env.payload)),
                    );
                }
                return None;
            }
            proof {
                assert(scratch@.subrange(0, 0) =~= Seq::<u8>::empty());
                lemma_wrote_trans(b0, b1, out@, 0, p1, pos as nat, head, payload_bytes(env.payload));
            }
        },
        Payload::RotStatus(rs) => {
            let len = match encode_rot_status(rs, &mut scratch) {
                Some(len) => len,
                None => return None,
            };
            if !put_submessage(out, &mut pos, 5, &scratch[0..len]) {
                proof {
                    lemma_overwrite_after(
                        b0,
                        b1,
                        out@,
                        0,
                        p1,
                        head,
                        payload_bytes(env.payload),
                        room_for(b1, p1 as int, payload_key(env.payload)),
                    );
                }
                return None;
            }
            proof {
                lemma_wrote_trans(b0, b1, out@, 0, p1, pos as nat, head, payload_bytes(env.payload));
            }
        },
    }
    proof {
        assert(out@.take(0) =~= Seq::<u8>::empty());
    }
    Some(pos)
}


// ── Decoding ────────────────────────────────────────────────────────────────

proof fn lemma_first_terminator_range(s: Seq<u8>, i: nat)
    ensures
        first_terminator(s, i) matches Some(n) ==> i < n <= s.len() && n <= 10,
    decreases 10 - i,
{
    if !(i >= 10 || i >= s.len()) && s[i as int] >= 128 {
        lemma_first_terminator_range(s, i + 1);
    }
}

/// A varint occupies at least one and at most ten bytes of `s`.
proof fn lemma_parse_varint_range(s: Seq<u8>)
    ensures
        parse_varint(s) matches Some((v, n)) ==> 0 < n <= s.len() && n <= 10,
{
    lemma_first_terminator_range(s, 0);
}

/// A field whose key starts at `p0`, whose payload starts at `p1` and which
/// ends at `p2`.
proof fn lemma_field_at(buf: Seq<u8>, p0: nat, p1: nat, p2: nat, tag: u64, body: FieldBody)
    requires
        p0 < p1 <= p2 <= buf.len(),
        parse_varint(buf.skip(p0 as int)) == Some((tag, (p1 - p0) as nat)),
        parse_body((tag % 8) as u8, buf.skip(p1 as int)) == Some((body, (p2 - p1) as nat)),
    ensures
        parse_field(buf.skip(p0 as int)) == Some(
            ((tag / 8) as u64, (tag % 8) as u8, body, (p2 - p0) as nat),
        ),
{
    assert(buf.skip(p0 as int).skip(p1 - p0) =~= buf.skip(p1 as int));
}

/// Consuming one accepted field advances the fold.
proof fn lemma_decode_step<T>(
    buf: Seq<u8>,
    p0: nat,
    p2: nat,
    acc: T,
    next: T,
    apply: spec_fn(T, u64, u8, FieldBody) -> Option<T>,
    field: u64,
    wire: u8,
    body: FieldBody,
)
    requires
        p0 < p2 <= buf.len(),
        parse_field(buf.skip(p0 as int)) == Some((field, wire, body, (p2 - p0) as nat)),
        apply(acc, field, wire, body) == Some(next),
    ensures
        decode_fields(buf.skip(p0 as int), acc, apply) == decode_fields(
            buf.skip(p2 as int),
            next,
            apply,
        ),
{
    assert(buf.skip(p0 as int).skip(p2 - p0) =~= buf.skip(p2 as int));
}

/// A malformed key stops decoding.
proof fn lemma_decode_bad_key<T>(
    buf: Seq<u8>,
    p0: nat,
    acc: T,
    apply: spec_fn(T, u64, u8, FieldBody) -> Option<T>,
)
    requires
        p0 < buf.len(),
        parse_varint(buf.skip(p0 as int)) is None,
    ensures
        decode_fields(buf.skip(p0 as int), acc, apply) is None,
{
}

/// A malformed payload stops decoding.
proof fn lemma_decode_bad_body<T>(
    buf: Seq<u8>,
    p0: nat,
    p1: nat,
    tag: u64,
    acc: T,
    apply: spec_fn(T, u64, u8, FieldBody) -> Option<T>,
)
    requires
        p0 < p1 <= buf.len(),
        parse_varint(buf.skip(p0 as int)) == Some((tag, (p1 - p0) as nat)),
        parse_body((tag % 8) as u8, buf.skip(p1 as int)) is None,
    ensures
        decode_fields(buf.skip(p0 as int), acc, apply) is None,
{
    assert(buf.skip(p0 as int).skip(p1 - p0) =~= buf.skip(p1 as int));
}

/// A field that `apply` rejects stops decoding.
proof fn lemma_decode_rejected<T>(
    buf: Seq<u8>,
    p0: nat,
    p2: nat,
    acc: T,
    apply: spec_fn(T, u64, u8, FieldBody) -> Option<T>,
    field: u64,
    wire: u8,
    body: FieldBody,
)
    requires
        p0 < p2 <= buf.len(),
        parse_field(buf.skip(p0 as int)) == Some((field, wire, body, (p2 - p0) as nat)),
        apply(acc, field, wire, body) is None,
    ensures
        decode_fields(buf.skip(p0 as int), acc, apply) is None,
{
}

proof fn lemma_decode_end<T>(buf: Seq<u8>, acc: T, apply: spec_fn(T, u64, u8, FieldBody) -> Option<T>)
    ensures
        decode_fields(buf.skip(buf.len() as int), acc, apply) == Some(acc),
{
    assert(buf.skip(buf.len() as int).len() == 0);
}

/// Read a length-delimited slice, advancing `pos` past it.
fn read_len_slice<'a>(buf: &'a [u8], pos: &mut usize) -> (r: Option<&'a [u8]>)
    requires
        *old(pos) <= buf.len(),
    ensures
        match parse_body(WT_LEN, buf@.skip(*old(pos) as int)) {
            Some((body, m)) => r matches Some(b) && body == FieldBody::Bytes(b@) && *final(pos)
                == *old(pos) + m && *final(pos) <= buf.len(),
            None => r is None,
        },
{
    let ghost p0 = *pos as int;
    let len = match get_varint(buf, pos) {
        Some(len) => len,
        None => return None,
    };
    proof {
        lemma_parse_varint_range(buf@.skip(p0));
    }
    if len > (buf.len() - *pos) as u64 {
        return None;
    }
    let start = *pos;
    let end = start + len as usize;
    let body = &buf[start..end];
    *pos = end;
    proof {
        let s = buf@.skip(p0);
        let n = start - p0;
        assert(s.subrange(n, n + len) =~= body@);
    }
    Some(body)
}

/// Advance `pos` past a field of the given wire type. None on truncation or an
/// unsupported/invalid wire type.
fn skip_field(buf: &[u8], pos: &mut usize, wire: u8) -> (r: Option<()>)
    requires
        *old(pos) <= buf.len(),
    ensures
        match parse_body(wire, buf@.skip(*old(pos) as int)) {
            Some((_, m)) => r is Some && *final(pos) == *old(pos) + m && *final(pos) <= buf.len(),
            None => r is None,
        },
{
    let ghost p0 = *pos as int;
    if wire == WT_VARINT {
        match get_varint(buf, pos) {
            Some(_) => {},
            None => return None,
        }
    } else if wire == WT_I64 {
        if 8 > buf.len() - *pos {
            return None;
        }
        *pos = *pos + 8;
    } else if wire == WT_LEN {
        let len = match get_varint(buf, pos) {
            Some(len) => len,
            None => return None,
        };
        proof {
            lemma_parse_varint_range(buf@.skip(p0));
        }
        if len > (buf.len() - *pos) as u64 {
            return None;
        }
        *pos = *pos + len as usize;
    } else if wire == WT_I32 {
        if 4 > buf.len() - *pos {
            return None;
        }
        *pos = *pos + 4;
    } else {
        return None;
    }
    Some(())
}

/// Body of a message with a single `nonce` (field 1) — Ping and Pong.
fn decode_nonce(buf: &[u8]) -> (r: Option<u32>)
    ensures
        r == spec_decode_nonce(buf@),
{
    let mut nonce: u32 = 0;
    let mut pos: usize = 0;
    proof {
        assert(buf@.skip(0) =~= buf@);
    }
    while pos < buf.len()
        invariant
            pos <= buf.len(),
            spec_decode_nonce(buf@) == decode_fields(buf@.skip(pos as int), nonce, nonce_fields()),
        decreases buf.len() - pos,
    {
        let ghost p0 = pos as nat;
        let ghost n0 = nonce;
        let tag = match get_varint(buf, &mut pos) {
            Some(tag) => tag,
            None => {
                proof {
                    lemma_decode_bad_key(buf@, p0, n0, nonce_fields());
                }
                return None;
            },
        };
        proof {
            lemma_parse_varint_range(buf@.skip(p0 as int));
        }
        let ghost p1 = pos as nat;
        let field = tag / 8;
        let wire = (tag % 8) as u8;
        if field == 1 && wire == WT_VARINT {
            match get_varint(buf, &mut pos) {
                Some(v) => {
                    nonce = v as u32;
                    proof {
                        lemma_field_at(buf@, p0, p1, pos as nat, tag, FieldBody::Varint(v));
                        lemma_decode_step(
                            buf@,
                            p0,
                            pos as nat,
                            n0,
                            nonce,
                            nonce_fields(),
                            field,
                            wire,
                            FieldBody::Varint(v),
                        );
                    }
                },
                None => {
                    proof {
                        lemma_decode_bad_body(buf@, p0, p1, tag, n0, nonce_fields());
                    }
                    return None;
                },
            }
        } else {
            match skip_field(buf, &mut pos, wire) {
                Some(_) => {
                    proof {
                        let (body, m) = parse_body(wire, buf@.skip(p1 as int)).unwrap();
                        lemma_field_at(buf@, p0, p1, pos as nat, tag, body);
                        lemma_decode_step(
                            buf@,
                            p0,
                            pos as nat,
                            n0,
                            nonce,
                            nonce_fields(),
                            field,
                            wire,
                            body,
                        );
                    }
                },
                None => {
                    proof {
                        lemma_decode_bad_body(buf@, p0, p1, tag, n0, nonce_fields());
                    }
                    return None;
                },
            }
        }
    }
    proof {
        lemma_decode_end(buf@, nonce, nonce_fields());
    }
    Some(nonce)
}


fn decode_rot_status(buf: &[u8]) -> (r: Option<RotStatus>)
    ensures
        r == spec_decode_rot_status(buf@),
{
    let mut rs = RotStatus::default();
    let mut pos: usize = 0;
    proof {
        assert(buf@.skip(0) =~= buf@);
    }
    while pos < buf.len()
        invariant
            pos <= buf.len(),
            spec_decode_rot_status(buf@) == decode_fields(
                buf@.skip(pos as int),
                rs,
                rot_status_fields(),
            ),
        decreases buf.len() - pos,
    {
        let ghost p0 = pos as nat;
        let ghost r0 = rs;
        let tag = match get_varint(buf, &mut pos) {
            Some(tag) => tag,
            None => {
                proof {
                    lemma_decode_bad_key(buf@, p0, r0, rot_status_fields());
                }
                return None;
            },
        };
        proof {
            lemma_parse_varint_range(buf@.skip(p0 as int));
        }
        let ghost p1 = pos as nat;
        let field = tag / 8;
        let wire = (tag % 8) as u8;
        if wire == WT_VARINT && 1 <= field && field <= 5 {
            match get_varint(buf, &mut pos) {
                Some(v) => {
                    if field == 1 {
                        rs.silicon_rev = v as u32;
                    } else if field == 2 {
                        rs.caliptra_flow_status = v as u32;
                    } else if field == 3 {
                        rs.caliptra_boot_status = v as u32;
                    } else if field == 4 {
                        rs.secure_boot_enabled = v != 0;
                    } else {
                        rs.caliptra_rt_ready = v != 0;
                    }
                    proof {
                        lemma_field_at(buf@, p0, p1, pos as nat, tag, FieldBody::Varint(v));
                        lemma_decode_step(
                            buf@,
                            p0,
                            pos as nat,
                            r0,
                            rs,
                            rot_status_fields(),
                            field,
                            wire,
                            FieldBody::Varint(v),
                        );
                    }
                },
                None => {
                    proof {
                        lemma_decode_bad_body(buf@, p0, p1, tag, r0, rot_status_fields());
                    }
                    return None;
                },
            }
        } else {
            match skip_field(buf, &mut pos, wire) {
                Some(_) => {
                    proof {
                        let (body, m) = parse_body(wire, buf@.skip(p1 as int)).unwrap();
                        lemma_field_at(buf@, p0, p1, pos as nat, tag, body);
                        lemma_decode_step(
                            buf@,
                            p0,
                            pos as nat,
                            r0,
                            rs,
                            rot_status_fields(),
                            field,
                            wire,
                            body,
                        );
                    }
                },
                None => {
                    proof {
                        lemma_decode_bad_body(buf@, p0, p1, tag, r0, rot_status_fields());
                    }
                    return None;
                },
            }
        }
    }
    proof {
        lemma_decode_end(buf@, rs, rot_status_fields());
    }
    Some(rs)
}

/// Decode an `IpcEnvelope` from `buf`. Unknown fields are skipped; the last
/// oneof case present wins (proto3 semantics). Returns `None` on malformed input.
pub fn decode(buf: &[u8]) -> (r: Option<Envelope>)
    ensures
        r == spec_decode(buf@),
{
    let mut env = Envelope { seq: 0, payload: Payload::Unset };
    let mut pos: usize = 0;
    proof {
        assert(buf@.skip(0) =~= buf@);
    }
    while pos < buf.len()
        invariant
            pos <= buf.len(),
            spec_decode(buf@) == decode_fields(buf@.skip(pos as int), env, envelope_fields()),
        decreases buf.len() - pos,
    {
        let ghost p0 = pos as nat;
        let ghost e0 = env;
        let tag = match get_varint(buf, &mut pos) {
            Some(tag) => tag,
            None => {
                proof {
                    lemma_decode_bad_key(buf@, p0, e0, envelope_fields());
                }
                return None;
            },
        };
        proof {
            lemma_parse_varint_range(buf@.skip(p0 as int));
        }
        let ghost p1 = pos as nat;
        let field = tag / 8;
        let wire = (tag % 8) as u8;
        if field == 1 && wire == WT_VARINT {
            match get_varint(buf, &mut pos) {
                Some(v) => {
                    env.seq = v as u32;
                    proof {
                        lemma_field_at(buf@, p0, p1, pos as nat, tag, FieldBody::Varint(v));
                        lemma_decode_step(
                            buf@,
                            p0,
                            pos as nat,
                            e0,
                            env,
                            envelope_fields(),
                            field,
                            wire,
                            FieldBody::Varint(v),
                        );
                    }
                },
                None => {
                    proof {
                        lemma_decode_bad_body(buf@, p0, p1, tag, e0, envelope_fields());
                    }
                    return None;
                },
            }
        } else if wire == WT_LEN && 2 <= field && field <= 5 {
            let body = match read_len_slice(buf, &mut pos) {
                Some(body) => body,
                None => {
                    proof {
                        lemma_decode_bad_body(buf@, p0, p1, tag, e0, envelope_fields());
                    }
                    return None;
                },
            };
            proof {
                lemma_field_at(buf@, p0, p1, pos as nat, tag, FieldBody::Bytes(body@));
            }
            let decoded = if field == 2 {
                match decode_nonce(body) {
                    Some(n) => Some(Payload::Ping(n)),
                    None => None,
                }
            } else if field == 3 {
                match decode_nonce(body) {
                    Some(n) => Some(Payload::Pong(n)),
                    None => None,
                }
            } else if field == 4 {
                // empty message
                Some(Payload::GetRotStatus)
            } else {
                match decode_rot_status(body) {
                    Some(rs) => Some(Payload::RotStatus(rs)),
                    None => None,
                }
            };
            match decoded {
                Some(payload) => {
                    env.payload = payload;
                    proof {
                        lemma_decode_step(
                            buf@,
                            p0,
                            pos as nat,
                            e0,
                            env,
                            envelope_fields(),
                            field,
                            wire,
                            FieldBody::Bytes(body@),
                        );
                    }
                },
                None => {
                    proof {
                        lemma_decode_rejected(
                            buf@,
                            p0,
                            pos as nat,
                            e0,
                            envelope_fields(),
                            field,
                            wire,
                            FieldBody::Bytes(body@),
                        );
                    }
                    return None;
                },
            }
        } else {
            match skip_field(buf, &mut pos, wire) {
                Some(_) => {
                    proof {
                        let (body, m) = parse_body(wire, buf@.skip(p1 as int)).unwrap();
                        lemma_field_at(buf@, p0, p1, pos as nat, tag, body);
                        lemma_decode_step(
                            buf@,
                            p0,
                            pos as nat,
                            e0,
                            env,
                            envelope_fields(),
                            field,
                            wire,
                            body,
                        );
                    }
                },
                None => {
                    proof {
                        lemma_decode_bad_body(buf@, p0, p1, tag, e0, envelope_fields());
                    }
                    return None;
                },
            }
        }
    }
    proof {
        lemma_decode_end(buf@, env, envelope_fields());
    }
    Some(env)
}


// ── Round trip ──────────────────────────────────────────────────────────────

/// A key of a field below 16 parses back to its field number and wire type.
proof fn lemma_parse_tag(field: nat, wire: nat, rest: Seq<u8>)
    requires
        1 <= field < 16,
        wire < 8,
    ensures
        parse_varint(tag_bytes(field, wire) + rest) == Some(((field * 8 + wire) as u64, 1nat)),
        (((field * 8 + wire) as u64) % 8) as u8 == wire as u8,
        (((field * 8 + wire) as u64) / 8) as u64 == field as u64,
{
    lemma_parse_varint_bytes((field * 8 + wire) as u64, rest);
    lemma_tag_len(field, wire);
}

/// Decoding a varint field `field` holding `v`, followed by `rest`.
proof fn lemma_decode_varint_field<T>(
    field: nat,
    v: u64,
    rest: Seq<u8>,
    acc: T,
    apply: spec_fn(T, u64, u8, FieldBody) -> Option<T>,
)
    requires
        1 <= field < 16,
    ensures
        decode_fields(tag_bytes(field, 0) + varint_bytes(v as nat) + rest, acc, apply) == match apply(
            acc,
            field as u64,
            0,
            FieldBody::Varint(v),
        ) {
            Some(next) => decode_fields(rest, next, apply),
            None => None,
        },
{
    let t = tag_bytes(field, 0);
    let b = varint_bytes(v as nat);
    let s = t + b + rest;
    assert(s =~= t + (b + rest));
    lemma_parse_tag(field, 0, b + rest);
    lemma_tag_len(field, 0);
    assert(s.skip(1) =~= b + rest);
    lemma_parse_varint_bytes(v, rest);
    assert(s.skip((1 + b.len()) as int) =~= rest);
}

/// Decoding a length-delimited field `field` holding `body`, followed by `rest`.
proof fn lemma_decode_len_field<T>(
    field: nat,
    body: Seq<u8>,
    rest: Seq<u8>,
    acc: T,
    apply: spec_fn(T, u64, u8, FieldBody) -> Option<T>,
)
    requires
        1 <= field < 16,
        body.len() < 0x1_0000_0000,
    ensures
        decode_fields(len_field(field, body) + rest, acc, apply) == match apply(
            acc,
            field as u64,
            2,
            FieldBody::Bytes(body),
        ) {
            Some(next) => decode_fields(rest, next, apply),
            None => None,
        },
{
    let t = tag_bytes(field, 2);
    let l = varint_bytes(body.len());
    let s = len_field(field, body) + rest;
    assert(s =~= t + (l + body + rest));
    lemma_parse_tag(field, 2, l + body + rest);
    lemma_tag_len(field, 2);
    assert(s.skip(1) =~= l + (body + rest));
    lemma_parse_varint_bytes(body.len() as u64, body + rest);
    let k = l.len();
    assert(s.skip(1).subrange(k as int, (k + body.len()) as int) =~= body);
    assert(s.skip((1 + k + body.len()) as int) =~= rest);
}

proof fn lemma_decode_u32_field<T>(
    field: nat,
    v: u32,
    rest: Seq<u8>,
    acc: T,
    apply: spec_fn(T, u64, u8, FieldBody) -> Option<T>,
)
    requires
        1 <= field < 16,
    ensures
        decode_fields(u32_field(field, v) + rest, acc, apply) == if v == 0 {
            decode_fields(rest, acc, apply)
        } else {
            match apply(acc, field as u64, 0, FieldBody::Varint(v as u64)) {
                Some(next) => decode_fields(rest, next, apply),
                None => None,
            }
        },
{
    if v == 0 {
        assert(u32_field(field, v) + rest =~= rest);
    } else {
        lemma_decode_varint_field(field, v as u64, rest, acc, apply);
    }
}

proof fn lemma_decode_bool_field<T>(
    field: nat,
    b: bool,
    rest: Seq<u8>,
    acc: T,
    apply: spec_fn(T, u64, u8, FieldBody) -> Option<T>,
)
    requires
        1 <= field < 16,
    ensures
        decode_fields(bool_field(field, b) + rest, acc, apply) == if !b {
            decode_fields(rest, acc, apply)
        } else {
            match apply(acc, field as u64, 0, FieldBody::Varint(1)) {
                Some(next) => decode_fields(rest, next, apply),
                None => None,
            }
        },
{
    if !b {
        assert(bool_field(field, b) + rest =~= rest);
    } else {
        lemma_decode_varint_field(field, 1, rest, acc, apply);
    }
}

proof fn lemma_decode_empty<T>(acc: T, apply: spec_fn(T, u64, u8, FieldBody) -> Option<T>)
    ensures
        decode_fields(Seq::<u8>::empty(), acc, apply) == Some(acc),
{
}

/// A Ping/Pong body decodes back to its nonce.
pub proof fn lemma_nonce_roundtrip(n: u32)
    ensures
        spec_decode_nonce(nonce_body(n)) == Some(n),
{
    let e = Seq::<u8>::empty();
    assert(nonce_body(n) =~= u32_field(1, n) + e);
    lemma_decode_u32_field(1, n, e, 0u32, nonce_fields());
    lemma_decode_empty(0u32, nonce_fields());
    if n != 0 {
        lemma_decode_empty(n, nonce_fields());
    }
}

/// A `RotStatus` body decodes back to the status it encodes.
pub proof fn lemma_rot_status_roundtrip(rs: RotStatus)
    ensures
        spec_decode_rot_status(rot_status_body(rs)) == Some(rs),
{
    let e = Seq::<u8>::empty();
    let f1 = u32_field(1, rs.silicon_rev);
    let f2 = u32_field(2, rs.caliptra_flow_status);
    let f3 = u32_field(3, rs.caliptra_boot_status);
    let f4 = bool_field(4, rs.secure_boot_enabled);
    let f5 = bool_field(5, rs.caliptra_rt_ready);
    assert(rot_status_body(rs) =~= f1 + (f2 + (f3 + (f4 + (f5 + e)))));
    let ap = rot_status_fields();
    let r0 = default_rot_status();
    let r1 = RotStatus { silicon_rev: rs.silicon_rev, ..r0 };
    let r2 = RotStatus { caliptra_flow_status: rs.caliptra_flow_status, ..r1 };
    let r3 = RotStatus { caliptra_boot_status: rs.caliptra_boot_status, ..r2 };
    let r4 = RotStatus { secure_boot_enabled: rs.secure_boot_enabled, ..r3 };
    let r5 = RotStatus { caliptra_rt_ready: rs.caliptra_rt_ready, ..r4 };
    assert(r5 == rs);
    lemma_decode_empty(r5, ap);
    lemma_decode_bool_field(5, rs.caliptra_rt_ready, e, r4, ap);
    lemma_decode_bool_field(4, rs.secure_boot_enabled, f5 + e, r3, ap);
    lemma_decode_u32_field(3, rs.caliptra_boot_status, f4 + (f5 + e), r2, ap);
    lemma_decode_u32_field(2, rs.caliptra_flow_status, f3 + (f4 + (f5 + e)), r1, ap);
    lemma_decode_u32_field(1, rs.silicon_rev, f2 + (f3 + (f4 + (f5 + e))), r0, ap);
}

/// Decoding an encoded envelope gives back the same envelope.
pub proof fn lemma_envelope_roundtrip(env: Envelope)
    ensures
        spec_decode(envelope_bytes(env)) == Some(env),
{
    let e = Seq::<u8>::empty();
    let ap = envelope_fields();
    let e0 = Envelope { seq: 0, payload: Payload::Unset };
    let e1 = Envelope { seq: env.seq, payload: Payload::Unset };
    let head = u32_field(1, env.seq);
    let p = payload_bytes(env.payload);
    assert(envelope_bytes(env) =~= head + (p + e));
    lemma_decode_u32_field(1, env.seq, p + e, e0, ap);
    lemma_body_lens(0, default_rot_status());
    match env.payload {
        Payload::Unset => {
            assert(p + e =~= e);
            lemma_decode_empty(e1, ap);
        },
        Payload::Ping(n) => {
            lemma_body_lens(n, default_rot_status());
            lemma_nonce_roundtrip(n);
            lemma_decode_len_field(2, nonce_body(n), e, e1, ap);
            lemma_decode_empty(env, ap);
        },
        Payload::Pong(n) => {
            lemma_body_lens(n, default_rot_status());
            lemma_nonce_roundtrip(n);
            lemma_decode_len_field(3, nonce_body(n), e, e1, ap);
            lemma_decode_empty(env, ap);
        },
        Payload::GetRotStatus => {
            lemma_decode_len_field(4, e, e, e1, ap);
            lemma_decode_empty(env, ap);
        },
        Payload::RotStatus(rs) => {
            lemma_body_lens(0, rs);
            lemma_rot_status_roundtrip(rs);
            lemma_decode_len_field(5, rot_status_body(rs), e, e1, ap);
            lemma_decode_empty(env, ap);
        },
    }
}


/// A key with any field number that fits a 64-bit varint parses back to the
/// field number and the wire type.
proof fn lemma_parse_key(field: nat, wire: nat, rest: Seq<u8>)
    requires
        wire < 8,
        field * 8 + wire < 0x1_0000_0000_0000_0000,
    ensures
        parse_varint(tag_bytes(field, wire) + rest) == Some(
            ((field * 8 + wire) as u64, tag_bytes(field, wire).len()),
        ),
        (((field * 8 + wire) as u64) % 8) as u8 == wire as u8,
        (((field * 8 + wire) as u64) / 8) as u64 == field as u64,
        tag_bytes(field, wire).len() >= 1,
{
    lemma_parse_varint_bytes((field * 8 + wire) as u64, rest);
    lemma_varint_bytes(field * 8 + wire, 0);
    assert(((field * 8 + wire) as u64) as nat == field * 8 + wire);
    assert((field * 8 + wire) % 8 == wire);
    assert((field * 8 + wire) / 8 == field);
}

/// Unknown fields are skipped: a varint field with any number other than
/// `seq` whose key fits a varint changes nothing that follows.
pub proof fn lemma_unknown_varint_field_skipped(field: nat, v: u64, env: Envelope, s: Seq<u8>)
    requires
        field != 1,
        field * 8 < 0x1_0000_0000_0000_0000,
    ensures
        decode_fields(tag_bytes(field, 0) + varint_bytes(v as nat) + s, env, envelope_fields())
            == decode_fields(s, env, envelope_fields()),
{
    let t = tag_bytes(field, 0);
    let b = varint_bytes(v as nat);
    let x = t + b + s;
    assert(x =~= t + (b + s));
    lemma_parse_key(field, 0, b + s);
    assert(x.skip(t.len() as int) =~= b + s);
    lemma_parse_varint_bytes(v, s);
    assert(x.skip((t.len() + b.len()) as int) =~= s);
}

/// Unknown fields are skipped: a length-delimited field with any number other
/// than a payload case whose key and length fit varints changes nothing that
/// follows.
#[verifier::spinoff_prover]
#[verifier::rlimit(40)]
pub proof fn lemma_unknown_len_field_skipped(field: nat, body: Seq<u8>, env: Envelope, s: Seq<u8>)
    requires
        !(2 <= field <= 5),
        field * 8 + 2 < 0x1_0000_0000_0000_0000,
        body.len() < 0x1_0000_0000_0000_0000,
    ensures
        decode_fields(len_field(field, body) + s, env, envelope_fields()) == decode_fields(
            s,
            env,
            envelope_fields(),
        ),
{
    let t = tag_bytes(field, 2);
    let l = varint_bytes(body.len());
    let x = len_field(field, body) + s;
    assert(x =~= t + (l + body + s));
    lemma_parse_key(field, 2, l + body + s);
    assert(x.skip(t.len() as int) =~= l + (body + s));
    lemma_parse_varint_bytes(body.len() as u64, body + s);
    let k = l.len();
    assert(x.skip(t.len() as int).subrange(k as int, (k + body.len()) as int) =~= body);
    assert(x.skip((t.len() + k + body.len()) as int) =~= s);
}

/// Unknown fields are skipped: a 64-bit (wire type 1) or 32-bit (wire type
/// 5) field with any number changes nothing that follows.
pub proof fn lemma_unknown_fixed_field_skipped(
    field: nat,
    wire: nat,
    value: Seq<u8>,
    env: Envelope,
    s: Seq<u8>,
)
    requires
        (wire == 1 && value.len() == 8) || (wire == 5 && value.len() == 4),
        field * 8 + wire < 0x1_0000_0000_0000_0000,
    ensures
        decode_fields(tag_bytes(field, wire) + value + s, env, envelope_fields())
            == decode_fields(s, env, envelope_fields()),
{
    let t = tag_bytes(field, wire);
    let x = t + value + s;
    assert(x =~= t + (value + s));
    lemma_parse_key(field, wire, value + s);
    assert(x.skip(t.len() as int) =~= value + s);
    assert(x.skip((t.len() + value.len()) as int) =~= s);
}

} // verus!
