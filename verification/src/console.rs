//! Allocation-free text formatting for the diagnostic UART consoles.
//!
//! The bare-metal diagnostics print counters, register values and banners
//! through a UART that takes one byte at a time; these functions compute the
//! bytes to send.
use vstd::prelude::*;

verus! {

/// `10^k`.
pub open spec fn pow10(k: nat) -> nat
    decreases k,
{
    if k == 0 {
        1
    } else {
        10 * pow10((k - 1) as nat)
    }
}

/// The ASCII decimal representation of `n`, most significant digit first,
/// without leading zeros (`"0"` for zero).
pub open spec fn decimal(n: nat) -> Seq<u8>
    decreases n,
{
    if n < 10 {
        seq![(n + 48) as u8]
    } else {
        decimal(n / 10).push((n % 10 + 48) as u8)
    }
}

proof fn lemma_decimal_len(n: nat, k: nat)
    requires
        1 <= k,
        n < pow10(k),
    ensures
        decimal(n).len() <= k,
        decimal(n).len() >= 1,
    decreases n,
{
    if n >= 10 {
        assert(k >= 2) by {
            if k == 1 {
                assert(pow10(1) == 10 * pow10(0));
            }
        }
        assert(pow10(k) == 10 * pow10((k - 1) as nat));
        lemma_decimal_len(n / 10, (k - 1) as nat);
    }
}

proof fn lemma_u32_decimal_len(n: u32)
    ensures
        1 <= decimal(n as nat).len() <= 10,
{
    reveal_with_fuel(pow10, 11);
    assert(pow10(10) == 10_000_000_000);
    lemma_decimal_len(n as nat, 10);
}

/// Write the decimal digits of `n` right-aligned into `buf`; they occupy
/// `buf[start..]` where `start` is returned.
pub fn decimal_digits(n: u32, buf: &mut [u8; 10]) -> (start: usize)
    ensures
        start < 10,
        final(buf)@.subrange(start as int, 10) == decimal(n as nat),
        final(buf)@.take(start as int) == old(buf)@.take(start as int),
{
    proof {
        lemma_u32_decimal_len(n);
    }
    if n == 0 {
        buf[9] = 48u8;
        assert(final(buf)@.subrange(9, 10) =~= decimal(0));
        assert(buf@.take(9) =~= old(buf)@.take(9));
        return 9;
    }
    let ghost orig = n as nat;
    let mut v = n;
    let mut i: usize = 10;
    proof {
        assert(buf@.subrange(10, 10) =~= Seq::<u8>::empty());
        assert(decimal(orig) =~= decimal(orig) + Seq::<u8>::empty());
    }
    while v > 0
        invariant
            i <= 10,
            buf@.len() == 10,
            decimal(orig).len() <= 10,
            v > 0 ==> decimal(orig) == decimal(v as nat) + buf@.subrange(i as int, 10),
            v == 0 ==> decimal(orig) == buf@.subrange(i as int, 10),
            buf@.take(i as int) == old(buf)@.take(i as int),
        decreases v,
    {
        proof {
            lemma_u32_decimal_len(v);
            assert(decimal(orig).len() == decimal(v as nat).len() + (10 - i));
        }
        let ghost before = buf@;
        let ghost cur = v as nat;
        i -= 1;
        buf[i] = 48u8 + (v % 10) as u8;
        v = v / 10;
        proof {
            assert(buf@.take(i as int) =~= before.take(i as int));
            let d = ((cur % 10) + 48) as u8;
            assert(buf@.subrange(i as int, 10) =~= seq![d] + before.subrange(i + 1, 10));
            if cur >= 10 {
                assert(decimal(cur) == decimal(cur / 10).push(d));
                assert(decimal(cur / 10) + (seq![d] + before.subrange(i + 1, 10)) =~= decimal(
                    cur / 10,
                ).push(d) + before.subrange(i + 1, 10));
            } else {
                assert(decimal(cur) =~= seq![d]);
            }
        }
    }
    i
}

/// The ASCII bytes of `"tick: "`.
pub open spec fn tick_prefix() -> Seq<u8> {
    seq![116u8, 105u8, 99u8, 107u8, 58u8, 32u8]
}

/// The ASCII bytes of `"count = "`.
pub open spec fn count_prefix() -> Seq<u8> {
    seq![99u8, 111u8, 117u8, 110u8, 116u8, 32u8, 61u8, 32u8]
}

/// The ASCII bytes of `"\r\n"`.
pub open spec fn crlf_bytes() -> Seq<u8> {
    seq![13u8, 10u8]
}

/// Format `"tick: N\r\n"` into `buf`, returning the number of bytes used.
pub fn format_tick(buf: &mut [u8; 32], n: u32) -> (len: usize)
    ensures
        len <= 32,
        final(buf)@.take(len as int) == tick_prefix() + decimal(n as nat)
            + crlf_bytes(),
        final(buf)@.skip(len as int) == old(buf)@.skip(len as int),
{
    let mut digits = [0u8; 10];
    let start = decimal_digits(n, &mut digits);
    buf[0] = 116u8;
    buf[1] = 105u8;
    buf[2] = 99u8;
    buf[3] = 107u8;
    buf[4] = 58u8;
    buf[5] = 32u8;
    let mut pos: usize = 6;
    let mut k = start;
    while k < 10
        invariant
            start <= k <= 10,
            start < 10,
            pos == 6 + (k - start),
            buf@.len() == 32,
            digits@.subrange(start as int, 10) == decimal(n as nat),
            buf@.take(6) == tick_prefix(),
            buf@.subrange(6, pos as int) == digits@.subrange(start as int, k as int),
            buf@.skip(pos as int) == old(buf)@.skip(pos as int),
            decimal(n as nat).len() <= 10,
        decreases 10 - k,
    {
        let ghost before = buf@;
        buf[pos] = digits[k];
        proof {
            assert(buf@.take(6) =~= before.take(6));
            assert forall|j: int| 0 <= j < 32 - (pos + 1) implies #[trigger] buf@.skip(pos + 1)[j] == old(
                buf,
            )@.skip(pos + 1)[j] by {
                assert(before.skip(pos as int)[j + 1] == old(buf)@.skip(pos as int)[j + 1]);
            }
            assert(buf@.skip(pos + 1) =~= old(buf)@.skip(pos + 1));
            assert(buf@.subrange(6, pos + 1) =~= before.subrange(6, pos as int).push(digits@[k as int]));
            assert(digits@.subrange(start as int, k + 1) =~= digits@.subrange(start as int, k as int).push(digits@[k as int]));
        }
        pos += 1;
        k += 1;
    }
    let ghost mid = buf@;
    buf[pos] = 13u8;
    buf[pos + 1] = 10u8;
    proof {
        assert(buf@.take(pos + 2) =~= mid.take(6) + mid.subrange(6, pos as int) + crlf_bytes());
        assert forall|j: int| 0 <= j < 32 - (pos + 2) implies #[trigger] buf@.skip(pos + 2)[j] == old(
            buf,
        )@.skip(pos + 2)[j] by {
            assert(mid.skip(pos as int)[j + 2] == old(buf)@.skip(pos as int)[j + 2]);
        }
        assert(buf@.skip(pos + 2) =~= old(buf)@.skip(pos + 2));
    }
    pos + 2
}

/// Format `"count = N\r\n"` into `buf`, returning the number of bytes used.
pub fn format_count(buf: &mut [u8; 32], n: u32) -> (len: usize)
    ensures
        len <= 32,
        final(buf)@.take(len as int) == count_prefix()
            + decimal(n as nat) + crlf_bytes(),
        final(buf)@.skip(len as int) == old(buf)@.skip(len as int),
{
    let mut digits = [0u8; 10];
    let start = decimal_digits(n, &mut digits);
    buf[0] = 99u8;
    buf[1] = 111u8;
    buf[2] = 117u8;
    buf[3] = 110u8;
    buf[4] = 116u8;
    buf[5] = 32u8;
    buf[6] = 61u8;
    buf[7] = 32u8;
    let mut pos: usize = 8;
    let mut k = start;
    while k < 10
        invariant
            start <= k <= 10,
            start < 10,
            pos == 8 + (k - start),
            buf@.len() == 32,
            digits@.subrange(start as int, 10) == decimal(n as nat),
            buf@.take(8) == count_prefix(),
            buf@.subrange(8, pos as int) == digits@.subrange(start as int, k as int),
            buf@.skip(pos as int) == old(buf)@.skip(pos as int),
            decimal(n as nat).len() <= 10,
        decreases 10 - k,
    {
        let ghost before = buf@;
        buf[pos] = digits[k];
        proof {
            assert(buf@.take(8) =~= before.take(8));
            assert forall|j: int| 0 <= j < 32 - (pos + 1) implies #[trigger] buf@.skip(pos + 1)[j] == old(
                buf,
            )@.skip(pos + 1)[j] by {
                assert(before.skip(pos as int)[j + 1] == old(buf)@.skip(pos as int)[j + 1]);
            }
            assert(buf@.skip(pos + 1) =~= old(buf)@.skip(pos + 1));
            assert(buf@.subrange(8, pos + 1) =~= before.subrange(8, pos as int).push(digits@[k as int]));
            assert(digits@.subrange(start as int, k + 1) =~= digits@.subrange(start as int, k as int).push(digits@[k as int]));
        }
        pos += 1;
        k += 1;
    }
    let ghost mid = buf@;
    buf[pos] = 13u8;
    buf[pos + 1] = 10u8;
    proof {
        assert(buf@.take(pos + 2) =~= mid.take(8) + mid.subrange(8, pos as int) + crlf_bytes());
        assert forall|j: int| 0 <= j < 32 - (pos + 2) implies #[trigger] buf@.skip(pos + 2)[j] == old(
            buf,
        )@.skip(pos + 2)[j] by {
            assert(mid.skip(pos as int)[j + 2] == old(buf)@.skip(pos as int)[j + 2]);
        }
        assert(buf@.skip(pos + 2) =~= old(buf)@.skip(pos + 2));
    }
    pos + 2
}

/// Write the digit character for the low nibble of `n` (`'0'` plus the
/// nibble, so values above 9 give the characters after `'9'`); returns the
/// number of bytes written.
pub fn format_nibble(n: u8, buf: &mut [u8; 16]) -> (len: usize)
    ensures
        len == 1,
        final(buf)@[0] == (48 + n % 16) as u8,
        forall|i: int| 1 <= i < 16 ==> final(buf)@[i] == old(buf)@[i],
{
    buf[0] = 48u8 + n % 16;
    1
}

/// The lowercase hexadecimal digit for a nibble.
pub open spec fn hex_digit(d: u32) -> u8 {
    if d < 10 {
        (48 + d) as u8
    } else {
        (87 + d) as u8
    }
}

/// Nibble `i` of `val`, counting from the most significant (0) to the least
/// significant (7).
pub open spec fn nibble(val: u32, i: int) -> u32 {
    (val >> ((7 - i) * 4) as u32) & 0xF
}

/// The eight lowercase hex digits of `val`, most significant first.
pub fn hex32(val: u32) -> (digits: [u8; 8])
    ensures
        forall|i: int| 0 <= i < 8 ==> digits@[i] == hex_digit(nibble(val, i)),
{
    let mut buf = [48u8; 8];
    let mut i: usize = 0;
    while i < 8
        invariant
            i <= 8,
            buf@.len() == 8,
            forall|k: int| 0 <= k < i ==> buf@[k] == hex_digit(nibble(val, k)),
        decreases 8 - i,
    {
        let shift = ((7 - i) * 4) as u32;
        let nib = (val >> shift) & 0xF;
        assert(nib < 16) by (bit_vector)
            requires
                nib == (val >> shift) & 0xF,
        ;
        buf[i] = if nib < 10 {
            48u8 + nib as u8
        } else {
            97u8 + (nib as u8 - 10)
        };
        i += 1;
    }
    buf
}

/// The two lowercase hex digits of a byte, most significant first.
pub fn hex_byte(val: u8) -> (digits: [u8; 2])
    ensures
        digits@[0] == hex_digit((val / 16) as u32),
        digits@[1] == hex_digit((val % 16) as u32),
{
    let hi = val / 16;
    let lo = val % 16;
    let h = if hi < 10 {
        48u8 + hi
    } else {
        97u8 + (hi - 10)
    };
    let l = if lo < 10 {
        48u8 + lo
    } else {
        97u8 + (lo - 10)
    };
    [h, l]
}

/// `s` with a carriage return inserted before every line feed.
pub open spec fn crlf(s: Seq<u8>) -> Seq<u8>
    decreases s.len(),
{
    if s.len() == 0 {
        seq![]
    } else if s.last() == 10 {
        crlf(s.drop_last()) + seq![13u8, 10u8]
    } else {
        crlf(s.drop_last()).push(s.last())
    }
}

/// The bytes a terminal needs for `s`: every `\n` becomes `\r\n`.
pub fn expand_newlines(s: &[u8]) -> (out: Vec<u8>)
    ensures
        out@ == crlf(s@),
{
    let mut out: Vec<u8> = Vec::new();
    let mut i: usize = 0;
    while i < s.len()
        invariant
            i <= s@.len(),
            out@ == crlf(s@.take(i as int)),
        decreases s@.len() - i,
    {
        let b = s[i];
        proof {
            assert(s@.take(i + 1).drop_last() =~= s@.take(i as int));
            assert(s@.take(i + 1).last() == b);
        }
        if b == 10u8 {
            out.push(13u8);
        }
        out.push(b);
        i += 1;
        proof {
            assert(out@ =~= crlf(s@.take(i as int)));
        }
    }
    proof {
        assert(s@.take(s@.len() as int) =~= s@);
    }
    out
}

} // verus!
