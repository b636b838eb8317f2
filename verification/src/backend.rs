//! Decisions of the AST1060 flash, crypto and SPI-monitor backends.
//!
//! The backends drive FMC/SPI memory windows, the HACE hash engine and the
//! RSA/ECDSA engines. What they decide before touching the hardware — which
//! chip-select window serves a request, how a write is split into pages, and
//! whether signature material has the lengths the engines accept — is here;
//! the register and engine accesses stay with the firmware.
use vstd::prelude::*;
use crate::flash::Slot;
use crate::manifest::SignatureAlgorithm;

verus! {

// ── Flash windows ────────────────────────────────────────────────────────────

/// Mapping from a logical firmware slot to one chip-select range of an SPI
/// controller `C`.
#[derive(Debug, Clone, Copy)]
pub struct FlashSlot<C> {
    pub slot: Slot,
    pub controller: C,
    pub ce: u8,
    pub offset: u32,
    pub size: u32,
}

/// Flash backend error; `E` is the SPI driver's error.
#[derive(Debug, Clone, Copy, PartialEq, Eq)]
pub enum Ast1060FlashError<E> {
    OutOfRange,
    InvalidChipSelect,
    Spi(E),
}

/// Size of a NOR page: a page program never crosses a page boundary.
pub const FLASH_PAGE_SIZE: u32 = 256;

/// Size of the sector that `erase_sector` erases.
pub const FLASH_SECTOR_SIZE: usize = 4096;

/// The first mapping, in table order, that serves `slot` and is large enough
/// to hold the slot-relative range ending at `end`.
pub open spec fn first_window<C>(slots: Seq<FlashSlot<C>>, slot: Slot, end: int) -> Option<int>
    decreases slots.len(),
{
    if slots.len() == 0 {
        None
    } else if slots[0].slot == slot && end <= slots[0].size {
        Some(0)
    } else {
        match first_window(slots.skip(1), slot, end) {
            Some(i) => Some(i + 1),
            None => None,
        }
    }
}

/// The index of the mapping that serves `len` bytes at `offset` of `slot`:
/// the length and the end of the range must fit in 32 bits.
pub open spec fn window_index<C>(slots: Seq<FlashSlot<C>>, slot: Slot, offset: u32, len: int) -> Option<
    int,
> {
    if len > u32::MAX || offset + len > u32::MAX {
        None
    } else {
        first_window(slots, slot, offset + len)
    }
}

proof fn lemma_first_window_bounds<C>(slots: Seq<FlashSlot<C>>, slot: Slot, end: int)
    ensures
        first_window(slots, slot, end) matches Some(i) ==> 0 <= i < slots.len() && slots[i].slot
            == slot && end <= slots[i].size && forall|k: int|
            0 <= k < i ==> !(slots[k].slot == slot && end <= slots[k].size),
        first_window(slots, slot, end) is None ==> forall|k: int|
            0 <= k < slots.len() ==> !(slots[k].slot == slot && end <= slots[k].size),
    decreases slots.len(),
{
    if slots.len() > 0 {
        lemma_first_window_bounds(slots.skip(1), slot, end);
        assert forall|k: int| 1 <= k < slots.len() implies slots.skip(1)[k - 1] == slots[k] by {}
    }
}

/// One page program of a write: the physical address, the number of bytes
/// and the slot-relative offset at which the write continues.
#[derive(Debug, Clone, Copy, PartialEq, Eq, Structural)]
pub struct PageWrite {
    pub physical: u32,
    pub len: usize,
    pub next_offset: u32,
}

/// The number of bytes of the next page program: what remains, but no more
/// than the rest of the page that `offset` lies in.
pub open spec fn page_chunk(offset: u32, remaining: int) -> int {
    let room = FLASH_PAGE_SIZE - offset % FLASH_PAGE_SIZE;
    if remaining < room {
        remaining
    } else {
        room
    }
}

/// AST1060 flash backend: a table of slot mappings.
pub struct Ast1060Flash<C, const N: usize> {
    slots: [FlashSlot<C>; N],
}

impl<C: Copy, const N: usize> Ast1060Flash<C, N> {
    /// The mapping table.
    pub closed spec fn table(&self) -> Seq<FlashSlot<C>> {
        self.slots@
    }

    /// Create a flash backend from static slot mappings.
    pub fn new(slots: [FlashSlot<C>; N]) -> (f: Self)
        ensures
            f.table() == slots@,
    {
        Ast1060Flash { slots }
    }

    /// The mapping that serves `len` bytes at slot-relative `offset` of
    /// `slot`: the first one in the table for that slot whose size reaches
    /// the end of the range.
    pub fn find<E>(&self, slot: Slot, offset: u32, len: usize) -> (r: Result<
        FlashSlot<C>,
        Ast1060FlashError<E>,
    >)
        ensures
            match window_index(self.table(), slot, offset, len as int) {
                Some(i) => r == Ok::<FlashSlot<C>, Ast1060FlashError<E>>(self.table()[i]),
                None => r == Err::<FlashSlot<C>, Ast1060FlashError<E>>(
                    Ast1060FlashError::OutOfRange,
                ),
            },
    {
        if len > u32::MAX as usize {
            return Err(Ast1060FlashError::OutOfRange);
        }
        let len32 = len as u32;
        let end = match offset.checked_add(len32) {
            Some(e) => e,
            None => return Err(Ast1060FlashError::OutOfRange),
        };
        proof {
            lemma_first_window_bounds(self.slots@, slot, end as int);
        }
        let mut i: usize = 0;
        while i < N
            invariant
                i <= N,
                self.slots@.len() == N,
                end == offset + len,
                forall|k: int|
                    0 <= k < i ==> !(self.slots@[k].slot == slot && end <= self.slots@[k].size),
                first_window(self.slots@, slot, end as int) matches Some(j) ==> 0 <= j < N
                    && self.slots@[j].slot == slot && end <= self.slots@[j].size && forall|k: int|
                    0 <= k < j ==> !(self.slots@[k].slot == slot && end <= self.slots@[k].size),
                first_window(self.slots@, slot, end as int) is None ==> forall|k: int|
                    0 <= k < N ==> !(self.slots@[k].slot == slot && end <= self.slots@[k].size),
            decreases N - i,
        {
            let mapping = self.slots[i];
            if mapping.slot == slot && end <= mapping.size {
                return Ok(mapping);
            }
            i += 1;
        }
        Err(Ast1060FlashError::OutOfRange)
    }

    /// The byte size of `slot`: that of its first mapping, or `None` when no
    /// mapping serves it.
    pub fn region_size(&self, slot: Slot) -> (r: Option<u32>)
        ensures
            match first_window(self.table(), slot, 0) {
                Some(i) => r == Some(self.table()[i].size),
                None => r is None,
            },
    {
        proof {
            lemma_first_window_bounds(self.slots@, slot, 0);
        }
        let mut i: usize = 0;
        while i < N
            invariant
                i <= N,
                self.slots@.len() == N,
                forall|k: int| 0 <= k < i ==> self.slots@[k].slot != slot,
                first_window(self.slots@, slot, 0) matches Some(j) ==> 0 <= j < N
                    && self.slots@[j].slot == slot && forall|k: int|
                    0 <= k < j ==> self.slots@[k].slot != slot,
                first_window(self.slots@, slot, 0) is None ==> forall|k: int|
                    0 <= k < N ==> self.slots@[k].slot != slot,
            decreases N - i,
        {
            if self.slots[i].slot == slot {
                return Some(self.slots[i].size);
            }
            i += 1;
        }
        None
    }

    /// The controller, chip select and physical address that serve `len`
    /// bytes at `offset` of `slot`, as a read or a sector erase uses them.
    pub fn locate<E>(&self, slot: Slot, offset: u32, len: usize) -> (r: Result<
        (C, u8, u32),
        Ast1060FlashError<E>,
    >)
        ensures
            match window_index(self.table(), slot, offset, len as int) {
                None => r == Err::<(C, u8, u32), Ast1060FlashError<E>>(
                    Ast1060FlashError::OutOfRange,
                ),
                Some(i) => {
                    let m = self.table()[i];
                    if m.ce > 1 {
                        r == Err::<(C, u8, u32), Ast1060FlashError<E>>(
                            Ast1060FlashError::InvalidChipSelect,
                        )
                    } else if m.offset + offset > u32::MAX {
                        r == Err::<(C, u8, u32), Ast1060FlashError<E>>(
                            Ast1060FlashError::OutOfRange,
                        )
                    } else {
                        r == Ok::<(C, u8, u32), Ast1060FlashError<E>>(
                            (m.controller, m.ce, (m.offset + offset) as u32),
                        )
                    }
                },
            },
    {
        let mapping = match self.find(slot, offset, len) {
            Ok(m) => m,
            Err(e) => return Err(e),
        };
        let (controller, ce) = match bus_select(&mapping) {
            Ok(b) => b,
            Err(e) => return Err(e),
        };
        match mapping.offset.checked_add(offset) {
            Some(physical) => Ok((controller, ce, physical)),
            None => Err(Ast1060FlashError::OutOfRange),
        }
    }
}

/// The controller and chip select of `mapping`; only chip selects 0 and 1
/// exist.
pub fn bus_select<C: Copy, E>(mapping: &FlashSlot<C>) -> (r: Result<(C, u8), Ast1060FlashError<E>>)
    ensures
        r == (if mapping.ce > 1 {
            Err::<(C, u8), Ast1060FlashError<E>>(Ast1060FlashError::InvalidChipSelect)
        } else {
            Ok::<(C, u8), Ast1060FlashError<E>>((mapping.controller, mapping.ce))
        }),
{
    if mapping.ce > 1 {
        return Err(Ast1060FlashError::InvalidChipSelect);
    }
    Ok((mapping.controller, mapping.ce))
}

/// The next page program of a write of `remaining` bytes at slot-relative
/// `offset` through `mapping`: as many bytes as remain, but no more than the
/// rest of the page; an address that does not fit in 32 bits is out of range.
pub fn next_page_write<C, E>(mapping: &FlashSlot<C>, offset: u32, remaining: usize) -> (r: Result<
    PageWrite,
    Ast1060FlashError<E>,
>)
    ensures
        r == (if mapping.offset + offset > u32::MAX || offset + page_chunk(
            offset,
            remaining as int,
        ) > u32::MAX {
            Err::<PageWrite, Ast1060FlashError<E>>(Ast1060FlashError::OutOfRange)
        } else {
            Ok::<PageWrite, Ast1060FlashError<E>>(
                PageWrite {
                    physical: (mapping.offset + offset) as u32,
                    len: page_chunk(offset, remaining as int) as usize,
                    next_offset: (offset + page_chunk(offset, remaining as int)) as u32,
                },
            )
        }),
        r matches Ok(w) ==> w.len <= remaining && offset % FLASH_PAGE_SIZE + w.len
            <= FLASH_PAGE_SIZE && (remaining > 0 ==> w.len > 0),
{
    assert(offset & 0xff == offset % 256) by (bit_vector);
    let page_remaining = (FLASH_PAGE_SIZE - (offset & 0xff)) as usize;
    let chunk_len = if remaining < page_remaining {
        remaining
    } else {
        page_remaining
    };
    let physical = match mapping.offset.checked_add(offset) {
        Some(p) => p,
        None => return Err(Ast1060FlashError::OutOfRange),
    };
    let next_offset = match offset.checked_add(chunk_len as u32) {
        Some(n) => n,
        None => return Err(Ast1060FlashError::OutOfRange),
    };
    Ok(PageWrite { physical, len: chunk_len, next_offset })
}

// ── Crypto parameters ────────────────────────────────────────────────────────

/// Crypto backend error; `H`, `R` and `D` are the errors of the hash, RSA and
/// ECDSA engines.
#[derive(Debug, Clone, Copy, PartialEq, Eq)]
pub enum Ast1060CryptoError<H, R, D> {
    InvalidLength,
    InvalidSignature,
    Hace(H),
    Rsa(R),
    Ecdsa(D),
}

/// Digest algorithm of an RSA signature.
#[derive(Debug, Clone, Copy, PartialEq, Eq, Structural)]
pub enum DigestAlgo {
    Sha256,
    Sha384,
    Sha512,
}

/// The digest algorithm of a digest of `len` bytes.
pub open spec fn digest_algo_of(len: int) -> Option<DigestAlgo> {
    if len == 32 {
        Some(DigestAlgo::Sha256)
    } else if len == 48 {
        Some(DigestAlgo::Sha384)
    } else if len == 64 {
        Some(DigestAlgo::Sha512)
    } else {
        None
    }
}

/// The digest algorithm of a digest of `len` bytes: SHA-256, -384 or -512.
pub fn digest_algo_from_len<H, R, D>(len: usize) -> (r: Result<DigestAlgo, Ast1060CryptoError<H, R, D>>)
    ensures
        r == (match digest_algo_of(len as int) {
            Some(a) => Ok::<DigestAlgo, Ast1060CryptoError<H, R, D>>(a),
            None => Err::<DigestAlgo, Ast1060CryptoError<H, R, D>>(
                Ast1060CryptoError::InvalidLength,
            ),
        }),
{
    match len {
        32 => Ok(DigestAlgo::Sha256),
        48 => Ok(DigestAlgo::Sha384),
        64 => Ok(DigestAlgo::Sha512),
        _ => Err(Ast1060CryptoError::InvalidLength),
    }
}

/// The RSA modulus size of a signature algorithm; ECDSA P-384 has none.
pub open spec fn spec_rsa_modulus_bits(algorithm: SignatureAlgorithm) -> Option<u32> {
    match algorithm {
        SignatureAlgorithm::EcdsaP384 => None,
        SignatureAlgorithm::Rsa2048 => Some(2048),
        SignatureAlgorithm::Rsa3072 => Some(3072),
        SignatureAlgorithm::Rsa4096 => Some(4096),
    }
}

/// Which engine verifies a signature: `None` for the ECDSA P-384 engine, the
/// modulus size for the RSA engine.
pub fn rsa_modulus_bits(algorithm: SignatureAlgorithm) -> (r: Option<u32>)
    ensures
        r == spec_rsa_modulus_bits(algorithm),
{
    match algorithm {
        SignatureAlgorithm::EcdsaP384 => None,
        SignatureAlgorithm::Rsa2048 => Some(2048),
        SignatureAlgorithm::Rsa3072 => Some(3072),
        SignatureAlgorithm::Rsa4096 => Some(4096),
    }
}

/// What the RSA engine is given: the digest algorithm, the modulus length in
/// bytes (the public key is the modulus followed by the exponent) and the
/// exponent length in bits.
#[derive(Debug, Clone, Copy, PartialEq, Eq, Structural)]
pub struct RsaParameters {
    pub digest_algo: DigestAlgo,
    pub modulus_len: usize,
    pub exp_bits: u32,
}

/// The RSA parameter rules: the signature is exactly one modulus long, the
/// public key is longer than the modulus, the digest has a known length, and
/// the exponent's bit length fits in 32 bits.
pub open spec fn rsa_parameters_of(
    digest_len: int,
    signature_len: int,
    public_key_len: int,
    mod_bits: u32,
) -> Option<RsaParameters> {
    let modulus_len = mod_bits / 8;
    if signature_len != modulus_len || public_key_len <= modulus_len {
        None
    } else {
        match digest_algo_of(digest_len) {
            None => None,
            Some(digest_algo) => if (public_key_len - modulus_len) * 8 > u32::MAX {
                None
            } else {
                Some(
                    RsaParameters {
                        digest_algo,
                        modulus_len: modulus_len as usize,
                        exp_bits: ((public_key_len - modulus_len) * 8) as u32,
                    },
                )
            },
        }
    }
}

/// Check RSA signature material and derive the engine parameters; any
/// length that does not fit is `InvalidLength`.
pub fn rsa_parameters<H, R, D>(
    digest_len: usize,
    signature_len: usize,
    public_key_len: usize,
    mod_bits: u32,
) -> (r: Result<RsaParameters, Ast1060CryptoError<H, R, D>>)
    ensures
        r == (match rsa_parameters_of(
            digest_len as int,
            signature_len as int,
            public_key_len as int,
            mod_bits,
        ) {
            Some(p) => Ok::<RsaParameters, Ast1060CryptoError<H, R, D>>(p),
            None => Err::<RsaParameters, Ast1060CryptoError<H, R, D>>(
                Ast1060CryptoError::InvalidLength,
            ),
        }),
{
    let modulus_len = (mod_bits / 8) as usize;
    if signature_len != modulus_len || public_key_len <= modulus_len {
        return Err(Ast1060CryptoError::InvalidLength);
    }
    let digest_algo = match digest_algo_from_len(digest_len) {
        Ok(a) => a,
        Err(e) => return Err(e),
    };
    let exponent_len = public_key_len - modulus_len;
    if exponent_len > (u32::MAX / 8) as usize {
        return Err(Ast1060CryptoError::InvalidLength);
    }
    Ok(RsaParameters { digest_algo, modulus_len, exp_bits: (exponent_len * 8) as u32 })
}

/// ECDSA P-384 material: a 48-byte digest, a 96-byte signature `r ‖ s` and a
/// 96-byte public key `Qx ‖ Qy`.
pub fn ecdsa_p384_lengths<H, R, D>(digest_len: usize, signature_len: usize, public_key_len: usize) -> (r:
    Result<(), Ast1060CryptoError<H, R, D>>)
    ensures
        r == (if digest_len == 48 && signature_len == 96 && public_key_len == 96 {
            Ok::<(), Ast1060CryptoError<H, R, D>>(())
        } else {
            Err::<(), Ast1060CryptoError<H, R, D>>(Ast1060CryptoError::InvalidLength)
        }),
{
    if digest_len != 48 || signature_len != 96 || public_key_len != 96 {
        return Err(Ast1060CryptoError::InvalidLength);
    }
    Ok(())
}

/// An engine that ran and answered "not valid" is an invalid signature.
pub fn engine_verdict<H, R, D>(valid: bool) -> (r: Result<(), Ast1060CryptoError<H, R, D>>)
    ensures
        r == (if valid {
            Ok::<(), Ast1060CryptoError<H, R, D>>(())
        } else {
            Err::<(), Ast1060CryptoError<H, R, D>>(Ast1060CryptoError::InvalidSignature)
        }),
{
    if valid {
        Ok(())
    } else {
        Err(Ast1060CryptoError::InvalidSignature)
    }
}

} // verus!
