use aspeed_rot::backend::{
    bus_select, digest_algo_from_len, ecdsa_p384_lengths, engine_verdict, next_page_write,
    rsa_modulus_bits, rsa_parameters, Ast1060CryptoError, Ast1060Flash, Ast1060FlashError,
    DigestAlgo, FlashSlot, PageWrite, RsaParameters, FLASH_SECTOR_SIZE,
};
use aspeed_rot::flash::Slot;
use aspeed_rot::manifest::SignatureAlgorithm;

type FlashError = Ast1060FlashError<()>;
type CryptoError = Ast1060CryptoError<(), (), ()>;

fn slot(slot: Slot, controller: u8, ce: u8, offset: u32, size: u32) -> FlashSlot<u8> {
    FlashSlot { slot, controller, ce, offset, size }
}

fn backend() -> Ast1060Flash<u8, 3> {
    Ast1060Flash::new([
        slot(Slot::Active, 1, 0, 0x0, 0x1000),
        slot(Slot::Active, 2, 1, 0x10_0000, 0x8000),
        slot(Slot::Recovery, 2, 2, 0x20_0000, 0x8000),
    ])
}

#[test]
fn find_picks_first_window_that_fits() {
    let f = backend();
    let m = f.find::<()>(Slot::Active, 0, 0x1000).unwrap();
    assert_eq!((m.controller, m.offset), (1, 0));
    let m = f.find::<()>(Slot::Active, 0xF00, 0x200).unwrap();
    assert_eq!((m.controller, m.offset), (2, 0x10_0000));
    assert_eq!(f.find::<()>(Slot::Active, 0x7F00, 0x200).err(), Some(FlashError::OutOfRange));
    assert_eq!(f.find::<()>(Slot::Staging, 0, 1).err(), Some(FlashError::OutOfRange));
    assert_eq!(f.find::<()>(Slot::Active, u32::MAX, 2).err(), Some(FlashError::OutOfRange));
}

#[test]
fn region_sizes() {
    let f = backend();
    assert_eq!(f.region_size(Slot::Active), Some(0x1000));
    assert_eq!(f.region_size(Slot::Recovery), Some(0x8000));
    assert_eq!(f.region_size(Slot::Key), None);
}

#[test]
fn locate_checks_chip_select_and_physical_address() {
    let f = backend();
    assert_eq!(f.locate::<()>(Slot::Active, 0x10, 0x10), Ok((1, 0, 0x10)));
    assert_eq!(
        f.locate::<()>(Slot::Active, 0x2000, FLASH_SECTOR_SIZE),
        Ok((2, 1, 0x10_2000))
    );
    assert_eq!(
        f.locate::<()>(Slot::Recovery, 0, 1),
        Err(FlashError::InvalidChipSelect)
    );
    let high = Ast1060Flash::new([slot(Slot::State, 0, 0, 0xFFFF_F000, 0x2000)]);
    assert_eq!(high.locate::<()>(Slot::State, 0x1000, 0x10), Err(FlashError::OutOfRange));
    assert_eq!(high.locate::<()>(Slot::State, 0x10, 0x10), Ok((0, 0, 0xFFFF_F010)));
}

#[test]
fn bus_selection() {
    assert_eq!(bus_select::<u8, ()>(&slot(Slot::Key, 3, 1, 0, 1)), Ok((3, 1)));
    assert_eq!(
        bus_select::<u8, ()>(&slot(Slot::Key, 3, 2, 0, 1)),
        Err(FlashError::InvalidChipSelect)
    );
}

#[test]
fn writes_split_at_page_boundaries() {
    let m = slot(Slot::Active, 0, 0, 0x1000, 0x1000);
    // 0x300 bytes at offset 0xF0: 0x10, then 0x100, 0x100, 0xE0.
    let mut offset = 0xF0u32;
    let mut remaining = 0x300usize;
    let mut pages = Vec::new();
    while remaining > 0 {
        let w = next_page_write::<u8, ()>(&m, offset, remaining).unwrap();
        pages.push(w);
        offset = w.next_offset;
        remaining -= w.len;
    }
    assert_eq!(
        pages,
        vec![
            PageWrite { physical: 0x10F0, len: 0x10, next_offset: 0x100 },
            PageWrite { physical: 0x1100, len: 0x100, next_offset: 0x200 },
            PageWrite { physical: 0x1200, len: 0x100, next_offset: 0x300 },
            PageWrite { physical: 0x1300, len: 0xF0, next_offset: 0x3F0 },
        ]
    );
    let high = slot(Slot::Active, 0, 0, 0xFFFF_FF00, 0x1000);
    assert_eq!(next_page_write::<u8, ()>(&high, 0x100, 1), Err(FlashError::OutOfRange));
    // The last page of the address space: the offset after it does not fit.
    let low = slot(Slot::Active, 0, 0, 0, 0x1000);
    assert_eq!(
        next_page_write::<u8, ()>(&low, 0xFFFF_FF80, 0x100),
        Err(FlashError::OutOfRange)
    );
    assert_eq!(
        next_page_write::<u8, ()>(&low, 0xFFFF_FE80, 0x100),
        Ok(PageWrite { physical: 0xFFFF_FE80, len: 0x80, next_offset: 0xFFFF_FF00 })
    );
}

#[test]
fn digest_algorithms() {
    assert_eq!(digest_algo_from_len::<(), (), ()>(32), Ok(DigestAlgo::Sha256));
    assert_eq!(digest_algo_from_len::<(), (), ()>(48), Ok(DigestAlgo::Sha384));
    assert_eq!(digest_algo_from_len::<(), (), ()>(64), Ok(DigestAlgo::Sha512));
    assert_eq!(digest_algo_from_len::<(), (), ()>(20), Err(CryptoError::InvalidLength));
}

#[test]
fn engine_selection() {
    assert_eq!(rsa_modulus_bits(SignatureAlgorithm::EcdsaP384), None);
    assert_eq!(rsa_modulus_bits(SignatureAlgorithm::Rsa2048), Some(2048));
    assert_eq!(rsa_modulus_bits(SignatureAlgorithm::Rsa3072), Some(3072));
    assert_eq!(rsa_modulus_bits(SignatureAlgorithm::Rsa4096), Some(4096));
}

#[test]
fn rsa_material() {
    assert_eq!(
        rsa_parameters::<(), (), ()>(32, 256, 259, 2048),
        Ok(RsaParameters { digest_algo: DigestAlgo::Sha256, modulus_len: 256, exp_bits: 24 })
    );
    assert_eq!(
        rsa_parameters::<(), (), ()>(64, 512, 516, 4096),
        Ok(RsaParameters { digest_algo: DigestAlgo::Sha512, modulus_len: 512, exp_bits: 32 })
    );
    // Signature not one modulus long, key without exponent, unknown digest.
    assert_eq!(rsa_parameters::<(), (), ()>(32, 255, 259, 2048), Err(CryptoError::InvalidLength));
    assert_eq!(rsa_parameters::<(), (), ()>(32, 384, 384, 3072), Err(CryptoError::InvalidLength));
    assert_eq!(rsa_parameters::<(), (), ()>(33, 256, 259, 2048), Err(CryptoError::InvalidLength));
}

#[test]
fn ecdsa_material() {
    assert_eq!(ecdsa_p384_lengths::<(), (), ()>(48, 96, 96), Ok(()));
    assert_eq!(ecdsa_p384_lengths::<(), (), ()>(32, 96, 96), Err(CryptoError::InvalidLength));
    assert_eq!(ecdsa_p384_lengths::<(), (), ()>(48, 95, 96), Err(CryptoError::InvalidLength));
    assert_eq!(ecdsa_p384_lengths::<(), (), ()>(48, 96, 97), Err(CryptoError::InvalidLength));
}

#[test]
fn engine_answers() {
    assert_eq!(engine_verdict::<(), (), ()>(true), Ok(()));
    assert_eq!(engine_verdict::<(), (), ()>(false), Err(CryptoError::InvalidSignature));
}
