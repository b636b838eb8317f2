use aspeed_rot::manifest::{
    validate_afm_descriptor, validate_anti_rollback, validate_key_descriptor, validate_manifest,
    AfmDescriptor, AfmError, AfmManifest, AntiRollbackPolicy, HashAlgorithm, ImageDescriptor,
    KeyDescriptor, KeyKind, KeyManifest, ManifestError, ManifestKeyError,
    PlatformFirmwareManifest, ProtectedRegion, RegionPermissions, SignatureAlgorithm,
    VerificationOutcome, VerificationQueue, VerificationRequest, VerificationTask,
};

fn region(offset: u32, size: u32, permissions: RegionPermissions) -> ProtectedRegion {
    ProtectedRegion { offset, size, permissions }
}

fn image(offset: u32, size: u32, svn: u32) -> ImageDescriptor {
    ImageDescriptor {
        offset,
        size,
        hash: HashAlgorithm::Sha384,
        signature: SignatureAlgorithm::EcdsaP384,
        svn,
    }
}

fn manifest<'a>(
    regions: &'a [ProtectedRegion],
    images: &'a [ImageDescriptor],
) -> PlatformFirmwareManifest<'a> {
    PlatformFirmwareManifest { version: 1, protected_regions: regions, images }
}

fn task(size: u32) -> VerificationTask {
    VerificationTask::from(image(0, size, 0))
}

#[test]
fn permissions_and_digest_lengths() {
    let ro = RegionPermissions::read_only();
    assert!(ro.read && !ro.write && !ro.execute);
    let rx = RegionPermissions::read_execute();
    assert!(rx.read && !rx.write && rx.execute);
    let rw = RegionPermissions::read_write();
    assert!(rw.read && rw.write && !rw.execute);
    assert!(ro.is_any_set());
    let none = RegionPermissions { read: false, write: false, execute: false };
    assert!(!none.is_any_set());
    assert_eq!(HashAlgorithm::Sha256.digest_len(), 32);
    assert_eq!(HashAlgorithm::Sha384.digest_len(), 48);
    assert_eq!(HashAlgorithm::Sha512.digest_len(), 64);
}

#[test]
fn region_and_image_ends() {
    let r = region(0x100, 0x100, RegionPermissions::read_only());
    assert_eq!(r.checked_end(), Some(0x200));
    assert_eq!(r.end(), 0x200);
    let big = region(0xFFFF_FFFF, 2, RegionPermissions::read_only());
    assert_eq!(big.checked_end(), None);
    assert_eq!(big.end(), u32::MAX);
    assert_eq!(image(10, 5, 0).checked_end(), Some(15));
    assert_eq!(image(u32::MAX, 1, 0).checked_end(), None);
}

#[test]
fn valid_manifest_passes() {
    let regions = [
        region(0, 0x1000, RegionPermissions::read_execute()),
        region(0x1000, 0x1000, RegionPermissions::read_write()),
    ];
    let images = [image(0, 0x800, 3), image(0x1000, 0x1000, 4)];
    let m = manifest(&regions, &images);
    assert_eq!(validate_manifest(&m), Ok(()));
    assert_eq!(validate_anti_rollback(&m, AntiRollbackPolicy { minimum_svn: 3 }), Ok(()));
    assert_eq!(
        validate_anti_rollback(&m, AntiRollbackPolicy { minimum_svn: 4 }),
        Err(ManifestError::RollbackDetected)
    );
}

#[test]
fn manifest_errors() {
    let ro = RegionPermissions::read_only();
    let none = RegionPermissions { read: false, write: false, execute: false };
    let ok_region = [region(0, 0x1000, ro)];
    let ok_image = [image(0, 0x10, 0)];
    assert_eq!(
        validate_manifest(&manifest(&ok_region, &[])),
        Err(ManifestError::EmptyImages)
    );
    assert_eq!(
        validate_manifest(&manifest(&[region(0, 0, ro)], &ok_image)),
        Err(ManifestError::EmptyProtectedRegion)
    );
    assert_eq!(
        validate_manifest(&manifest(&[region(0, 0x1000, none)], &ok_image)),
        Err(ManifestError::EmptyPermissions)
    );
    assert_eq!(
        validate_manifest(&manifest(&[region(u32::MAX, 2, ro)], &ok_image)),
        Err(ManifestError::RegionOverflow)
    );
    assert_eq!(
        validate_manifest(&manifest(&ok_region, &[image(0, 0, 0)])),
        Err(ManifestError::EmptyImage)
    );
    assert_eq!(
        validate_manifest(&manifest(&ok_region, &[image(u32::MAX, 2, 0)])),
        Err(ManifestError::ImageOverflow)
    );
    assert_eq!(
        validate_manifest(&manifest(&ok_region, &[image(0xF00, 0x200, 0)])),
        Err(ManifestError::ImageOutsideProtectedRegion)
    );
    assert_eq!(
        validate_manifest(&manifest(&[region(0, 0x1000, ro), region(0xFFF, 0x10, ro)], &ok_image)),
        Err(ManifestError::OverlappingProtectedRegions)
    );
}

#[test]
fn manifest_checks_regions_before_images() {
    let ro = RegionPermissions::read_only();
    // Both a region and an image are bad; the region error comes first.
    let regions = [region(0, 0, ro)];
    let images = [image(0, 0, 0)];
    assert_eq!(
        validate_manifest(&manifest(&regions, &images)),
        Err(ManifestError::EmptyProtectedRegion)
    );
    // Coverage is checked before overlap.
    let regions = [region(0, 0x1000, ro), region(0x800, 0x1000, ro)];
    let images = [image(0x4000, 0x10, 0)];
    assert_eq!(
        validate_manifest(&manifest(&regions, &images)),
        Err(ManifestError::ImageOutsideProtectedRegion)
    );
}

#[test]
fn tasks_from_images() {
    let images = [image(0x40, 0x80, 7)];
    let m = manifest(&[], &images);
    assert_eq!(m.verification_task_count(), 1);
    let t = m.verification_task(0).unwrap();
    assert_eq!(
        t,
        VerificationTask {
            offset: 0x40,
            size: 0x80,
            hash: HashAlgorithm::Sha384,
            signature: SignatureAlgorithm::EcdsaP384,
            svn: 7,
        }
    );
    assert_eq!(m.verification_task(1), None);
}

#[test]
fn outcomes() {
    assert!(VerificationOutcome::Passed.is_pass());
    assert!(!VerificationOutcome::Passed.is_fail());
    for o in [
        VerificationOutcome::HashMismatch,
        VerificationOutcome::SignatureMismatch,
        VerificationOutcome::KeyNotFound,
        VerificationOutcome::RollbackDetected,
        VerificationOutcome::InvalidDescriptor,
    ] {
        assert!(o.is_fail());
        assert!(!o.is_pass());
    }
}

#[test]
fn queue_is_fifo_and_bounded() {
    let mut q: VerificationQueue<2> = VerificationQueue::new();
    assert!(q.is_empty());
    let a = VerificationRequest::new(task(1), KeyKind::Pfm, 0);
    let b = VerificationRequest::new(task(2), KeyKind::Root, 1);
    let c = VerificationRequest::new(task(3), KeyKind::Afm, 2);
    assert!(q.push(a));
    assert!(q.push(b));
    assert!(q.is_full());
    assert!(!q.push(c));
    assert_eq!(q.len(), 2);
    assert_eq!(q.pop(), Some(a));
    assert!(q.push(c));
    assert_eq!(q.pop(), Some(b));
    assert_eq!(q.pop(), Some(c));
    assert_eq!(q.pop(), None);
    assert!(q.is_empty());
    let d: VerificationQueue<0> = VerificationQueue::default();
    assert!(d.is_full());
}

#[test]
fn request_fields() {
    let r = VerificationRequest::new(task(9), KeyKind::Recovery, 3);
    assert_eq!(r.task.size, 9);
    assert_eq!(r.key_kind, KeyKind::Recovery);
    assert_eq!(r.key_index, 3);
}

#[test]
fn keys() {
    let key = |kind, index, digest_offset, digest_size| KeyDescriptor {
        kind,
        index,
        hash: HashAlgorithm::Sha256,
        digest_offset,
        digest_size,
    };
    let keys = [
        key(KeyKind::Root, 0, 0, 32),
        key(KeyKind::Pfm, 1, 0x100, 48),
        key(KeyKind::Pfm, 1, 0x200, 48),
    ];
    let km = KeyManifest::new(&keys);
    assert!(!km.is_empty());
    assert_eq!(km.find(KeyKind::Pfm, 1), Some(keys[1]));
    assert_eq!(km.find(KeyKind::Afm, 0), None);
    assert!(KeyManifest::new(&[]).is_empty());
    assert_eq!(validate_key_descriptor(&keys[0]), Ok(()));
    assert_eq!(
        validate_key_descriptor(&key(KeyKind::Root, 0, 0, 0)),
        Err(ManifestKeyError::EmptyDigest)
    );
    let high = key(KeyKind::Root, 0, u32::MAX - 10, 32);
    assert!(high.has_digest());
    assert_eq!(high.checked_digest_end(), None);
    assert_eq!(validate_key_descriptor(&high), Err(ManifestKeyError::DigestOverflow));
    assert_eq!(keys[1].checked_digest_end(), Some(0x130));
}

#[test]
fn afm_descriptors() {
    let afm = |offset, size| AfmDescriptor { offset, size, svn: 1, hash: HashAlgorithm::Sha512 };
    let list = [afm(0, 0x10), afm(0x10, 0x10)];
    let m = AfmManifest::new(&list);
    assert_eq!(m.len(), 2);
    assert!(!m.is_empty());
    assert!(AfmManifest::new(&[]).is_empty());
    assert_eq!(afm(0x10, 0x10).checked_end(), Some(0x20));
    assert_eq!(validate_afm_descriptor(&afm(0, 1)), Ok(()));
    assert_eq!(validate_afm_descriptor(&afm(0, 0)), Err(AfmError::EmptyDescriptor));
    assert_eq!(validate_afm_descriptor(&afm(u32::MAX, 1)), Err(AfmError::Overflow));
}

#[test]
fn anti_rollback_policy() {
    let p = AntiRollbackPolicy { minimum_svn: 5 };
    assert!(p.accepts(5));
    assert!(p.accepts(6));
    assert!(!p.accepts(4));
}
