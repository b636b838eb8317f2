use aspeed_rot::manifest::{
    AntiRollbackPolicy, HashAlgorithm, ImageDescriptor, ManifestError, PlatformFirmwareManifest,
    ProtectedRegion, RegionPermissions, SignatureAlgorithm, VerificationOutcome,
    VerificationTask,
};
use aspeed_rot::platform::{DefaultPolicy, PlatformCommand, PlatformPolicy};
use aspeed_rot::flash::RecoveryLevel;
use aspeed_rot::protocol::SecureState;
use aspeed_rot::sensor::{SensorInterface, SensorStatus, SensorType, SensorUnit};
use aspeed_rot::verify::{
    check_manifest, needs_verification, ImageVerifier, NoVerificationMaterial, TaskEvent,
    TaskStage, VerificationError, VerificationMaterial, VerificationMaterialProvider,
};

type Error = VerificationError<u8, u16>;

fn task(size: u32, hash: HashAlgorithm) -> VerificationTask {
    VerificationTask {
        offset: 0x100,
        size,
        hash,
        signature: SignatureAlgorithm::Rsa2048,
        svn: 0,
    }
}

#[test]
fn manifest_checks_before_images() {
    let regions = [ProtectedRegion {
        offset: 0,
        size: 0x1000,
        permissions: RegionPermissions::read_only(),
    }];
    let images = [ImageDescriptor {
        offset: 0,
        size: 0x100,
        hash: HashAlgorithm::Sha256,
        signature: SignatureAlgorithm::EcdsaP384,
        svn: 2,
    }];
    let m = PlatformFirmwareManifest { version: 1, protected_regions: &regions, images: &images };
    assert_eq!(check_manifest::<u8, u16>(&m, AntiRollbackPolicy { minimum_svn: 2 }), Ok(()));
    assert_eq!(
        check_manifest::<u8, u16>(&m, AntiRollbackPolicy { minimum_svn: 3 }),
        Err(Error::Manifest(ManifestError::RollbackDetected))
    );
    let empty = PlatformFirmwareManifest { version: 1, protected_regions: &regions, images: &[] };
    assert_eq!(
        check_manifest::<u8, u16>(&empty, AntiRollbackPolicy { minimum_svn: 0 }),
        Err(Error::Manifest(ManifestError::EmptyImages))
    );
    assert!(needs_verification(&m));
    assert!(!needs_verification(&empty));
}

type Stage = TaskStage<u8, u16>;
type Ev = TaskEvent<u8, u16>;

fn run(mut stage: Stage, events: Vec<Ev>) -> Stage {
    for e in events {
        stage = ImageVerifier::<4096, 48>::task_next(stage, e);
    }
    stage
}

#[test]
fn buffer_checks() {
    let v: ImageVerifier<4096, 48> = ImageVerifier::new();
    assert!(v.image.iter().all(|b| *b == 0));
    assert_eq!(
        v.begin_task::<u8, u16>(&task(4096, HashAlgorithm::Sha384)),
        Stage::FetchMaterial { image_len: 4096, hash: HashAlgorithm::Sha384 }
    );
    assert_eq!(
        v.begin_task::<u8, u16>(&task(0, HashAlgorithm::Sha384)),
        Stage::Done(Err(Error::ImageTooLarge))
    );
    assert_eq!(
        v.begin_task::<u8, u16>(&task(4097, HashAlgorithm::Sha256)),
        Stage::Done(Err(Error::ImageTooLarge))
    );
    assert_eq!(
        v.begin_task::<u8, u16>(&task(16, HashAlgorithm::Sha512)),
        Stage::Done(Err(Error::DigestBufferTooSmall))
    );
}

#[test]
fn task_succeeds_after_every_check() {
    let v: ImageVerifier<4096, 48> = ImageVerifier::new();
    let start = v.begin_task::<u8, u16>(&task(64, HashAlgorithm::Sha256));
    let done = run(
        start,
        vec![
            Ev::Material(Some(32)),
            Ev::ImageRead(Ok(())),
            Ev::Hashed(Ok(32)),
            Ev::DigestCompared(true),
            Ev::SignatureChecked(true),
        ],
    );
    assert_eq!(done, Stage::Done(Ok(())));
}

#[test]
fn task_failures() {
    let start = || Stage::FetchMaterial { image_len: 64, hash: HashAlgorithm::Sha256 };
    assert_eq!(run(start(), vec![Ev::Material(None)]), Stage::Done(Err(Error::KeyNotFound)));
    assert_eq!(
        run(start(), vec![Ev::Material(Some(48))]),
        Stage::Done(Err(Error::InvalidMaterial))
    );
    assert_eq!(
        run(start(), vec![Ev::Material(Some(32)), Ev::ImageRead(Err(7))]),
        Stage::Done(Err(Error::Flash(7)))
    );
    assert_eq!(
        run(start(), vec![Ev::Material(Some(32)), Ev::ImageRead(Ok(())), Ev::Hashed(Err(9))]),
        Stage::Done(Err(Error::Crypto(9)))
    );
    assert_eq!(
        run(
            start(),
            vec![
                Ev::Material(Some(32)),
                Ev::ImageRead(Ok(())),
                Ev::Hashed(Ok(32)),
                Ev::DigestCompared(false),
            ]
        ),
        Stage::Done(Err(Error::Outcome(VerificationOutcome::HashMismatch)))
    );
    assert_eq!(
        run(
            start(),
            vec![
                Ev::Material(Some(32)),
                Ev::ImageRead(Ok(())),
                Ev::Hashed(Ok(32)),
                Ev::DigestCompared(true),
                Ev::SignatureChecked(false),
            ]
        ),
        Stage::Done(Err(Error::Outcome(VerificationOutcome::SignatureMismatch)))
    );
}

#[test]
fn task_ignores_answers_to_other_stages() {
    let read = Stage::ReadImage { image_len: 8 };
    assert_eq!(run(read, vec![Ev::SignatureChecked(true)]), Stage::ReadImage { image_len: 8 });
    let done = run(Stage::Done(Err(Error::KeyNotFound)), vec![Ev::SignatureChecked(true)]);
    assert_eq!(done, Stage::Done(Err(Error::KeyNotFound)));
}

#[test]
fn missing_material_from_unprovisioned_provider() {
    let t = task(16, HashAlgorithm::Sha256);
    let m = NoVerificationMaterial.material_for(&t);
    assert!(m.is_none());
    let digest = [0u8; 32];
    let material = VerificationMaterial { expected_digest: &digest, signature: &[1], public_key: &[2] };
    assert_eq!(material.expected_digest.len(), HashAlgorithm::Sha256.digest_len());
}

#[test]
fn digest_comparison() {
    let mut v: ImageVerifier<16, 8> = ImageVerifier::default();
    v.digest = [1, 2, 3, 4, 5, 6, 7, 8];
    assert!(v.digest_matches(4, &[1, 2, 3, 4]));
    assert!(!v.digest_matches(4, &[1, 2, 3, 5]));
    assert!(!v.digest_matches(3, &[1, 2, 3, 4]));
    assert!(v.digest_matches(0, &[]));
    assert!(v.digest_matches(8, &[1, 2, 3, 4, 5, 6, 7, 8]));
}

#[test]
fn default_policy() {
    let p = DefaultPolicy;
    assert!(p.accepts_svn(3, 3));
    assert!(!p.accepts_svn(2, 3));
    assert!(p.accepts_recovery_level(RecoveryLevel::maximum()));
    assert!(p.accepts_recovery_level(RecoveryLevel::zero()));
    assert_eq!(p.current_secure_state(), SecureState::Unprovisioned);
    assert_ne!(PlatformCommand::EnterLockdown, PlatformCommand::TriggerRecovery);
}

#[test]
fn sensor_data_model() {
    let reading = (SensorType::Temperature, SensorInterface::Peci, SensorUnit::DegreesC);
    assert_eq!(reading.0, SensorType::Temperature);
    assert_ne!(SensorStatus::Nominal, SensorStatus::Fault);
    assert_ne!(SensorInterface::I2c, SensorInterface::Can);
    assert_ne!(SensorUnit::Rpm, SensorUnit::Watts);
}
