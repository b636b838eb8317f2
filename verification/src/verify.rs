//! Firmware image verification engine.
//!
//! Verifying a manifest is a sequence of decisions between platform calls:
//! validate the manifest and its anti-rollback policy, then for every image
//! check the buffers, look up signature material, read the image from flash,
//! hash it, compare the digest and verify the signature. The decisions are
//! the functions below; the embedding executor performs the flash, hash and
//! signature calls between them, in that order, and stops at the first error.
use vstd::prelude::*;
use crate::manifest::{
    HashAlgorithm,
    ManifestError,
    PlatformFirmwareManifest,
    AntiRollbackPolicy,
    VerificationOutcome,
    VerificationTask,
    manifest_error,
    rollback_ok,
    spec_digest_len,
    validate_anti_rollback,
    validate_manifest,
};

verus! {

/// Detached signature material for one verification task.
pub struct VerificationMaterial<'a> {
    pub expected_digest: &'a [u8],
    pub signature: &'a [u8],
    pub public_key: &'a [u8],
}

/// Supplies signature material for manifest verification tasks.
pub trait VerificationMaterialProvider {
    /// Return expected digest, signature, and public key for `task`.
    fn material_for(&self, task: &VerificationTask) -> Option<VerificationMaterial<'_>>;
}

/// Material provider for unprovisioned development mode.
pub struct NoVerificationMaterial;

impl VerificationMaterialProvider for NoVerificationMaterial {
    fn material_for(&self, _task: &VerificationTask) -> (r: Option<VerificationMaterial<'_>>)
        ensures
            r is None,
    {
        None
    }
}

/// Verification engine error.
#[derive(Debug, Clone, Copy, PartialEq, Eq)]
pub enum VerificationError<F, C> {
    Manifest(ManifestError),
    ImageTooLarge,
    DigestBufferTooSmall,
    InvalidMaterial,
    KeyNotFound,
    Flash(F),
    Crypto(C),
    Outcome(VerificationOutcome),
}

/// The manifest checks that precede image verification: structural
/// validation first, then the anti-rollback policy.
pub open spec fn manifest_verdict<F, C>(
    manifest: PlatformFirmwareManifest<'_>,
    rollback: AntiRollbackPolicy,
) -> Result<(), VerificationError<F, C>> {
    match manifest_error(manifest.protected_regions@, manifest.images@) {
        Some(e) => Err(VerificationError::Manifest(e)),
        None => if rollback_ok(manifest.images@, rollback) {
            Ok(())
        } else {
            Err(VerificationError::Manifest(ManifestError::RollbackDetected))
        },
    }
}

/// Validate `manifest` and its images' SVNs before verifying any image.
pub fn check_manifest<F, C>(
    manifest: &PlatformFirmwareManifest<'_>,
    rollback: AntiRollbackPolicy,
) -> (r: Result<(), VerificationError<F, C>>)
    ensures
        r == manifest_verdict::<F, C>(*manifest, rollback),
{
    match validate_manifest(manifest) {
        Ok(()) => {},
        Err(e) => return Err(VerificationError::Manifest(e)),
    }
    match validate_anti_rollback(manifest, rollback) {
        Ok(()) => Ok(()),
        Err(e) => Err(VerificationError::Manifest(e)),
    }
}

/// Whether a manifest has to be verified at all: one without images is
/// explicitly allowed in unprovisioned mode.
pub fn needs_verification(manifest: &PlatformFirmwareManifest<'_>) -> (b: bool)
    ensures
        b == (manifest.images@.len() > 0),
{
    manifest.images.len() != 0
}

/// Stage of verifying one image; every stage but `Done` names the platform
/// operation to perform next.
#[derive(Debug, PartialEq, Eq)]
pub enum TaskStage<F, C> {
    /// Ask the material provider for the task's signature material.
    FetchMaterial { image_len: usize, hash: HashAlgorithm },
    /// Read `image_len` bytes of the image from flash into the image buffer.
    ReadImage { image_len: usize },
    /// Hash the first `image_len` bytes of the image buffer into the digest
    /// buffer.
    Hash { image_len: usize },
    /// Compare the first `digest_len` digest bytes with the expected digest.
    CompareDigest { digest_len: usize },
    /// Verify the signature over the first `digest_len` digest bytes.
    VerifySignature { digest_len: usize },
    /// Finished with this result.
    Done(Result<(), VerificationError<F, C>>),
}

/// What the operation named by the previous stage returned.
#[derive(Debug, PartialEq, Eq)]
pub enum TaskEvent<F, C> {
    /// The provider's answer: the length of the expected digest, or `None`
    /// when it has no material for the task.
    Material(Option<usize>),
    /// The flash read's result.
    ImageRead(Result<(), F>),
    /// The hash engine's result: the number of digest bytes written.
    Hashed(Result<usize, C>),
    /// Whether the computed digest equals the expected one.
    DigestCompared(bool),
    /// Whether the signature engine accepted the signature.
    SignatureChecked(bool),
}

/// The first stage of a task: the image must be non-empty and fit the image
/// buffer, and the digest of its algorithm must fit the digest buffer.
pub open spec fn first_stage<F, C>(task: VerificationTask, image_buf: nat, digest_buf: nat) -> TaskStage<
    F,
    C,
> {
    if task.size == 0 || task.size > image_buf {
        TaskStage::Done(Err(VerificationError::ImageTooLarge))
    } else if spec_digest_len(task.hash) > digest_buf {
        TaskStage::Done(Err(VerificationError::DigestBufferTooSmall))
    } else {
        TaskStage::FetchMaterial { image_len: task.size as usize, hash: task.hash }
    }
}

/// The task rules. Missing material is `KeyNotFound`, an expected digest of
/// the wrong length `InvalidMaterial`; flash and hash errors are passed on; a
/// digest that differs is a hash mismatch and a rejected signature a
/// signature mismatch. Only a verified signature finishes with success. An
/// event that does not answer the current stage leaves it unchanged.
pub open spec fn task_step<F, C>(stage: TaskStage<F, C>, event: TaskEvent<F, C>) -> TaskStage<F, C> {
    match (stage, event) {
        (TaskStage::FetchMaterial { image_len, hash }, TaskEvent::Material(m)) => match m {
            None => TaskStage::Done(Err(VerificationError::KeyNotFound)),
            Some(len) => if len != spec_digest_len(hash) {
                TaskStage::Done(Err(VerificationError::InvalidMaterial))
            } else {
                TaskStage::ReadImage { image_len }
            },
        },
        (TaskStage::ReadImage { image_len }, TaskEvent::ImageRead(r)) => match r {
            Ok(()) => TaskStage::Hash { image_len },
            Err(e) => TaskStage::Done(Err(VerificationError::Flash(e))),
        },
        (TaskStage::Hash { image_len }, TaskEvent::Hashed(r)) => match r {
            Ok(n) => TaskStage::CompareDigest { digest_len: n },
            Err(e) => TaskStage::Done(Err(VerificationError::Crypto(e))),
        },
        (TaskStage::CompareDigest { digest_len }, TaskEvent::DigestCompared(same)) => if same {
            TaskStage::VerifySignature { digest_len }
        } else {
            TaskStage::Done(Err(VerificationError::Outcome(VerificationOutcome::HashMismatch)))
        },
        (TaskStage::VerifySignature { digest_len }, TaskEvent::SignatureChecked(valid)) => if valid {
            TaskStage::Done(Ok(()))
        } else {
            TaskStage::Done(Err(VerificationError::Outcome(VerificationOutcome::SignatureMismatch)))
        },
        _ => stage,
    }
}

/// The stage reached from `stage` after `events`, in order.
pub open spec fn task_run<F, C>(stage: TaskStage<F, C>, events: Seq<TaskEvent<F, C>>) -> TaskStage<
    F,
    C,
>
    decreases events.len(),
{
    if events.len() == 0 {
        stage
    } else {
        task_run(task_step(stage, events[0]), events.skip(1))
    }
}

/// Fixed-buffer image verifier.
///
/// `image` receives the image read from flash and `digest` the hash of it.
pub struct ImageVerifier<const IMAGE_BUF: usize, const DIGEST_BUF: usize> {
    pub image: [u8; IMAGE_BUF],
    pub digest: [u8; DIGEST_BUF],
}

impl<const IMAGE_BUF: usize, const DIGEST_BUF: usize> ImageVerifier<IMAGE_BUF, DIGEST_BUF> {
    /// Create a verifier with fixed stack/struct-owned buffers.
    pub fn new() -> (v: Self)
        ensures
            forall|i: int| 0 <= i < IMAGE_BUF ==> v.image@[i] == 0,
            forall|i: int| 0 <= i < DIGEST_BUF ==> v.digest@[i] == 0,
    {
        ImageVerifier { image: [0;IMAGE_BUF], digest: [0;DIGEST_BUF] }
    }

    /// Start verifying `task`: check that the image and its digest fit this
    /// verifier's buffers.
    pub fn begin_task<F, C>(&self, task: &VerificationTask) -> (s: TaskStage<F, C>)
        ensures
            s == first_stage::<F, C>(*task, IMAGE_BUF as nat, DIGEST_BUF as nat),
            s matches TaskStage::FetchMaterial { image_len, .. } ==> 0 < image_len <= IMAGE_BUF,
    {
        let image_len = task.size as usize;
        if image_len == 0 || image_len > IMAGE_BUF {
            return TaskStage::Done(Err(VerificationError::ImageTooLarge));
        }
        if task.hash.digest_len() > DIGEST_BUF {
            return TaskStage::Done(Err(VerificationError::DigestBufferTooSmall));
        }
        TaskStage::FetchMaterial { image_len, hash: task.hash }
    }

    /// Advance a task by what the operation of its stage returned. A hash
    /// engine never reports more digest bytes than the digest buffer holds.
    pub fn task_next<F, C>(stage: TaskStage<F, C>, event: TaskEvent<F, C>) -> (s: TaskStage<F, C>)
        requires
            event matches TaskEvent::Hashed(Ok(n)) ==> n <= DIGEST_BUF,
            stage matches TaskStage::CompareDigest { digest_len } ==> digest_len <= DIGEST_BUF,
            stage matches TaskStage::VerifySignature { digest_len } ==> digest_len <= DIGEST_BUF,
        ensures
            s == task_step(stage, event),
            s matches TaskStage::CompareDigest { digest_len } ==> digest_len <= DIGEST_BUF,
            s matches TaskStage::VerifySignature { digest_len } ==> digest_len <= DIGEST_BUF,
    {
        match (stage, event) {
            (TaskStage::FetchMaterial { image_len, hash }, TaskEvent::Material(m)) => match m {
                None => TaskStage::Done(Err(VerificationError::KeyNotFound)),
                Some(len) => if len != hash.digest_len() {
                    TaskStage::Done(Err(VerificationError::InvalidMaterial))
                } else {
                    TaskStage::ReadImage { image_len }
                },
            },
            (TaskStage::ReadImage { image_len }, TaskEvent::ImageRead(r)) => match r {
                Ok(()) => TaskStage::Hash { image_len },
                Err(e) => TaskStage::Done(Err(VerificationError::Flash(e))),
            },
            (TaskStage::Hash { image_len }, TaskEvent::Hashed(r)) => match r {
                Ok(n) => TaskStage::CompareDigest { digest_len: n },
                Err(e) => TaskStage::Done(Err(VerificationError::Crypto(e))),
            },
            (TaskStage::CompareDigest { digest_len }, TaskEvent::DigestCompared(same)) => if same {
                TaskStage::VerifySignature { digest_len }
            } else {
                TaskStage::Done(Err(VerificationError::Outcome(VerificationOutcome::HashMismatch)))
            },
            (TaskStage::VerifySignature { digest_len }, TaskEvent::SignatureChecked(valid)) => if valid {
                TaskStage::Done(Ok(()))
            } else {
                TaskStage::Done(
                    Err(VerificationError::Outcome(VerificationOutcome::SignatureMismatch)),
                )
            },
            (stage, _) => stage,
        }
    }

    /// Whether the first `digest_len` bytes of the digest buffer equal the
    /// expected digest.
    pub fn digest_matches(&self, digest_len: usize, expected: &[u8]) -> (b: bool)
        requires
            digest_len <= DIGEST_BUF,
        ensures
            b == (self.digest@.take(digest_len as int) == expected@),
    {
        if digest_len != expected.len() {
            assert(self.digest@.take(digest_len as int).len() != expected@.len());
            return false;
        }
        let mut i: usize = 0;
        while i < digest_len
            invariant
                i <= digest_len,
                digest_len <= DIGEST_BUF,
                digest_len == expected@.len(),
                self.digest@.len() == DIGEST_BUF,
                forall|k: int| 0 <= k < i ==> self.digest@[k] == expected@[k],
            decreases digest_len - i,
        {
            if self.digest[i] != expected[i] {
                assert(self.digest@.take(digest_len as int)[i as int] != expected@[i as int]);
                return false;
            }
            i += 1;
        }
        assert(self.digest@.take(digest_len as int) =~= expected@);
        true
    }
}

impl<const IMAGE_BUF: usize, const DIGEST_BUF: usize> Default for ImageVerifier<
    IMAGE_BUF,
    DIGEST_BUF,
> {
    fn default() -> (v: Self)
        ensures
            forall|i: int| 0 <= i < IMAGE_BUF ==> v.image@[i] == 0,
            forall|i: int| 0 <= i < DIGEST_BUF ==> v.digest@[i] == 0,
    {
        Self::new()
    }
}

// ── Laws ─────────────────────────────────────────────────────────────────────

/// A finished task stays finished: no event changes its result.
pub proof fn lemma_done_is_final<F, C>(
    r: Result<(), VerificationError<F, C>>,
    events: Seq<TaskEvent<F, C>>,
)
    ensures
        task_run(TaskStage::Done(r), events) == TaskStage::Done(r),
    decreases events.len(),
{
    if events.len() > 0 {
        lemma_done_is_final(r, events.skip(1));
    }
}

/// The flash read succeeded.
pub open spec fn image_read<F, C>(e: TaskEvent<F, C>) -> bool {
    e matches TaskEvent::ImageRead(Ok(_))
}

/// The hash engine produced a digest.
pub open spec fn hashed_digest<F, C>(e: TaskEvent<F, C>) -> bool {
    e matches TaskEvent::Hashed(Ok(_))
}

/// Which successful answers a task still needs from `stage` before it can
/// succeed.
pub open spec fn still_needed<F, C>(stage: TaskStage<F, C>, events: Seq<TaskEvent<F, C>>) -> bool {
    let material_ok = match stage {
        TaskStage::FetchMaterial { hash, .. } => exists|i: int|
            0 <= i < events.len() && events[i] == TaskEvent::<F, C>::Material(
                Some(spec_digest_len(hash) as usize),
            ),
        _ => true,
    };
    let read_ok = match stage {
        TaskStage::FetchMaterial { .. } | TaskStage::ReadImage { .. } => exists|i: int|
            0 <= i < events.len() && #[trigger] image_read(events[i]),
        _ => true,
    };
    let hashed_ok = match stage {
        TaskStage::FetchMaterial { .. } | TaskStage::ReadImage { .. } | TaskStage::Hash {
            ..
        } => exists|i: int| 0 <= i < events.len() && #[trigger] hashed_digest(events[i]),
        _ => true,
    };
    let digest_ok = match stage {
        TaskStage::Done(_) | TaskStage::VerifySignature { .. } => true,
        _ => exists|i: int|
            0 <= i < events.len() && events[i] == TaskEvent::<F, C>::DigestCompared(true),
    };
    let signature_ok = match stage {
        TaskStage::Done(_) => true,
        _ => exists|i: int|
            0 <= i < events.len() && events[i] == TaskEvent::<F, C>::SignatureChecked(true),
    };
    material_ok && read_ok && hashed_ok && digest_ok && signature_ok
}

proof fn lemma_needed_from<F, C>(stage: TaskStage<F, C>, events: Seq<TaskEvent<F, C>>)
    requires
        task_run(stage, events) == TaskStage::<F, C>::Done(Ok(())),
    ensures
        still_needed(stage, events),
    decreases events.len(),
{
    if events.len() == 0 {
        return;
    }
    let e = events[0];
    let rest = events.skip(1);
    let next = task_step(stage, e);
    lemma_needed_from(next, rest);
    assert forall|i: int| 0 <= i < rest.len() implies rest[i] == events[i + 1] by {}
    if let TaskStage::Done(r) = next {
        if !(stage is Done) {
            lemma_done_is_final(r, rest);
        }
    }
    match stage {
        TaskStage::FetchMaterial { hash, .. } => {
            if next != stage {
                assert(events[0] == TaskEvent::<F, C>::Material(
                    Some(spec_digest_len(hash) as usize),
                ));
            }
        },
        TaskStage::ReadImage { .. } => {
            if next != stage {
                assert(image_read(events[0]));
            }
        },
        TaskStage::Hash { .. } => {
            if next != stage {
                assert(hashed_digest(events[0]));
            }
        },
        TaskStage::CompareDigest { .. } => {
            if next != stage {
                assert(events[0] == TaskEvent::<F, C>::DigestCompared(true));
            }
        },
        TaskStage::VerifySignature { .. } => {
            if next != stage {
                assert(events[0] == TaskEvent::<F, C>::SignatureChecked(true));
            }
        },
        TaskStage::Done(_) => {},
    }
}

/// An image is accepted only after every check passed: whatever the events,
/// a task that started from its first stage and ended in success received
/// signature material of the right digest length, a successful flash read, a
/// digest from the hash engine, a matching digest comparison and a verified
/// signature.
pub proof fn lemma_task_succeeds_only_after_every_check<F, C>(
    task: VerificationTask,
    image_buf: nat,
    digest_buf: nat,
    events: Seq<TaskEvent<F, C>>,
)
    requires
        task_run(first_stage::<F, C>(task, image_buf, digest_buf), events) == TaskStage::<
            F,
            C,
        >::Done(Ok(())),
    ensures
        0 < task.size <= image_buf,
        spec_digest_len(task.hash) <= digest_buf,
        exists|i: int|
            0 <= i < events.len() && events[i] == TaskEvent::<F, C>::Material(
                Some(spec_digest_len(task.hash) as usize),
            ),
        exists|i: int| 0 <= i < events.len() && #[trigger] image_read(events[i]),
        exists|i: int| 0 <= i < events.len() && #[trigger] hashed_digest(events[i]),
        exists|i: int|
            0 <= i < events.len() && events[i] == TaskEvent::<F, C>::DigestCompared(true),
        exists|i: int|
            0 <= i < events.len() && events[i] == TaskEvent::<F, C>::SignatureChecked(true),
{
    let s = first_stage::<F, C>(task, image_buf, digest_buf);
    if let TaskStage::Done(r) = s {
        lemma_done_is_final(r, events);
    }
    lemma_needed_from(s, events);
}

/// The image length a stage works on, if it works on one.
pub open spec fn image_len_in<F, C>(stage: TaskStage<F, C>) -> Option<usize> {
    match stage {
        TaskStage::FetchMaterial { image_len, .. } => Some(image_len),
        TaskStage::ReadImage { image_len } => Some(image_len),
        TaskStage::Hash { image_len } => Some(image_len),
        _ => None,
    }
}

proof fn lemma_image_len_kept<F, C>(stage: TaskStage<F, C>, events: Seq<TaskEvent<F, C>>, n: usize)
    requires
        image_len_in(stage) is Some ==> image_len_in(stage) == Some(n),
    ensures
        image_len_in(task_run(stage, events)) is Some ==> image_len_in(task_run(stage, events))
            == Some(n),
    decreases events.len(),
{
    if events.len() > 0 {
        lemma_image_len_kept(task_step(stage, events[0]), events.skip(1), n);
    }
}

/// Every image operation of a task covers the whole image: whatever the
/// events, while a task is fetching material for, reading or hashing its
/// image, it does so for exactly `task.size` bytes, so the bytes read from
/// flash are the bytes hashed.
pub proof fn lemma_task_covers_whole_image<F, C>(
    task: VerificationTask,
    image_buf: nat,
    digest_buf: nat,
    events: Seq<TaskEvent<F, C>>,
)
    ensures
        image_len_in(task_run(first_stage::<F, C>(task, image_buf, digest_buf), events)) matches Some(
            n,
        ) ==> n == task.size,
        task_run(first_stage::<F, C>(task, image_buf, digest_buf), events) matches TaskStage::Hash {
            image_len,
        } ==> image_len == task.size,
{
    lemma_image_len_kept(
        first_stage::<F, C>(task, image_buf, digest_buf),
        events,
        task.size as usize,
    );
}

/// A successful flash read is followed by hashing the same number of bytes,
/// and a failed one ends the task with the flash error.
pub proof fn lemma_read_then_hash_same_length<F, C>(n: usize, r: Result<(), F>)
    ensures
        r is Ok ==> image_len_in(task_step(TaskStage::<F, C>::ReadImage { image_len: n }, TaskEvent::ImageRead(r)))
            == Some(n) && task_step(TaskStage::<F, C>::ReadImage { image_len: n }, TaskEvent::ImageRead(r)) is Hash,
        r matches Err(e) ==> task_step(TaskStage::<F, C>::ReadImage { image_len: n }, TaskEvent::ImageRead(r))
            == TaskStage::<F, C>::Done(Err(VerificationError::Flash(e))),
{
}

} // verus!
