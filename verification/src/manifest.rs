//! Manifest management: PFM, CFM, PCD.
//!
//! All manifests are signed. The PFR core never operates without a verified
//! manifest. Platform implementations provide parsers via
//! [`crate::platform::ManifestParser`].
//!
//! | Manifest | Purpose |
//! |----------|---------|
//! | **PFM** | Expected SPI flash layout, address ranges, permissions |
//! | **CFM** | Component topology and expected measurements |
//! | **PCD** | Platform-specific configuration (GPIO, I2C, timeouts) |
use vstd::prelude::*;
use vstd::std_specs::convert::FromSpecImpl;
use crate::flash::{find_first, lemma_find_first_end, lemma_find_first_hit, lemma_find_first_skip};

verus! {

/// The first error that `check` reports for the elements of `s`, in order.
pub open spec fn first_error<T, E>(s: Seq<T>, check: spec_fn(T) -> Option<E>) -> Option<E>
    decreases s.len(),
{
    if s.len() == 0 {
        None
    } else {
        match check(s[0]) {
            Some(e) => Some(e),
            None => first_error(s.drop_first(), check),
        }
    }
}

proof fn lemma_first_error_step<T, E>(s: Seq<T>, check: spec_fn(T) -> Option<E>, i: int)
    requires
        0 <= i < s.len(),
    ensures
        first_error(s.skip(i), check) == match check(s[i]) {
            Some(e) => Some(e),
            None => first_error(s.skip(i + 1), check),
        },
{
    assert(s.skip(i).drop_first() =~= s.skip(i + 1));
}

proof fn lemma_first_error_end<T, E>(s: Seq<T>, check: spec_fn(T) -> Option<E>)
    ensures
        first_error(s.skip(s.len() as int), check) is None,
{
    assert(s.skip(s.len() as int).len() == 0);
}

/// `first_error` finds nothing exactly when every element passes.
pub proof fn lemma_first_error_none<T, E>(s: Seq<T>, check: spec_fn(T) -> Option<E>)
    ensures
        first_error(s, check) is None <==> forall|i: int| 0 <= i < s.len() ==> check(s[i]) is None,
    decreases s.len(),
{
    if s.len() > 0 {
        lemma_first_error_none(s.drop_first(), check);
        if check(s[0]) is None {
            assert forall|i: int| 0 <= i < s.len() && i > 0 implies check(s[i]) == check(
                s.drop_first()[i - 1],
            ) by {}
        }
    }
}

// ── RegionPermissions ─────────────────────────────────────────────────────────

/// Access policy for a PFM flash region.
#[derive(Debug, Clone, Copy, PartialEq, Eq, Structural)]
pub struct RegionPermissions {
    pub read: bool,
    pub write: bool,
    pub execute: bool,
}

impl RegionPermissions {
    /// Read-only access.
    pub fn read_only() -> (p: Self)
        ensures
            p == (RegionPermissions { read: true, write: false, execute: false }),
    {
        RegionPermissions { read: true, write: false, execute: false }
    }

    /// Read and execute access.
    pub fn read_execute() -> (p: Self)
        ensures
            p == (RegionPermissions { read: true, write: false, execute: true }),
    {
        RegionPermissions { read: true, write: false, execute: true }
    }

    /// Read and write access.
    pub fn read_write() -> (p: Self)
        ensures
            p == (RegionPermissions { read: true, write: true, execute: false }),
    {
        RegionPermissions { read: true, write: true, execute: false }
    }

    /// Return `true` if at least one access bit is set.
    pub fn is_any_set(&self) -> (b: bool)
        ensures
            b == (self.read || self.write || self.execute),
    {
        self.read || self.write || self.execute
    }
}

// ── Algorithm enums ───────────────────────────────────────────────────────────

/// Hash algorithm named by a manifest.
#[derive(Debug, Clone, Copy, PartialEq, Eq, Structural)]
pub enum HashAlgorithm {
    Sha256,
    Sha384,
    Sha512,
}

/// Digest length in bytes of each hash algorithm.
pub open spec fn spec_digest_len(h: HashAlgorithm) -> nat {
    match h {
        HashAlgorithm::Sha256 => 32,
        HashAlgorithm::Sha384 => 48,
        HashAlgorithm::Sha512 => 64,
    }
}

impl HashAlgorithm {
    /// Expected digest length in bytes for this algorithm.
    pub fn digest_len(self) -> (n: usize)
        ensures
            n == spec_digest_len(self),
    {
        match self {
            HashAlgorithm::Sha256 => 32,
            HashAlgorithm::Sha384 => 48,
            HashAlgorithm::Sha512 => 64,
        }
    }
}

/// Signature algorithm named by a manifest.
#[derive(Debug, Clone, Copy, PartialEq, Eq, Structural)]
pub enum SignatureAlgorithm {
    EcdsaP384,
    Rsa2048,
    Rsa3072,
    Rsa4096,
}

// ── ProtectedRegion / ImageDescriptor ─────────────────────────────────────────

/// One protected address range from a PFM.
#[derive(Debug, Clone, Copy, PartialEq, Eq, Structural)]
pub struct ProtectedRegion {
    pub offset: u32,
    pub size: u32,
    pub permissions: RegionPermissions,
}

/// Image metadata required for hashing and signature verification.
#[derive(Debug, Clone, Copy, PartialEq, Eq, Structural)]
pub struct ImageDescriptor {
    pub offset: u32,
    pub size: u32,
    pub hash: HashAlgorithm,
    pub signature: SignatureAlgorithm,
    pub svn: u32,
}

/// `offset + size` fits in a `u32`.
pub open spec fn end_fits(offset: u32, size: u32) -> bool {
    offset + size <= u32::MAX
}

/// `checked_add` of a start and a size.
pub open spec fn checked_end_of(offset: u32, size: u32) -> Option<u32> {
    if end_fits(offset, size) {
        Some((offset + size) as u32)
    } else {
        None
    }
}

/// The image lies inside the region, and neither end overflows.
pub open spec fn region_covers(r: ProtectedRegion, image: ImageDescriptor) -> bool {
    &&& end_fits(r.offset, r.size)
    &&& end_fits(image.offset, image.size)
    &&& image.offset >= r.offset
    &&& image.offset + image.size <= r.offset + r.size
}

impl ProtectedRegion {
    /// Exclusive end offset using checked arithmetic.
    ///
    /// Returns `None` on overflow.
    pub fn checked_end(&self) -> (r: Option<u32>)
        ensures
            r == checked_end_of(self.offset, self.size),
    {
        self.offset.checked_add(self.size)
    }

    /// Exclusive end using saturating arithmetic.
    ///
    /// Deprecated: prefer [`checked_end`](Self::checked_end), which detects
    /// overflow.
    pub fn end(&self) -> (r: u32)
        ensures
            r == (if end_fits(self.offset, self.size) {
                self.offset + self.size
            } else {
                u32::MAX as int
            }),
    {
        self.offset.saturating_add(self.size)
    }

    fn contains_image(&self, image: &ImageDescriptor) -> (b: bool)
        ensures
            b == region_covers(*self, *image),
    {
        match (self.checked_end(), image.checked_end()) {
            (Some(region_end), Some(image_end)) => {
                image.offset >= self.offset && image_end <= region_end
            },
            _ => false,
        }
    }
}

impl ImageDescriptor {
    /// Exclusive end offset; `None` on overflow.
    pub fn checked_end(&self) -> (r: Option<u32>)
        ensures
            r == checked_end_of(self.offset, self.size),
    {
        self.offset.checked_add(self.size)
    }
}

// ── PlatformFirmwareManifest ──────────────────────────────────────────────────

/// Minimal PFM model independent of any wire format.
///
/// Holds borrowed slices so no allocation is required.
#[derive(Debug, Clone, Copy, PartialEq, Eq)]
pub struct PlatformFirmwareManifest<'a> {
    pub version: u32,
    pub protected_regions: &'a [ProtectedRegion],
    pub images: &'a [ImageDescriptor],
}

/// The verification task for one image descriptor.
pub open spec fn task_of(image: ImageDescriptor) -> VerificationTask {
    VerificationTask {
        offset: image.offset,
        size: image.size,
        hash: image.hash,
        signature: image.signature,
        svn: image.svn,
    }
}

impl<'a> PlatformFirmwareManifest<'a> {
    /// Return the [`VerificationTask`] at `index`, if it exists.
    pub fn verification_task(&self, index: usize) -> (r: Option<VerificationTask>)
        ensures
            r == (if index < self.images@.len() {
                Some(task_of(self.images@[index as int]))
            } else {
                None
            }),
    {
        if index < self.images.len() {
            Some(VerificationTask::from(self.images[index]))
        } else {
            None
        }
    }

    /// Number of image verification tasks named by this manifest.
    pub fn verification_task_count(&self) -> (n: usize)
        ensures
            n == self.images@.len(),
    {
        self.images.len()
    }
}

// ── VerificationTask / VerificationRequest / VerificationOutcome ──────────────

/// Parser-independent work item consumed by the verification engine.
#[derive(Debug, Clone, Copy, PartialEq, Eq, Structural)]
pub struct VerificationTask {
    pub offset: u32,
    pub size: u32,
    pub hash: HashAlgorithm,
    pub signature: SignatureAlgorithm,
    pub svn: u32,
}

impl From<ImageDescriptor> for VerificationTask {
    fn from(image: ImageDescriptor) -> (t: Self) {
        VerificationTask {
            offset: image.offset,
            size: image.size,
            hash: image.hash,
            signature: image.signature,
            svn: image.svn,
        }
    }
}

impl FromSpecImpl<ImageDescriptor> for VerificationTask {
    open spec fn obeys_from_spec() -> bool {
        true
    }

    open spec fn from_spec(image: ImageDescriptor) -> VerificationTask {
        task_of(image)
    }
}

/// Work item combining a task with the key needed to verify it.
#[derive(Debug, Clone, Copy, PartialEq, Eq, Structural)]
pub struct VerificationRequest {
    pub task: VerificationTask,
    pub key_kind: KeyKind,
    pub key_index: u8,
}

impl VerificationRequest {
    /// Create a request pairing a task with a named key slot.
    pub fn new(task: VerificationTask, key_kind: KeyKind, key_index: u8) -> (r: Self)
        ensures
            r == (VerificationRequest { task, key_kind, key_index }),
    {
        VerificationRequest { task, key_kind, key_index }
    }
}

/// Outcome of a single image verification attempt.
#[derive(Debug, Clone, Copy, PartialEq, Eq, Structural)]
pub enum VerificationOutcome {
    Passed,
    HashMismatch,
    SignatureMismatch,
    KeyNotFound,
    RollbackDetected,
    InvalidDescriptor,
}

impl VerificationOutcome {
    /// Return `true` if verification passed.
    pub fn is_pass(&self) -> (b: bool)
        ensures
            b <==> *self == VerificationOutcome::Passed,
    {
        match self {
            VerificationOutcome::Passed => true,
            _ => false,
        }
    }

    /// Return `true` if verification failed.
    pub fn is_fail(&self) -> (b: bool)
        ensures
            b <==> *self != VerificationOutcome::Passed,
    {
        !self.is_pass()
    }
}

/// Fixed-capacity FIFO of verification work items; no heap required.
pub struct VerificationQueue<const N: usize> {
    items: [Option<VerificationRequest>; N],
    len: usize,
}

impl<const N: usize> View for VerificationQueue<N> {
    type V = Seq<VerificationRequest>;

    /// The queued requests, oldest first.
    closed spec fn view(&self) -> Seq<VerificationRequest> {
        self.items@.take(self.len as int).map_values(|o: Option<VerificationRequest>| o.unwrap())
    }
}

impl<const N: usize> VerificationQueue<N> {
    #[verifier::type_invariant]
    closed spec fn slots_consistent(self) -> bool {
        &&& self.len <= N
        &&& forall|k: int| 0 <= k < N ==> (self.items@[k] is Some <==> k < self.len)
    }

    /// Create an empty queue.
    pub fn new() -> (q: Self)
        ensures
            q@ == Seq::<VerificationRequest>::empty(),
    {
        let q = VerificationQueue { items: [None;N], len: 0 };
        assert(q@ =~= Seq::<VerificationRequest>::empty());
        q
    }

    /// Enqueue a request.  Returns `false` if the queue is full.
    pub fn push(&mut self, request: VerificationRequest) -> (ok: bool)
        ensures
            ok <==> old(self)@.len() < N,
            ok ==> final(self)@ == old(self)@.push(request),
            !ok ==> final(self)@ == old(self)@,
    {
        proof {
            use_type_invariant(&*self);
        }
        if self.len >= N {
            return false;
        }
        let ghost before = self@;
        let ghost items0 = self.items@;
        let len = self.len;
        let mut items = self.items;
        items[len] = Some(request);
        *self = VerificationQueue { items, len: len + 1 };
        assert(self@ =~= before.push(request)) by {
            assert forall|k: int| 0 <= k < len implies self.items@[k] == items0[k] by {}
        }
        true
    }

    /// Dequeue the oldest request, if any.
    pub fn pop(&mut self) -> (r: Option<VerificationRequest>)
        ensures
            old(self)@.len() == 0 ==> r is None && final(self)@ == old(self)@,
            old(self)@.len() > 0 ==> r == Some(old(self)@[0]) && final(self)@ == old(
                self,
            )@.drop_first(),
    {
        proof {
            use_type_invariant(&*self);
        }
        if self.len == 0 {
            return None;
        }
        let ghost before = self@;
        let ghost items0 = self.items@;
        let len = self.len;
        let mut items = self.items;
        let item = items[0];
        items[0] = None;
        let mut i: usize = 1;
        while i < len
            invariant
                1 <= i <= len,
                len <= N,
                items@.len() == N,
                items0.len() == N,
                forall|k: int| 0 <= k < i - 1 ==> items@[k] == items0[k + 1],
                items@[i - 1] is None,
                forall|k: int| i <= k < N ==> items@[k] == items0[k],
                forall|k: int| 0 <= k < N ==> (items0[k] is Some <==> k < len),
            decreases len - i,
        {
            let next = items[i];
            items[i] = None;
            items[i - 1] = next;
            i += 1;
        }
        assert forall|k: int| 0 <= k < N implies (items@[k] is Some <==> k < len - 1) by {
            if k < len - 1 {
                assert(items@[k] == items0[k + 1]);
            } else if k >= len {
                assert(items@[k] == items0[k]);
            }
        }
        *self = VerificationQueue { items, len: len - 1 };
        assert(self@ =~= before.drop_first());
        item
    }

    /// Number of items currently in the queue.
    pub fn len(&self) -> (n: usize)
        ensures
            n == self@.len(),
    {
        proof {
            use_type_invariant(self);
        }
        self.len
    }

    /// Return `true` if the queue contains no items.
    pub fn is_empty(&self) -> (b: bool)
        ensures
            b <==> self@.len() == 0,
    {
        proof {
            use_type_invariant(self);
        }
        self.len == 0
    }

    /// Return `true` if the queue has no remaining capacity.
    pub fn is_full(&self) -> (b: bool)
        ensures
            b <==> self@.len() >= N,
    {
        proof {
            use_type_invariant(self);
        }
        self.len >= N
    }
}

impl<const N: usize> Default for VerificationQueue<N> {
    fn default() -> (q: Self)
        ensures
            q@ == Seq::<VerificationRequest>::empty(),
    {
        Self::new()
    }
}

// ── Key types ─────────────────────────────────────────────────────────────────

/// Public-key class referenced by a signed manifest.
#[derive(Debug, Clone, Copy, PartialEq, Eq, Structural)]
pub enum KeyKind {
    Root,
    Pfm,
    Afm,
    Recovery,
}

/// Parser-independent key metadata.
#[derive(Debug, Clone, Copy, PartialEq, Eq, Structural)]
pub struct KeyDescriptor {
    pub kind: KeyKind,
    pub index: u8,
    pub hash: HashAlgorithm,
    pub digest_offset: u32,
    pub digest_size: u16,
}

impl KeyDescriptor {
    /// Return `true` if this descriptor has a non-empty digest range.
    pub fn has_digest(&self) -> (b: bool)
        ensures
            b == (self.digest_size != 0),
    {
        self.digest_size != 0
    }

    /// Exclusive end of the digest in flash; `None` on overflow.
    pub fn checked_digest_end(&self) -> (r: Option<u32>)
        ensures
            r == (if self.digest_offset + self.digest_size <= u32::MAX {
                Some((self.digest_offset + self.digest_size) as u32)
            } else {
                None
            }),
    {
        self.digest_offset.checked_add(self.digest_size as u32)
    }
}

/// A collection of key descriptors for a signed image set.
#[derive(Debug, Clone, Copy, PartialEq, Eq)]
pub struct KeyManifest<'a> {
    pub keys: &'a [KeyDescriptor],
}

impl<'a> KeyManifest<'a> {
    /// Create a key manifest from a borrowed slice.
    pub fn new(keys: &'a [KeyDescriptor]) -> (m: Self)
        ensures
            m.keys@ == keys@,
    {
        KeyManifest { keys }
    }

    /// Return the first descriptor matching `kind` and `index`.
    pub fn find(&self, kind: KeyKind, index: u8) -> (r: Option<KeyDescriptor>)
        ensures
            r == find_first(self.keys@, |k: KeyDescriptor| k.kind == kind && k.index == index),
    {
        let ghost p = |k: KeyDescriptor| k.kind == kind && k.index == index;
        let mut i: usize = 0;
        proof {
            assert(self.keys@.skip(0) =~= self.keys@);
        }
        while i < self.keys.len()
            invariant
                i <= self.keys@.len(),
                p == (|k: KeyDescriptor| k.kind == kind && k.index == index),
                find_first(self.keys@, p) == find_first(self.keys@.skip(i as int), p),
            decreases self.keys@.len() - i,
        {
            let k = self.keys[i];
            if k.kind == kind && k.index == index {
                proof {
                    lemma_find_first_hit(self.keys@, p, i as int);
                }
                return Some(k);
            }
            proof {
                lemma_find_first_skip(self.keys@, p, i as int);
            }
            i += 1;
        }
        proof {
            lemma_find_first_end(self.keys@, p);
        }
        None
    }

    /// Return `true` if there are no key descriptors.
    pub fn is_empty(&self) -> (b: bool)
        ensures
            b == (self.keys@.len() == 0),
    {
        self.keys.len() == 0
    }
}

// ── AFM types ─────────────────────────────────────────────────────────────────

/// Attestation firmware manifest descriptor independent of wire format.
#[derive(Debug, Clone, Copy, PartialEq, Eq, Structural)]
pub struct AfmDescriptor {
    pub offset: u32,
    pub size: u32,
    pub svn: u32,
    pub hash: HashAlgorithm,
}

impl AfmDescriptor {
    /// Exclusive end offset; `None` on overflow.
    pub fn checked_end(&self) -> (r: Option<u32>)
        ensures
            r == checked_end_of(self.offset, self.size),
    {
        self.offset.checked_add(self.size)
    }
}

/// A collection of AFM descriptors for the attestation subsystem.
#[derive(Debug, Clone, Copy, PartialEq, Eq)]
pub struct AfmManifest<'a> {
    pub descriptors: &'a [AfmDescriptor],
}

impl<'a> AfmManifest<'a> {
    /// Create an AFM manifest from a borrowed slice.
    pub fn new(descriptors: &'a [AfmDescriptor]) -> (m: Self)
        ensures
            m.descriptors@ == descriptors@,
    {
        AfmManifest { descriptors }
    }

    /// Number of AFM descriptors.
    pub fn len(&self) -> (n: usize)
        ensures
            n == self.descriptors@.len(),
    {
        self.descriptors.len()
    }

    /// Return `true` if there are no descriptors.
    pub fn is_empty(&self) -> (b: bool)
        ensures
            b == (self.descriptors@.len() == 0),
    {
        self.descriptors.len() == 0
    }
}

// ── Anti-rollback ─────────────────────────────────────────────────────────────

/// Anti-rollback policy supplied by storage or OTP-specific code.
///
/// Deliberately agnostic of OTP hardware; the OTP driver resolves the
/// minimum SVN and passes it in.
#[derive(Debug, Clone, Copy, PartialEq, Eq, Structural)]
pub struct AntiRollbackPolicy {
    pub minimum_svn: u32,
}

impl AntiRollbackPolicy {
    /// Return `true` if the supplied SVN is acceptable.
    pub fn accepts(&self, svn: u32) -> (b: bool)
        ensures
            b == (svn >= self.minimum_svn),
    {
        svn >= self.minimum_svn
    }
}

// ── Error types ───────────────────────────────────────────────────────────────

/// Manifest-level policy validation error.
#[derive(Debug, Clone, Copy, PartialEq, Eq, Structural)]
pub enum ManifestError {
    EmptyImages,
    EmptyProtectedRegion,
    EmptyImage,
    EmptyPermissions,
    RegionOverflow,
    ImageOverflow,
    OverlappingProtectedRegions,
    ImageOutsideProtectedRegion,
    RollbackDetected,
}

/// Key descriptor validation error.
#[derive(Debug, Clone, Copy, PartialEq, Eq, Structural)]
pub enum ManifestKeyError {
    EmptyDigest,
    DigestOverflow,
}

/// AFM descriptor validation error.
#[derive(Debug, Clone, Copy, PartialEq, Eq, Structural)]
pub enum AfmError {
    EmptyDescriptor,
    Overflow,
}


// ── Validation functions ──────────────────────────────────────────────────────

/// Validate a key descriptor for self-consistency.
pub fn validate_key_descriptor(key: &KeyDescriptor) -> (r: Result<(), ManifestKeyError>)
    ensures
        r == (if key.digest_size == 0 {
            Err(ManifestKeyError::EmptyDigest)
        } else if key.digest_offset + key.digest_size > u32::MAX {
            Err(ManifestKeyError::DigestOverflow)
        } else {
            Ok(())
        }),
{
    if !key.has_digest() {
        return Err(ManifestKeyError::EmptyDigest);
    }
    if key.checked_digest_end().is_none() {
        return Err(ManifestKeyError::DigestOverflow);
    }
    Ok(())
}

/// Validate an AFM descriptor for self-consistency.
pub fn validate_afm_descriptor(afm: &AfmDescriptor) -> (r: Result<(), AfmError>)
    ensures
        r == (if afm.size == 0 {
            Err(AfmError::EmptyDescriptor)
        } else if !end_fits(afm.offset, afm.size) {
            Err(AfmError::Overflow)
        } else {
            Ok(())
        }),
{
    if afm.size == 0 {
        return Err(AfmError::EmptyDescriptor);
    }
    if afm.checked_end().is_none() {
        return Err(AfmError::Overflow);
    }
    Ok(())
}

/// Every image of the manifest carries an SVN the policy accepts.
pub open spec fn rollback_ok(images: Seq<ImageDescriptor>, policy: AntiRollbackPolicy) -> bool {
    forall|i: int| 0 <= i < images.len() ==> (#[trigger] images[i]).svn >= policy.minimum_svn
}

/// Validate image descriptors against an anti-rollback policy.
pub fn validate_anti_rollback(
    manifest: &PlatformFirmwareManifest<'_>,
    policy: AntiRollbackPolicy,
) -> (r: Result<(), ManifestError>)
    ensures
        r == (if rollback_ok(manifest.images@, policy) {
            Ok(())
        } else {
            Err(ManifestError::RollbackDetected)
        }),
{
    let mut i: usize = 0;
    while i < manifest.images.len()
        invariant
            i <= manifest.images@.len(),
            forall|k: int| 0 <= k < i ==> (#[trigger] manifest.images@[k]).svn >= policy.minimum_svn,
        decreases manifest.images@.len() - i,
    {
        if !policy.accepts(manifest.images[i].svn) {
            assert(manifest.images@[i as int].svn < policy.minimum_svn);
            return Err(ManifestError::RollbackDetected);
        }
        i += 1;
    }
    Ok(())
}

/// The problem with one protected region, if any: it must be non-empty, grant
/// some access, and end within the 32-bit address space.
pub open spec fn region_check(r: ProtectedRegion) -> Option<ManifestError> {
    if r.size == 0 {
        Some(ManifestError::EmptyProtectedRegion)
    } else if !(r.permissions.read || r.permissions.write || r.permissions.execute) {
        Some(ManifestError::EmptyPermissions)
    } else if !end_fits(r.offset, r.size) {
        Some(ManifestError::RegionOverflow)
    } else {
        None
    }
}

/// Some region of `regions` covers `image`.
pub open spec fn image_covered(regions: Seq<ProtectedRegion>, image: ImageDescriptor) -> bool {
    exists|k: int| 0 <= k < regions.len() && region_covers(#[trigger] regions[k], image)
}

/// The problem with one image, if any: it must be non-empty, end within the
/// 32-bit address space, and lie inside one of the protected regions.
pub open spec fn image_check(regions: Seq<ProtectedRegion>, image: ImageDescriptor) -> Option<
    ManifestError,
> {
    if image.size == 0 {
        Some(ManifestError::EmptyImage)
    } else if !end_fits(image.offset, image.size) {
        Some(ManifestError::ImageOverflow)
    } else if !image_covered(regions, image) {
        Some(ManifestError::ImageOutsideProtectedRegion)
    } else {
        None
    }
}

/// Two distinct protected regions share an address.
pub open spec fn regions_overlap(rs: Seq<ProtectedRegion>) -> bool {
    exists|i: int, j: int|
        0 <= i < j < rs.len() && #[trigger] rs[i].offset < rs[j].offset + rs[j].size
            && #[trigger] rs[j].offset < rs[i].offset + rs[i].size
}

/// The error `validate_manifest` reports: first an empty image list, then the
/// first bad region, then the first bad image, then any overlap.
pub open spec fn manifest_error(
    regions: Seq<ProtectedRegion>,
    images: Seq<ImageDescriptor>,
) -> Option<ManifestError> {
    if images.len() == 0 {
        Some(ManifestError::EmptyImages)
    } else {
        match first_error(regions, |r: ProtectedRegion| region_check(r)) {
            Some(e) => Some(e),
            None => match first_error(images, |img: ImageDescriptor| image_check(regions, img)) {
                Some(e) => Some(e),
                None => if regions_overlap(regions) {
                    Some(ManifestError::OverlappingProtectedRegions)
                } else {
                    None
                },
            },
        }
    }
}

/// A structurally correct PFM: at least one image; every region non-empty,
/// with some access and no overflow; every image non-empty, without overflow
/// and covered by a protected region; no two regions overlap.
pub open spec fn manifest_valid(regions: Seq<ProtectedRegion>, images: Seq<ImageDescriptor>) -> bool {
    &&& images.len() > 0
    &&& forall|i: int| 0 <= i < regions.len() ==> region_check(#[trigger] regions[i]) is None
    &&& forall|i: int| 0 <= i < images.len() ==> image_check(regions, #[trigger] images[i]) is None
    &&& !regions_overlap(regions)
}

/// The checks find no problem exactly when the manifest is valid.
pub proof fn lemma_manifest_error_none_iff_valid(
    regions: Seq<ProtectedRegion>,
    images: Seq<ImageDescriptor>,
)
    ensures
        manifest_error(regions, images) is None <==> manifest_valid(regions, images),
{
    let rc = |r: ProtectedRegion| region_check(r);
    let ic = |img: ImageDescriptor| image_check(regions, img);
    lemma_first_error_none(regions, rc);
    lemma_first_error_none(images, ic);
}

fn image_is_covered(regions: &[ProtectedRegion], image: &ImageDescriptor) -> (b: bool)
    ensures
        b == image_covered(regions@, *image),
{
    let mut k: usize = 0;
    while k < regions.len()
        invariant
            k <= regions@.len(),
            forall|m: int| 0 <= m < k ==> !region_covers(#[trigger] regions@[m], *image),
        decreases regions@.len() - k,
    {
        if regions[k].contains_image(image) {
            return true;
        }
        k += 1;
    }
    false
}

/// Validate a PFM for structural correctness.
///
/// Checks: non-empty image list; no empty/overflowing/overlapping regions;
/// every image is covered by a protected region. The error reported is the
/// first one found in that order (see [`manifest_error`]); success means
/// exactly [`manifest_valid`].
#[verifier::loop_isolation(false)]
pub fn validate_manifest(manifest: &PlatformFirmwareManifest<'_>) -> (r: Result<(), ManifestError>)
    ensures
        r == (match manifest_error(manifest.protected_regions@, manifest.images@) {
            Some(e) => Err(e),
            None => Ok(()),
        }),
        r is Ok <==> manifest_valid(manifest.protected_regions@, manifest.images@),
{
    let ghost rs = manifest.protected_regions@;
    let ghost ims = manifest.images@;
    let ghost rc = |r: ProtectedRegion| region_check(r);
    let ghost ic = |img: ImageDescriptor| image_check(rs, img);
    proof {
        lemma_manifest_error_none_iff_valid(rs, ims);
        lemma_first_error_none(rs, rc);
        lemma_first_error_none(ims, ic);
    }
    if manifest.images.len() == 0 {
        return Err(ManifestError::EmptyImages);
    }
    let regions = manifest.protected_regions;
    let images = manifest.images;

    let mut i: usize = 0;
    proof {
        assert(rs.skip(0) =~= rs);
    }
    while i < regions.len()
        invariant
            i <= rs.len(),
            rs == regions@,
            rc == (|r: ProtectedRegion| region_check(r)),
            first_error(rs, rc) == first_error(rs.skip(i as int), rc),
        decreases rs.len() - i,
    {
        let region = regions[i];
        proof {
            lemma_first_error_step(rs, rc, i as int);
        }
        if region.size == 0 {
            return Err(ManifestError::EmptyProtectedRegion);
        }
        if !region.permissions.is_any_set() {
            return Err(ManifestError::EmptyPermissions);
        }
        if region.checked_end().is_none() {
            return Err(ManifestError::RegionOverflow);
        }
        i += 1;
    }
    proof {
        lemma_first_error_end(rs, rc);
    }

    let mut i: usize = 0;
    proof {
        assert(ims.skip(0) =~= ims);
    }
    while i < images.len()
        invariant
            i <= ims.len(),
            ims == images@,
            rs == regions@,
            ic == (|img: ImageDescriptor| image_check(rs, img)),
            first_error(ims, ic) == first_error(ims.skip(i as int), ic),
        decreases ims.len() - i,
    {
        let image = images[i];
        proof {
            lemma_first_error_step(ims, ic, i as int);
        }
        if image.size == 0 {
            return Err(ManifestError::EmptyImage);
        }
        if image.checked_end().is_none() {
            return Err(ManifestError::ImageOverflow);
        }
        if !image_is_covered(regions, &image) {
            return Err(ManifestError::ImageOutsideProtectedRegion);
        }
        i += 1;
    }
    proof {
        lemma_first_error_end(ims, ic);
    }

    // O(N²) overlap check — N is small in practice (≤16 regions).
    let mut i: usize = 0;
    while i < regions.len()
        invariant
            i <= rs.len(),
            rs == regions@,
            forall|k: int| 0 <= k < rs.len() ==> region_check(#[trigger] rs[k]) is None,
            forall|a: int, b: int|
                0 <= a < i && a < b < rs.len() ==> !(#[trigger] rs[a].offset < rs[b].offset
                    + rs[b].size && #[trigger] rs[b].offset < rs[a].offset + rs[a].size),
        decreases rs.len() - i,
    {
        let a = regions[i];
        assert(region_check(rs[i as int]) is None);
        let a_end = match a.checked_end() {
            Some(end) => end,
            None => return Err(ManifestError::RegionOverflow),
        };
        let mut j = i + 1;
        while j < regions.len()
            invariant
                i < j <= rs.len(),
                rs == regions@,
                a == rs[i as int],
                a_end == a.offset + a.size,
                forall|k: int| 0 <= k < rs.len() ==> region_check(#[trigger] rs[k]) is None,
                forall|b: int|
                    i < b < j ==> !(#[trigger] rs[i as int].offset < rs[b].offset + rs[b].size
                        && rs[b].offset < rs[i as int].offset + rs[i as int].size),
            decreases rs.len() - j,
        {
            let b = regions[j];
            assert(region_check(rs[j as int]) is None);
            let b_end = match b.checked_end() {
                Some(end) => end,
                None => return Err(ManifestError::RegionOverflow),
            };
            if a.offset < b_end && b.offset < a_end {
                assert(regions_overlap(rs)) by {
                    assert(rs[i as int].offset < rs[j as int].offset + rs[j as int].size);
                }
                return Err(ManifestError::OverlappingProtectedRegions);
            }
            j += 1;
        }
        i += 1;
    }
    Ok(())
}

} // verus!
