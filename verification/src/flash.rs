//! Flash storage and image management.
//!
//! # Image management
//!
//! - **A/B bank scheme**: active, staging, and recovery image slots.
//! - **Anti-rollback**: monotonic counters in OTP prevent downgrade attacks.
//! - **Recovery**: autonomous restore from golden image on failure.
//!
//! # SPI filter engine
//!
//! Address-range write protection is derived from PFM policies; the
//! [`Layout`] and [`RecoveryPlan`] types are the hardware-agnostic source of
//! truth. AST1060 uses four QSPI monitor instances; AST1080 uses three.
use vstd::prelude::*;

verus! {

/// The first element of `s` that satisfies `p`, if any.
pub open spec fn find_first<T>(s: Seq<T>, p: spec_fn(T) -> bool) -> Option<T>
    decreases s.len(),
{
    if s.len() == 0 {
        None
    } else if p(s[0]) {
        Some(s[0])
    } else {
        find_first(s.drop_first(), p)
    }
}

/// Skipping an element that fails `p` does not change the first match.
pub proof fn lemma_find_first_skip<T>(s: Seq<T>, p: spec_fn(T) -> bool, i: int)
    requires
        0 <= i < s.len(),
        !p(s[i]),
    ensures
        find_first(s.skip(i), p) == find_first(s.skip(i + 1), p),
{
    assert(s.skip(i).drop_first() =~= s.skip(i + 1));
}

/// Hitting an element that satisfies `p` ends the search there.
pub proof fn lemma_find_first_hit<T>(s: Seq<T>, p: spec_fn(T) -> bool, i: int)
    requires
        0 <= i < s.len(),
        p(s[i]),
    ensures
        find_first(s.skip(i), p) == Some(s[i]),
{
}

/// The search over an exhausted suffix finds nothing.
pub proof fn lemma_find_first_end<T>(s: Seq<T>, p: spec_fn(T) -> bool)
    ensures
        find_first(s.skip(s.len() as int), p) is None,
{
    assert(s.skip(s.len() as int).len() == 0);
}

/// What `find_first` returns: an element of `s` satisfying `p`, preceded only
/// by elements that fail it; `None` only when no element satisfies `p`.
pub proof fn lemma_find_first_spec<T>(s: Seq<T>, p: spec_fn(T) -> bool)
    ensures
        find_first(s, p) matches Some(x) ==> exists|i: int|
            0 <= i < s.len() && s[i] == x && p(x) && forall|j: int| 0 <= j < i ==> !p(s[j]),
        find_first(s, p) is None ==> forall|i: int| 0 <= i < s.len() ==> !p(s[i]),
    decreases s.len(),
{
    if s.len() > 0 && !p(s[0]) {
        let t = s.drop_first();
        lemma_find_first_spec(t, p);
        if let Some(x) = find_first(t, p) {
            let k = choose|i: int|
                0 <= i < t.len() && t[i] == x && p(x) && forall|j: int| 0 <= j < i ==> !p(t[j]);
            assert(s[k + 1] == x);
            assert forall|j: int| 0 <= j < k + 1 implies !p(s[j]) by {
                if j > 0 {
                    assert(s[j] == t[j - 1]);
                }
            }
        } else {
            assert forall|i: int| 0 <= i < s.len() implies !p(s[i]) by {
                if i > 0 {
                    assert(s[i] == t[i - 1]);
                }
            }
        }
    }
}

/// Logical flash image slot.
#[derive(Debug, Clone, Copy, PartialEq, Eq, Structural)]
pub enum Slot {
    Active,
    Recovery,
    Staging,
    State,
    Key,
}

/// A byte range within a flash device.
#[derive(Debug, Clone, Copy, PartialEq, Eq, Structural)]
pub struct Region {
    pub slot: Slot,
    pub offset: u32,
    pub size: u32,
}

/// The exclusive end of a region, as an unbounded integer.
pub open spec fn region_end(r: Region) -> int {
    r.offset + r.size
}

/// The end of the region is representable as a `u32`.
pub open spec fn region_fits(r: Region) -> bool {
    region_end(r) <= u32::MAX
}

/// `[offset, offset+len)` lies within `r`, and neither end overflows.
pub open spec fn region_contains(r: Region, offset: u32, len: u32) -> bool {
    &&& region_fits(r)
    &&& offset + len <= u32::MAX
    &&& offset >= r.offset
    &&& offset + len <= region_end(r)
}

/// Two half-open ranges `[a, a_end)` and `[b, b_end)` share an address.
pub open spec fn ranges_overlap(a: int, a_end: int, b: int, b_end: int) -> bool {
    a < b_end && b < a_end
}

impl Region {
    /// Create a region.
    pub fn new(slot: Slot, offset: u32, size: u32) -> (r: Self)
        ensures
            r == (Region { slot, offset, size }),
    {
        Region { slot, offset, size }
    }

    /// Exclusive end offset using checked arithmetic.
    ///
    /// Returns `None` if `offset + size` would overflow `u32`.
    pub fn checked_end(&self) -> (r: Option<u32>)
        ensures
            r == (if region_fits(*self) {
                Some(region_end(*self) as u32)
            } else {
                None
            }),
    {
        self.offset.checked_add(self.size)
    }

    /// Exclusive end offset using saturating arithmetic.
    ///
    /// Deprecated: prefer [`checked_end`](Self::checked_end), which detects
    /// overflow.
    pub fn end(&self) -> (r: u32)
        ensures
            r == (if region_fits(*self) {
                region_end(*self)
            } else {
                u32::MAX as int
            }),
    {
        self.offset.saturating_add(self.size)
    }

    /// Return `true` if `[offset, offset+len)` is entirely within this region.
    pub fn contains(&self, offset: u32, len: u32) -> (b: bool)
        ensures
            b == region_contains(*self, offset, len),
    {
        match (self.checked_end(), offset.checked_add(len)) {
            (Some(region_end), Some(end)) => offset >= self.offset && end <= region_end,
            _ => false,
        }
    }

    /// Return `true` if the region has zero size.
    pub fn is_empty(&self) -> (b: bool)
        ensures
            b == (self.size == 0),
    {
        self.size == 0
    }
}

/// Flash layout validation error.
#[derive(Debug, Clone, Copy, PartialEq, Eq, Structural)]
pub enum LayoutError {
    EmptyRegion,
    RegionOverflow,
    OverlappingRegions,
}

/// The first problem of region `a` against the later regions `rs[j..]`: a
/// later region that overflows, or one that overlaps `a`.
pub open spec fn later_region_error(a: Region, rs: Seq<Region>, j: int) -> Option<LayoutError>
    decreases rs.len() - j,
{
    if j >= rs.len() || j < 0 {
        None
    } else if !region_fits(rs[j]) {
        Some(LayoutError::RegionOverflow)
    } else if ranges_overlap(a.offset as int, region_end(a), rs[j].offset as int, region_end(rs[j])) {
        Some(LayoutError::OverlappingRegions)
    } else {
        later_region_error(a, rs, j + 1)
    }
}

/// The first layout problem found when the regions are checked in order from
/// index `i`: each region in turn must be non-empty and must not overflow, and
/// then every later region must not overflow and must not overlap it.
pub open spec fn layout_error(rs: Seq<Region>, i: int) -> Option<LayoutError>
    decreases rs.len() - i,
{
    if i >= rs.len() || i < 0 {
        None
    } else if rs[i].size == 0 {
        Some(LayoutError::EmptyRegion)
    } else if !region_fits(rs[i]) {
        Some(LayoutError::RegionOverflow)
    } else {
        match later_region_error(rs[i], rs, i + 1) {
            Some(e) => Some(e),
            None => layout_error(rs, i + 1),
        }
    }
}

/// No region is empty or overflows, and no two regions overlap.
pub open spec fn layout_valid(rs: Seq<Region>) -> bool {
    &&& forall|i: int| 0 <= i < rs.len() ==> rs[i].size != 0 && region_fits(#[trigger] rs[i])
    &&& forall|i: int, j: int|
        0 <= i < j < rs.len() ==> !ranges_overlap(
            rs[i].offset as int,
            region_end(#[trigger] rs[i]),
            rs[j].offset as int,
            region_end(#[trigger] rs[j]),
        )
}

proof fn lemma_later_region_error(a: Region, rs: Seq<Region>, j: int)
    requires
        0 <= j,
    ensures
        later_region_error(a, rs, j) is None <==> forall|k: int|
            j <= k < rs.len() ==> region_fits(#[trigger] rs[k]) && !ranges_overlap(
                a.offset as int,
                region_end(a),
                rs[k].offset as int,
                region_end(rs[k]),
            ),
    decreases rs.len() - j,
{
    if j < rs.len() {
        lemma_later_region_error(a, rs, j + 1);
    }
}

/// The checks find no problem exactly when the layout is valid.
pub proof fn lemma_layout_error_none_iff_valid(rs: Seq<Region>)
    ensures
        layout_error(rs, 0) is None <==> layout_valid(rs),
{
    lemma_layout_error_suffix(rs, 0);
}

proof fn lemma_layout_error_suffix(rs: Seq<Region>, i: int)
    requires
        0 <= i,
    ensures
        layout_error(rs, i) is None <==> (forall|k: int|
            i <= k < rs.len() ==> rs[k].size != 0 && region_fits(#[trigger] rs[k])) && (forall|
            k: int,
            l: int,
        |
            i <= k < l < rs.len() ==> !ranges_overlap(
                rs[k].offset as int,
                region_end(#[trigger] rs[k]),
                rs[l].offset as int,
                region_end(#[trigger] rs[l]),
            )),
    decreases rs.len() - i,
{
    if i < rs.len() {
        lemma_layout_error_suffix(rs, i + 1);
        lemma_later_region_error(rs[i], rs, i + 1);
    }
}

/// Static flash layout used by manifest and recovery logic.
///
/// `N` is the number of regions; use the smallest `N` that covers your
/// flash partition table so the type fits in on-stack space.
#[derive(Debug, Clone, Copy, PartialEq, Eq)]
pub struct Layout<const N: usize> {
    regions: [Region; N],
}

impl<const N: usize> View for Layout<N> {
    type V = Seq<Region>;

    closed spec fn view(&self) -> Seq<Region> {
        self.regions@
    }
}

impl<const N: usize> Layout<N> {
    /// Create a layout from a fixed array of regions.
    pub fn new(regions: [Region; N]) -> (l: Self)
        ensures
            l@ == regions@,
    {
        Layout { regions }
    }

    /// Return all regions.
    pub fn regions(&self) -> (r: &[Region; N])
        ensures
            r@ == self@,
    {
        &self.regions
    }

    /// Return the first region matching `slot`, if any.
    pub fn find(&self, slot: Slot) -> (r: Option<Region>)
        ensures
            r == find_first(self@, |x: Region| x.slot == slot),
    {
        let ghost p = |x: Region| x.slot == slot;
        let mut i: usize = 0;
        proof {
            assert(self.regions@.skip(0) =~= self.regions@);
        }
        while i < N
            invariant
                i <= N,
                self.regions@.len() == N,
                p == (|x: Region| x.slot == slot),
                find_first(self.regions@, p) == find_first(self.regions@.skip(i as int), p),
            decreases N - i,
        {
            let r = self.regions[i];
            if r.slot == slot {
                proof {
                    lemma_find_first_hit(self.regions@, p, i as int);
                }
                return Some(r);
            }
            proof {
                lemma_find_first_skip(self.regions@, p, i as int);
            }
            i += 1;
        }
        proof {
            lemma_find_first_end(self.regions@, p);
        }
        None
    }

    /// Return the first region that fully contains `[offset, offset+len)`.
    pub fn find_containing(&self, offset: u32, len: u32) -> (r: Option<Region>)
        ensures
            r == find_first(self@, |x: Region| region_contains(x, offset, len)),
    {
        let ghost p = |x: Region| region_contains(x, offset, len);
        let mut i: usize = 0;
        proof {
            assert(self.regions@.skip(0) =~= self.regions@);
        }
        while i < N
            invariant
                i <= N,
                self.regions@.len() == N,
                p == (|x: Region| region_contains(x, offset, len)),
                find_first(self.regions@, p) == find_first(self.regions@.skip(i as int), p),
            decreases N - i,
        {
            let r = self.regions[i];
            if r.contains(offset, len) {
                proof {
                    lemma_find_first_hit(self.regions@, p, i as int);
                }
                return Some(r);
            }
            proof {
                lemma_find_first_skip(self.regions@, p, i as int);
            }
            i += 1;
        }
        proof {
            lemma_find_first_end(self.regions@, p);
        }
        None
    }

    /// Validate that no region is empty, overflows, or overlaps another.
    ///
    /// The regions are checked in order; the error reported is the first one
    /// found (see [`layout_error`]). Success means exactly [`layout_valid`].
    pub fn validate(&self) -> (r: Result<(), LayoutError>)
        ensures
            r == (match layout_error(self@, 0) {
                Some(e) => Err(e),
                None => Ok(()),
            }),
            r is Ok <==> layout_valid(self@),
    {
        proof {
            lemma_layout_error_none_iff_valid(self.regions@);
        }
        let ghost rs = self.regions@;
        let mut i: usize = 0;
        while i < N
            invariant
                i <= N,
                rs == self.regions@,
                rs.len() == N,
                layout_error(rs, 0) == layout_error(rs, i as int),
            decreases N - i,
        {
            let a = self.regions[i];
            if a.is_empty() {
                return Err(LayoutError::EmptyRegion);
            }
            let a_end = match a.checked_end() {
                Some(end) => end,
                None => return Err(LayoutError::RegionOverflow),
            };

            let mut j = i + 1;
            while j < N
                invariant
                    i < j <= N,
                    rs == self.regions@,
                    rs.len() == N,
                    a == rs[i as int],
                    a_end == region_end(a),
                    later_region_error(a, rs, i + 1) == later_region_error(a, rs, j as int),
                    layout_error(rs, 0) == layout_error(rs, i as int),
                    rs[i as int].size != 0,
                    region_fits(rs[i as int]),
                decreases N - j,
            {
                let b = self.regions[j];
                let b_end = match b.checked_end() {
                    Some(end) => end,
                    None => return Err(LayoutError::RegionOverflow),
                };
                if a.offset < b_end && b.offset < a_end {
                    return Err(LayoutError::OverlappingRegions);
                }
                j += 1;
            }
            i += 1;
        }
        Ok(())
    }
}

// ── RecoveryPair / RecoveryPlan ───────────────────────────────────────────────

/// Pairing between an active image and its recovery source.
#[derive(Debug, Clone, Copy, PartialEq, Eq, Structural)]
pub struct RecoveryPair {
    pub active: Region,
    pub recovery: Region,
}

/// Both regions are non-empty and the recovery region can hold the active image.
pub open spec fn pair_compatible(p: RecoveryPair) -> bool {
    p.active.size != 0 && p.recovery.size != 0 && p.recovery.size >= p.active.size
}

impl RecoveryPair {
    /// Create a recovery pair.
    pub fn new(active: Region, recovery: Region) -> (p: Self)
        ensures
            p == (RecoveryPair { active, recovery }),
    {
        RecoveryPair { active, recovery }
    }

    /// Return `true` if the recovery region is large enough to replace active.
    pub fn is_compatible(&self) -> (b: bool)
        ensures
            b == pair_compatible(*self),
    {
        !self.active.is_empty() && !self.recovery.is_empty() && self.recovery.size
            >= self.active.size
    }
}

/// Recovery-plan validation error.
#[derive(Debug, Clone, Copy, PartialEq, Eq, Structural)]
pub enum RecoveryPlanError {
    EmptyPlan,
    IncompatiblePair,
}

/// Backend-independent recovery plan.
#[derive(Debug, Clone, Copy, PartialEq, Eq)]
pub struct RecoveryPlan<const N: usize> {
    pairs: [RecoveryPair; N],
}

impl<const N: usize> View for RecoveryPlan<N> {
    type V = Seq<RecoveryPair>;

    closed spec fn view(&self) -> Seq<RecoveryPair> {
        self.pairs@
    }
}

impl<const N: usize> RecoveryPlan<N> {
    /// Create a recovery plan from fixed pairs.
    pub fn new(pairs: [RecoveryPair; N]) -> (p: Self)
        ensures
            p@ == pairs@,
    {
        RecoveryPlan { pairs }
    }

    /// Return all pairs.
    pub fn pairs(&self) -> (r: &[RecoveryPair; N])
        ensures
            r@ == self@,
    {
        &self.pairs
    }

    /// Check that the plan can restore something: it must have at least one
    /// pair, and some pair must be able to restore its active region.
    pub fn validate(&self) -> (r: Result<(), RecoveryPlanError>)
        ensures
            r == (if N == 0 {
                Err(RecoveryPlanError::EmptyPlan)
            } else if exists|i: int| 0 <= i < N && pair_compatible(#[trigger] self@[i]) {
                Ok(())
            } else {
                Err(RecoveryPlanError::IncompatiblePair)
            }),
    {
        if N == 0 {
            return Err(RecoveryPlanError::EmptyPlan);
        }
        let mut i: usize = 0;
        while i < N
            invariant
                i <= N,
                self.pairs@.len() == N,
                forall|k: int| 0 <= k < i ==> !pair_compatible(#[trigger] self.pairs@[k]),
            decreases N - i,
        {
            if self.pairs[i].is_compatible() {
                assert(pair_compatible(self@[i as int]));
                return Ok(());
            }
            i += 1;
        }
        Err(RecoveryPlanError::IncompatiblePair)
    }
}

// ── RecoveryLevel ─────────────────────────────────────────────────────────────

/// The maximum (final) recovery level before lockdown.
pub open spec fn max_recovery_level() -> nat {
    2
}

/// Recovery attempt level independent of storage or OTP backend.
///
/// Level 0 = first attempt; level [`RecoveryLevel::maximum`] = final attempt.
/// After [`RecoveryLevel::maximum`] the platform should emit
/// [`crate::pfr::Event::RecoveryFailed`].
#[derive(Debug, Clone, Copy, PartialEq, Eq, PartialOrd, Ord)]
pub struct RecoveryLevel(u8);

impl View for RecoveryLevel {
    type V = nat;

    closed spec fn view(&self) -> nat {
        self.0 as nat
    }
}

impl RecoveryLevel {
    #[verifier::type_invariant]
    closed spec fn level_in_range(self) -> bool {
        self.0 <= 2
    }

    /// First recovery attempt (level 0).
    pub fn zero() -> (l: Self)
        ensures
            l@ == 0,
    {
        RecoveryLevel(0)
    }

    /// Maximum (final) recovery level before lockdown.
    pub fn maximum() -> (l: Self)
        ensures
            l@ == max_recovery_level(),
    {
        RecoveryLevel(2)
    }

    /// Create a level, returning `None` if `value` exceeds the maximum.
    pub fn new(value: u8) -> (r: Option<Self>)
        ensures
            r is Some <==> value <= max_recovery_level(),
            r matches Some(l) ==> l@ == value,
    {
        if value <= 2 {
            Some(RecoveryLevel(value))
        } else {
            None
        }
    }

    /// Return the raw level value.
    pub fn get(self) -> (v: u8)
        ensures
            v == self@,
            v <= max_recovery_level(),
    {
        proof {
            use_type_invariant(&self);
        }
        self.0
    }

    /// Return `true` if another recovery attempt is possible.
    pub fn can_escalate(self) -> (b: bool)
        ensures
            b <==> self@ < max_recovery_level(),
    {
        self.0 < 2
    }

    /// Return the next level, or `None` if already at [`maximum`](Self::maximum).
    pub fn escalate(self) -> (r: Option<Self>)
        ensures
            r is Some <==> self@ < max_recovery_level(),
            r matches Some(l) ==> l@ == self@ + 1,
    {
        if self.can_escalate() {
            Some(RecoveryLevel(self.0 + 1))
        } else {
            None
        }
    }
}

impl Default for RecoveryLevel {
    fn default() -> (l: Self)
        ensures
            l@ == 0,
    {
        RecoveryLevel(0)
    }
}

} // verus!
