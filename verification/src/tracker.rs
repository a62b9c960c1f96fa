//! Region tracker: the set of byte positions already claimed by confirmed
//! streams, kept as a merge-on-insert interval set. The orchestrator uses
//! it as an at-most-once gate: a candidate offset inside an already
//! claimed region is not validated again. The intervals are held in a
//! `range_set_blaze::RangeSetBlaze`, trusted through the contracts below.

use range_set_blaze::RangeSetBlaze;
use vstd::prelude::*;

verus! {

/// A `RangeSetBlaze<usize>` interval set, opaque to the verifier; its
/// contents are modeled by `claimed_set` through the contracts of the
/// wrappers below.
#[verifier::external_body]
pub struct SectorSet {
    set: RangeSetBlaze<usize>,
}

/// The set of byte positions held by a `SectorSet` interval set.
pub uninterp spec fn claimed_set(s: SectorSet) -> Set<int>;

/// The byte positions of the inclusive interval `lo ..= hi`.
pub open spec fn range_points(lo: int, hi: int) -> Set<int> {
    Set::new(|x: int| lo <= x <= hi)
}

/// The byte positions of the half-open region `[offset, offset + size)`.
pub open spec fn region(offset: int, size: int) -> Set<int> {
    Set::new(|x: int| offset <= x < offset + size)
}

/// The union of a list of inclusive intervals.
pub open spec fn ranges_union(rs: Seq<(usize, usize)>) -> Set<int>
    decreases rs.len(),
{
    if rs.len() == 0 {
        Set::<int>::empty()
    } else {
        ranges_union(rs.drop_last()).union(
            range_points(rs.last().0 as int, rs.last().1 as int),
        )
    }
}

/// Relies on `range_set_blaze::RangeSetBlaze::new`: the new set is empty.
#[verifier::external_body]
fn rsb_new() -> (r: SectorSet)
    ensures
        claimed_set(r) == Set::<int>::empty(),
{
    SectorSet { set: RangeSetBlaze::new() }
}

/// Relies on `range_set_blaze::RangeSetBlaze::contains`: whether the set
/// contains the value.
#[verifier::external_body]
fn rsb_contains(s: &SectorSet, value: usize) -> (r: bool)
    ensures
        r == claimed_set(*s).contains(value as int),
{
    s.set.contains(value)
}

/// Relies on `range_set_blaze::RangeSetBlaze::ranges_insert`: merges the
/// inclusive range `lo ..= hi` into the interval set.
#[verifier::external_body]
fn rsb_insert(s: &mut SectorSet, lo: usize, hi: usize)
    requires
        lo <= hi,
    ensures
        claimed_set(*final(s)) == claimed_set(*old(s)).union(
            range_points(lo as int, hi as int),
        ),
{
    s.set.ranges_insert(lo..=hi);
}

/// Relies on `range_set_blaze::RangeSetBlaze::ranges`: yields the set's
/// contents as ascending, disjoint inclusive ranges.
#[verifier::external_body]
fn rsb_ranges(s: &SectorSet) -> (r: Vec<(usize, usize)>)
    ensures
        forall|k: int| 0 <= k < r@.len() ==> (#[trigger] r@[k]).0 <= r@[k].1,
        forall|k: int| 0 <= k + 1 < r@.len() ==> (#[trigger] r@[k]).1 < r@[k + 1].0,
        claimed_set(*s) == ranges_union(r@),
{
    s.set.ranges().map(|rng| (*rng.start(), *rng.end())).collect()
}

/// The set of non-overlapping byte regions claimed by confirmed matches.
pub struct RegionTracker {
    sectors: SectorSet,
}

impl View for RegionTracker {
    type V = Set<int>;

    closed spec fn view(&self) -> Set<int> {
        claimed_set(self.sectors)
    }
}

impl RegionTracker {
    /// An empty tracker: no byte is claimed yet.
    pub fn new() -> (r: Self)
        ensures
            r@ == Set::<int>::empty(),
    {
        RegionTracker { sectors: rsb_new() }
    }

    /// Whether `offset` falls inside any claimed region.
    pub fn contains(&self, offset: usize) -> (r: bool)
        ensures
            r == self@.contains(offset as int),
    {
        rsb_contains(&self.sectors, offset)
    }

    /// Claims the region `[offset, offset + size)`, coalescing it with
    /// adjacent and overlapping claimed regions.
    pub fn insert(&mut self, offset: usize, size: usize)
        requires
            0 < size,
            offset + size - 1 <= usize::MAX,
        ensures
            final(self)@ == old(self)@.union(region(offset as int, size as int)),
    {
        let hi = offset + (size - 1);
        rsb_insert(&mut self.sectors, offset, hi);
        proof {
            assert(range_points(offset as int, hi as int) =~= region(offset as int, size as int));
        }
    }

    /// The claimed regions as ascending, disjoint inclusive ranges, for
    /// consumers that walk them (such as an eraser that zero-fills each
    /// one).
    pub fn ranges(&self) -> (r: Vec<(usize, usize)>)
        ensures
            forall|k: int| 0 <= k < r@.len() ==> (#[trigger] r@[k]).0 <= r@[k].1,
            forall|k: int| 0 <= k + 1 < r@.len() ==> (#[trigger] r@[k]).1 < r@[k + 1].0,
            self@ == ranges_union(r@),
    {
        rsb_ranges(&self.sectors)
    }
}

/// Claiming the same region twice changes nothing: the claimed set, and
/// with it every later `contains` query, is the same after the second
/// insertion as after the first.
pub proof fn lemma_insert_idempotent(s: Set<int>, offset: int, size: int)
    ensures
        s.union(region(offset, size)).union(region(offset, size)) == s.union(
            region(offset, size),
        ),
{
    assert(s.union(region(offset, size)).union(region(offset, size)) =~= s.union(
        region(offset, size),
    ));
}

/// Every position of a freshly claimed region, its start in particular,
/// is claimed afterwards: a second candidate at the offset of a confirmed
/// match is gated out.
pub proof fn lemma_insert_claims_offset(s: Set<int>, offset: int, size: int)
    requires
        0 < size,
    ensures
        s.union(region(offset, size)).contains(offset),
{
}

} // verus!
