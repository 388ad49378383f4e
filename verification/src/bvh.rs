//! The bounding volume hierarchy: building, flattening, and traversal.

use crate::bounds::BoundingBox;
use crate::fixed;
use crate::fixed::{fx_add, fx_div, fx_div_int, fx_mul, fx_of_count, fx_sub, SCALE};
use crate::ray::Ray;
use crate::shape::Shape;
use crate::utils::partition_range;
use vstd::pervasive::VecAdditionalExecFns;
use crate::vectors::Vec3;
use vstd::prelude::*;

verus! {

/// How many buckets the surface-area heuristic bins centroids into.
pub const BUCKET_AMOUNT: usize = 12;

/// Per-primitive data gathered before building the tree.
#[derive(Debug, Clone, Copy, PartialEq, Eq, Structural)]
pub struct BVHPrimitiveInfo {
    /// The primitive's bounding box.
    pub bounding_box: BoundingBox,
    /// The centre of that box, which the split policies sort by.
    pub centre: Vec3,
    /// Where the primitive sits in the input collection.
    pub index: usize,
}

/// One centroid bucket of the surface-area heuristic.
#[derive(Debug, Clone, Copy, PartialEq, Eq, Structural)]
pub struct BucketInfo {
    pub count: usize,
    pub bounding_box: BoundingBox,
}

impl Default for BucketInfo {
    /// An empty bucket.
    fn default() -> (r: Self)
        ensures
            r == (BucketInfo { count: 0, bounding_box: BoundingBox::spec_empty() }),
    {
        BucketInfo { count: 0, bounding_box: BoundingBox::empty() }
    }
}

/// The approach used to pick each split while constructing the tree.
#[derive(Debug, Clone, Copy, PartialEq, Eq, Structural)]
pub enum BVHConstructionAlgorithm {
    /// Split at the midpoint of the centroid bound.
    Middle,
    /// Split into halves of equal primitive count.
    Equal,
    /// Surface-area heuristic: pick the cheapest of eleven bucket splits.
    SAH,
}

/// The shape an info entry points at.
pub open spec fn shape_of(prims: Seq<Shape>, pi: BVHPrimitiveInfo) -> Shape {
    prims[pi.index as int]
}

/// Two info rows holding the same entries point at the same shapes: mapping
/// each entry to its shape keeps multiset equality.
proof fn lemma_map_shapes_multiset(s1: Seq<BVHPrimitiveInfo>, s2: Seq<BVHPrimitiveInfo>, prims: Seq<Shape>)
    requires
        s1.to_multiset() == s2.to_multiset(),
    ensures
        s1.map_values(|pi: BVHPrimitiveInfo| shape_of(prims, pi)).to_multiset()
            == s2.map_values(|pi: BVHPrimitiveInfo| shape_of(prims, pi)).to_multiset(),
    decreases s1.len(),
{
    broadcast use vstd::seq_lib::group_to_multiset_ensures;

    let f = |pi: BVHPrimitiveInfo| shape_of(prims, pi);
    if s1.len() == 0 {
        assert(s2.to_multiset().len() == 0);
        assert(s1.map_values(f) =~= s2.map_values(f));
    } else {
        let x = s1.last();
        assert(s1.to_multiset().count(x) > 0) by {
            assert(s1.contains(x));
        }
        assert(s2.contains(x));
        let j = choose|j: int| 0 <= j < s2.len() && s2[j] == x;
        let s1p = s1.drop_last();
        let s2p = s2.remove(j);
        assert(s1p =~= s1.remove(s1.len() - 1));
        assert(s1p.to_multiset() == s1.to_multiset().remove(x));
        assert(s2p.to_multiset() == s2.to_multiset().remove(x));
        lemma_map_shapes_multiset(s1p, s2p, prims);
        // Both maps are the smaller maps with the shape of `x` put back.
        assert(s1.map_values(f) =~= s1p.map_values(f).push(f(x)));
        assert(s1.map_values(f).to_multiset() == s1p.map_values(f).to_multiset().insert(f(x)));
        assert(s2p.map_values(f) =~= s2.map_values(f).remove(j));
        assert(s2.map_values(f)[j] == f(x));
        assert(s2.map_values(f).remove(j).to_multiset() == s2.map_values(f).to_multiset().remove(
            f(x),
        ));
        assert(s2.map_values(f).to_multiset().count(f(x)) > 0) by {
            assert(s2.map_values(f).contains(f(x)));
        }
        assert(s2.map_values(f).to_multiset() =~= s2p.map_values(f).to_multiset().insert(f(x)));
    }
}

/// Whether every entry of `info` describes the shape it points at.
pub open spec fn info_ok(info: Seq<BVHPrimitiveInfo>, prims: Seq<Shape>) -> bool {
    forall|k: int|
        0 <= k < info.len() ==> {
            &&& (#[trigger] info[k]).index < prims.len()
            &&& info[k].bounding_box == prims[info[k].index as int].spec_bounding_box()
            &&& info[k].centre == prims[info[k].index as int].spec_bounding_box().spec_centre()
        }
}

/// The hull of the bounding boxes of one range of `info`.
pub open spec fn spec_fold_bounds(info: Seq<BVHPrimitiveInfo>, lo: int, hi: int) -> BoundingBox
    decreases hi - lo,
{
    if lo >= hi {
        BoundingBox::spec_empty()
    } else {
        spec_fold_bounds(info, lo, hi - 1).spec_merge(info[hi - 1].bounding_box)
    }
}

/// The hull of the centroids of one range of `info`.
pub open spec fn spec_fold_centroids(info: Seq<BVHPrimitiveInfo>, lo: int, hi: int) -> BoundingBox
    decreases hi - lo,
{
    if lo >= hi {
        BoundingBox::spec_empty()
    } else {
        spec_fold_centroids(info, lo, hi - 1).spec_merge_with_vec(info[hi - 1].centre)
    }
}

/// The hull of the bounding boxes of one range of shapes.
pub open spec fn spec_fold_shape_bounds(prims: Seq<Shape>, lo: int, hi: int) -> BoundingBox
    decreases hi - lo,
{
    if lo >= hi {
        BoundingBox::spec_empty()
    } else {
        spec_fold_shape_bounds(prims, lo, hi - 1).spec_merge(prims[hi - 1].spec_bounding_box())
    }
}

/// Folds over ranges whose entries carry equal boxes give equal hulls.
proof fn lemma_fold_shapes_agree(
    info: Seq<BVHPrimitiveInfo>,
    prims_out: Seq<Shape>,
    start: int,
    end: int,
    first: int,
)
    requires
        0 <= start <= end <= info.len(),
        0 <= first,
        first + (end - start) <= prims_out.len(),
        forall|k: int|
            0 <= k < end - start ==> (#[trigger] prims_out[first + k]).spec_bounding_box()
                == info[start + k].bounding_box,
    ensures
        spec_fold_shape_bounds(prims_out, first, first + (end - start)) == spec_fold_bounds(
            info,
            start,
            end,
        ),
    decreases end - start,
{
    if start >= end {
    } else {
        lemma_fold_shapes_agree(info, prims_out, start, end - 1, first);
        assert(prims_out[first + (end - 1 - start)].spec_bounding_box() == info[end
            - 1].bounding_box);
    }
}

/// A hull reads only its own range, so prefix-preserving extension of the
/// collection leaves it unchanged.
proof fn lemma_fold_shapes_prefix(s1: Seq<Shape>, s2: Seq<Shape>, lo: int, hi: int)
    requires
        0 <= lo,
        hi <= s1.len() <= s2.len(),
        s2.subrange(0, s1.len() as int) == s1,
    ensures
        spec_fold_shape_bounds(s2, lo, hi) == spec_fold_shape_bounds(s1, lo, hi),
    decreases hi - lo,
{
    if lo >= hi {
    } else {
        lemma_fold_shapes_prefix(s1, s2, lo, hi - 1);
        assert(s2[hi - 1] == s2.subrange(0, s1.len() as int)[hi - 1]);
    }
}

/// Folds over pointwise-equal ranges give equal hulls.
proof fn lemma_fold_bounds_agree(
    s1: Seq<BVHPrimitiveInfo>,
    s2: Seq<BVHPrimitiveInfo>,
    lo: int,
    hi: int,
)
    requires
        0 <= lo,
        hi <= s1.len(),
        hi <= s2.len(),
        forall|i: int| lo <= i < hi ==> s1[i] == s2[i],
    ensures
        spec_fold_bounds(s1, lo, hi) == spec_fold_bounds(s2, lo, hi),
    decreases hi - lo,
{
    if lo >= hi {
    } else {
        lemma_fold_bounds_agree(s1, s2, lo, hi - 1);
    }
}

/// The hull of a range of boxes surrounds each of its members.
pub proof fn lemma_fold_bounds_covers(info: Seq<BVHPrimitiveInfo>, lo: int, hi: int, i: int)
    requires
        lo <= i < hi <= info.len(),
    ensures
        spec_fold_bounds(info, lo, hi).spec_covers(info[i].bounding_box),
    decreases hi - lo,
{
    if i == hi - 1 {
        crate::bounds::lemma_merge_covers(spec_fold_bounds(info, lo, hi - 1), info[i].bounding_box);
    } else {
        lemma_fold_bounds_covers(info, lo, hi - 1, i);
        crate::bounds::lemma_merge_covers(spec_fold_bounds(info, lo, hi - 1), info[hi - 1].bounding_box);
        crate::bounds::lemma_covers_trans(
            spec_fold_bounds(info, lo, hi),
            spec_fold_bounds(info, lo, hi - 1),
            info[i].bounding_box,
        );
    }
}

/// A box that surrounds every member of a range surrounds their hull.
proof fn lemma_fold_bounds_covered(
    outer: BoundingBox,
    info: Seq<BVHPrimitiveInfo>,
    lo: int,
    hi: int,
)
    requires
        hi <= info.len(),
        forall|i: int| lo <= i < hi ==> outer.spec_covers((#[trigger] info[i]).bounding_box),
    ensures
        outer.spec_covers(spec_fold_bounds(info, lo, hi)),
    decreases hi - lo,
{
    if lo >= hi {
    } else {
        lemma_fold_bounds_covered(outer, info, lo, hi - 1);
    }
}

/// Permuting a range and splitting it in two leaves the hull unchanged:
/// the whole range's hull is the merge of the two halves' hulls.
proof fn lemma_fold_perm_split(
    s_old: Seq<BVHPrimitiveInfo>,
    s_new: Seq<BVHPrimitiveInfo>,
    start: int,
    mid: int,
    end: int,
)
    requires
        0 <= start <= mid <= end <= s_old.len(),
        end <= s_new.len(),
        s_old.subrange(start, end).to_multiset() == s_new.subrange(start, end).to_multiset(),
    ensures
        spec_fold_bounds(s_old, start, end) == spec_fold_bounds(s_new, start, mid).spec_merge(
            spec_fold_bounds(s_new, mid, end),
        ),
{
    broadcast use vstd::seq_lib::group_to_multiset_ensures;

    let x = spec_fold_bounds(s_old, start, end);
    let yl = spec_fold_bounds(s_new, start, mid);
    let yr = spec_fold_bounds(s_new, mid, end);
    let y = yl.spec_merge(yr);
    let sub_old = s_old.subrange(start, end);
    let sub_new = s_new.subrange(start, end);
    // The old hull surrounds every entry of the permuted range, hence both
    // halves' hulls, hence their merge.
    assert forall|i: int| start <= i < end implies x.spec_covers(
        (#[trigger] s_new[i]).bounding_box,
    ) by {
        assert(sub_new[i - start] == s_new[i]);
        assert(sub_new.contains(s_new[i]));
        assert(sub_old.to_multiset().count(s_new[i]) > 0);
        assert(sub_old.contains(s_new[i]));
        let j = choose|j: int| 0 <= j < sub_old.len() && sub_old[j] == s_new[i];
        assert(s_old[start + j] == s_new[i]);
        lemma_fold_bounds_covers(s_old, start, end, start + j);
    }
    lemma_fold_bounds_covered(x, s_new, start, mid);
    lemma_fold_bounds_covered(x, s_new, mid, end);
    assert(x.spec_covers(y));
    // The merge surrounds every entry of the original range, hence the old
    // hull.
    assert forall|i: int| start <= i < end implies y.spec_covers(
        (#[trigger] s_old[i]).bounding_box,
    ) by {
        assert(sub_old[i - start] == s_old[i]);
        assert(sub_old.contains(s_old[i]));
        assert(sub_new.to_multiset().count(s_old[i]) > 0);
        assert(sub_new.contains(s_old[i]));
        let j = choose|j: int| 0 <= j < sub_new.len() && sub_new[j] == s_old[i];
        assert(s_new[start + j] == s_old[i]);
        if start + j < mid {
            lemma_fold_bounds_covers(s_new, start, mid, start + j);
            crate::bounds::lemma_merge_covers(yl, yr);
            crate::bounds::lemma_covers_trans(y, yl, s_old[i].bounding_box);
        } else {
            lemma_fold_bounds_covers(s_new, mid, end, start + j);
            crate::bounds::lemma_merge_covers(yl, yr);
            crate::bounds::lemma_covers_trans(y, yr, s_old[i].bounding_box);
        }
    }
    lemma_fold_bounds_covered(y, s_old, start, end);
    // Two hulls surrounding each other are one and the same box.
    assert(x == y);
}

/// Gather the hull of the bounding boxes of `info[start..end]`.
fn fold_bounds(info: &Vec<BVHPrimitiveInfo>, start: usize, end: usize) -> (r: BoundingBox)
    requires
        start <= end <= info@.len(),
    ensures
        r == spec_fold_bounds(info@, start as int, end as int),
{
    let mut acc = BoundingBox::empty();
    let mut k = start;
    while k < end
        invariant
            start <= k <= end <= info@.len(),
            acc == spec_fold_bounds(info@, start as int, k as int),
        decreases end - k,
    {
        acc = acc.merge(&info[k].bounding_box);
        k = k + 1;
    }
    acc
}

/// Gather the hull of the centroids of `info[start..end]`.
fn fold_centroids(info: &Vec<BVHPrimitiveInfo>, start: usize, end: usize) -> (r: BoundingBox)
    requires
        start <= end <= info@.len(),
    ensures
        r == spec_fold_centroids(info@, start as int, end as int),
{
    let mut acc = BoundingBox::empty();
    let mut k = start;
    while k < end
        invariant
            start <= k <= end <= info@.len(),
            acc == spec_fold_centroids(info@, start as int, k as int),
        decreases end - k,
    {
        acc = acc.merge_with_vec(&info[k].centre);
        k = k + 1;
    }
    acc
}

/// Order two entries by their centroid coordinate along one axis.
pub fn cmp_centre(
    a: &BVHPrimitiveInfo,
    b: &BVHPrimitiveInfo,
    dimension: u32,
) -> (r: core::cmp::Ordering)
    requires
        dimension < 3,
    ensures
        r == core::cmp::Ordering::Less ==> a.centre.spec_dim(dimension as int)
            < b.centre.spec_dim(dimension as int),
        r == core::cmp::Ordering::Greater ==> a.centre.spec_dim(dimension as int)
            > b.centre.spec_dim(dimension as int),
        r == core::cmp::Ordering::Equal ==> a.centre.spec_dim(dimension as int)
            == b.centre.spec_dim(dimension as int),
{
    let ca = a.centre.dim(dimension);
    let cb = b.centre.dim(dimension);
    if ca < cb {
        core::cmp::Ordering::Less
    } else if ca > cb {
        core::cmp::Ordering::Greater
    } else {
        core::cmp::Ordering::Equal
    }
}

/// Relies on pdqselect::select_by: it reorders the given range in place so
/// that the entry at `k` is the one a full sort by the comparator would put
/// there, entries no greater than it before it and entries no smaller after
/// it, touching nothing outside the range.
#[verifier::external_body]
fn select_by_centre(
    data: &mut Vec<BVHPrimitiveInfo>,
    start: usize,
    end: usize,
    k: usize,
    dimension: u32,
)
    requires
        start <= k < end,
        end <= old(data)@.len(),
        dimension < 3,
    ensures
        final(data)@.len() == old(data)@.len(),
        final(data)@.subrange(start as int, end as int).to_multiset() == old(data)@.subrange(
            start as int,
            end as int,
        ).to_multiset(),
        forall|i: int|
            (0 <= i < start || end <= i < old(data)@.len()) ==> final(data)@[i] == old(data)@[i],
        forall|i: int|
            start <= i < k ==> (#[trigger] final(data)@[i]).centre.spec_dim(dimension as int)
                <= final(data)@[k as int].centre.spec_dim(dimension as int),
        forall|i: int|
            k < i < end ==> final(data)@[k as int].centre.spec_dim(dimension as int)
                <= (#[trigger] final(data)@[i]).centre.spec_dim(dimension as int),
{
    pdqselect::select_by(
        &mut data[start..end],
        k - start,
        |a: &BVHPrimitiveInfo, b: &BVHPrimitiveInfo| cmp_centre(a, b, dimension),
    );
}

/// Which surface-area-heuristic bucket a centroid falls into: the floor of
/// `BUCKET_AMOUNT` times the normalized offset, clamped into range.
pub open spec fn spec_bucket(cb: BoundingBox, c: Vec3, dimension: int) -> int {
    let off = cb.spec_offset(c).spec_dim(dimension) as int;
    let q = fixed::div_tz(fixed::spec_mul(off, 12 * SCALE as int), SCALE as int);
    if q < 0 {
        0
    } else if q >= 12 {
        11
    } else {
        q
    }
}

/// The bucket of one centroid.
fn bucket_of(cb: &BoundingBox, c: &Vec3, dimension: u32) -> (b: usize)
    requires
        dimension < 3,
    ensures
        b as int == spec_bucket(*cb, *c, dimension as int),
        b < BUCKET_AMOUNT,
{
    let off = cb.offset(c).dim(dimension);
    let q = fx_div_int(fx_mul(off, 12 * SCALE), SCALE);
    if q < 0 {
        0
    } else if q >= 12 {
        11
    } else {
        q as usize
    }
}

/// A row of twelve empty buckets.
pub open spec fn spec_empty_buckets() -> Seq<BucketInfo> {
    Seq::new(12, |b: int| BucketInfo { count: 0, bounding_box: BoundingBox::spec_empty() })
}

/// The bucket row after binning the centroids of `info[start..k]`, in
/// order: each entry lands in its bucket, growing that bucket's count and
/// box.
pub open spec fn spec_fill_buckets(
    info: Seq<BVHPrimitiveInfo>,
    start: int,
    k: int,
    cb: BoundingBox,
    dimension: int,
) -> Seq<BucketInfo>
    decreases k - start,
{
    if k <= start {
        spec_empty_buckets()
    } else {
        let prev = spec_fill_buckets(info, start, k - 1, cb, dimension);
        let b = spec_bucket(cb, info[k - 1].centre, dimension);
        prev.update(
            b,
            BucketInfo {
                count: (prev[b].count + 1) as usize,
                bounding_box: prev[b].bounding_box.spec_merge(info[k - 1].bounding_box),
            },
        )
    }
}

/// The hull of the boxes of buckets `lo..hi`.
pub open spec fn spec_merge_buckets(buckets: Seq<BucketInfo>, lo: int, hi: int) -> BoundingBox
    decreases hi - lo,
{
    if lo >= hi {
        BoundingBox::spec_empty()
    } else {
        spec_merge_buckets(buckets, lo, hi - 1).spec_merge(buckets[hi - 1].bounding_box)
    }
}

/// The summed counts of buckets `lo..hi`, saturating like the machine sum.
pub open spec fn spec_count_buckets(buckets: Seq<BucketInfo>, lo: int, hi: int) -> int
    decreases hi - lo,
{
    if lo >= hi {
        0
    } else {
        fixed::min_int(
            spec_count_buckets(buckets, lo, hi - 1) + buckets[hi - 1].count,
            usize::MAX as int,
        )
    }
}

/// The cost of splitting after bucket boundary `n`: an eighth of a unit
/// for the extra traversal step, plus the count-weighted surface areas of
/// the two sides over the parent's surface area.
#[verifier::opaque]
pub open spec fn spec_sah_cost(buckets: Seq<BucketInfo>, sa_parent: int, n: int) -> i64 {
    let bounds_a = spec_merge_buckets(buckets, 0, n + 1);
    let bounds_b = spec_merge_buckets(buckets, n + 1, 12);
    let count_a = spec_count_buckets(buckets, 0, n + 1);
    let count_b = spec_count_buckets(buckets, n + 1, 12);
    fixed::spec_add(
        8192,
        fixed::spec_div(
            fixed::spec_add(
                fixed::spec_mul(fixed::spec_of_count(count_a), bounds_a.spec_surface_area()),
                fixed::spec_mul(fixed::spec_of_count(count_b), bounds_b.spec_surface_area()),
            ),
            sa_parent,
        ),
    ) as i64
}

/// The costs of all eleven candidate boundaries for one range.
#[verifier::opaque]
pub open spec fn spec_sah_costs(
    info: Seq<BVHPrimitiveInfo>,
    start: int,
    end: int,
    cb: BoundingBox,
    dimension: int,
    sa_parent: int,
) -> Seq<i64> {
    let buckets = spec_fill_buckets(info, start, end, cb, dimension);
    Seq::new(11, |n: int| spec_sah_cost(buckets, sa_parent, n))
}

/// The least cost and its first position, scanning from `i` with the best
/// seen so far.
pub open spec fn spec_min_scan(costs: Seq<i64>, i: int, best: i64, at: int) -> (i64, int)
    decreases costs.len() - i,
{
    if i < 0 || i >= costs.len() {
        (best, at)
    } else if costs[i] < best {
        spec_min_scan(costs, i + 1, costs[i], i)
    } else {
        spec_min_scan(costs, i + 1, best, at)
    }
}

/// The cheapest bucket boundary of a range and its cost, the earliest
/// boundary winning ties.
#[verifier::opaque]
pub open spec fn spec_sah_choice(
    info: Seq<BVHPrimitiveInfo>,
    start: int,
    end: int,
    cb: BoundingBox,
    dimension: int,
    sa_parent: int,
) -> (i64, int) {
    let costs = spec_sah_costs(info, start, end, cb, dimension, sa_parent);
    spec_min_scan(costs, 1, costs[0], 0)
}

/// Whether the surface-area heuristic splits the range: oversized ranges
/// always split; otherwise it splits exactly when the cheapest boundary
/// beats a leaf costing one unit per primitive.
#[verifier::opaque]
pub open spec fn spec_sah_splits(
    info: Seq<BVHPrimitiveInfo>,
    start: int,
    end: int,
    cb: BoundingBox,
    dimension: int,
    sa_parent: int,
) -> bool {
    end - start > 16 || (spec_sah_choice(info, start, end, cb, dimension, sa_parent).0 as int)
        < fixed::spec_of_count(end - start)
}

/// The midpoint of the centroid bound on one axis: the splitting line of
/// the midpoint policy.
pub open spec fn spec_mid_point(cb: BoundingBox, dimension: int) -> i64 {
    fixed::spec_div(
        fixed::spec_add(
            cb.min_vector.spec_dim(dimension) as int,
            cb.max_vector.spec_dim(dimension) as int,
        ),
        2 * SCALE as int,
    ) as i64
}

/// Whether the range is split around its median entry by centroid
/// coordinate: everything before `mid` at most the entry there, everything
/// after at least it.
pub open spec fn median_partitioned(
    info: Seq<BVHPrimitiveInfo>,
    start: int,
    mid: int,
    end: int,
    dimension: int,
) -> bool {
    &&& forall|i: int|
        start <= i < mid ==> (#[trigger] info[i]).centre.spec_dim(dimension)
            <= info[mid].centre.spec_dim(dimension)
    &&& forall|i: int|
        mid < i < end ==> info[mid].centre.spec_dim(dimension) <= (#[trigger] info[i]).centre.spec_dim(
            dimension,
        )
}

/// Whether the range is split by the midpoint line: strictly below it
/// before `mid`, at or above it from `mid` on.
pub open spec fn midpoint_partitioned(
    info: Seq<BVHPrimitiveInfo>,
    start: int,
    mid: int,
    end: int,
    dimension: int,
    pmid: i64,
) -> bool {
    &&& forall|i: int|
        start <= i < mid ==> (#[trigger] info[i]).centre.spec_dim(dimension) < pmid
    &&& forall|i: int| mid <= i < end ==> !((#[trigger] info[i]).centre.spec_dim(dimension) < pmid)
}

/// Whether the range is split by a bucket boundary: in a bucket at most
/// `split` before `mid`, in a later bucket from `mid` on.
pub open spec fn bucket_partitioned(
    info: Seq<BVHPrimitiveInfo>,
    start: int,
    mid: int,
    end: int,
    cb: BoundingBox,
    dimension: int,
    split: int,
) -> bool {
    &&& forall|i: int|
        start <= i < mid ==> spec_bucket(cb, (#[trigger] info[i]).centre, dimension) <= split
    &&& forall|i: int|
        mid <= i < end ==> !(spec_bucket(cb, (#[trigger] info[i]).centre, dimension) <= split)
}

impl BVHConstructionAlgorithm {
    /// Split the range `[start, end)` of `info` into two non-empty halves
    /// around the returned index, or decide that it should stay one leaf.
    ///
    /// The range is only ever permuted: nothing outside it moves, and the
    /// answer `None` (a leaf, possible only under the surface-area
    /// heuristic, and only for sixteen primitives or fewer) leaves the
    /// whole vector untouched.
    pub fn perform_partitioning(
        self,
        info: &mut Vec<BVHPrimitiveInfo>,
        start: usize,
        end: usize,
        dimension: u32,
        aggregate_bounds: &BoundingBox,
        centroid_bounds: &BoundingBox,
    ) -> (r: Option<usize>)
        requires
            start + 2 <= end <= old(info)@.len(),
            dimension < 3,
        ensures
            final(info)@.len() == old(info)@.len(),
            final(info)@.subrange(start as int, end as int).to_multiset() == old(info)@.subrange(
                start as int,
                end as int,
            ).to_multiset(),
            forall|i: int|
                (0 <= i < start || end <= i < old(info)@.len()) ==> final(info)@[i]
                    == old(info)@[i],
            r is Some ==> start < r.unwrap() < end,
            r is None ==> self == BVHConstructionAlgorithm::SAH && end - start <= 16
                && final(info)@ == old(info)@,
            self == BVHConstructionAlgorithm::SAH && end - start <= 4 ==> r is Some,
            self == BVHConstructionAlgorithm::SAH && end - start > 4 ==> (r is Some
                <==> spec_sah_splits(
                old(info)@,
                start as int,
                end as int,
                *centroid_bounds,
                dimension as int,
                aggregate_bounds.spec_surface_area(),
            )),
            r matches Some(mid) ==> match self {
                BVHConstructionAlgorithm::Middle => midpoint_partitioned(
                    final(info)@,
                    start as int,
                    mid as int,
                    end as int,
                    dimension as int,
                    spec_mid_point(*centroid_bounds, dimension as int),
                ) || (mid == start + (end - start) / 2 && median_partitioned(
                    final(info)@,
                    start as int,
                    mid as int,
                    end as int,
                    dimension as int,
                )),
                BVHConstructionAlgorithm::Equal => mid == start + (end - start) / 2
                    && median_partitioned(
                    final(info)@,
                    start as int,
                    mid as int,
                    end as int,
                    dimension as int,
                ),
                BVHConstructionAlgorithm::SAH => if end - start <= 4 {
                    mid == start + (end - start) / 2 && median_partitioned(
                        final(info)@,
                        start as int,
                        mid as int,
                        end as int,
                        dimension as int,
                    )
                } else {
                    bucket_partitioned(
                        final(info)@,
                        start as int,
                        mid as int,
                        end as int,
                        *centroid_bounds,
                        dimension as int,
                        spec_sah_choice(
                            old(info)@,
                            start as int,
                            end as int,
                            *centroid_bounds,
                            dimension as int,
                            aggregate_bounds.spec_surface_area(),
                        ).1,
                    ) || (mid == start + (end - start) / 2 && median_partitioned(
                        final(info)@,
                        start as int,
                        mid as int,
                        end as int,
                        dimension as int,
                    ))
                },
            },
    {
        match self {
            BVHConstructionAlgorithm::Middle => {
                let pmid = fx_div(
                    fx_add(
                        centroid_bounds.min_vector.dim(dimension),
                        centroid_bounds.max_vector.dim(dimension),
                    ),
                    2 * SCALE,
                );
                let pred = |pi: &BVHPrimitiveInfo| -> (b: bool)
                    ensures
                        b == (pi.centre.spec_dim(dimension as int) < pmid),
                    { pi.centre.dim(dimension) < pmid };
                let middle = partition_range(info, start, end, pred);
                if middle == start || middle == end {
                    let mid = start + (end - start) / 2;
                    let ghost pre = info@;
                    select_by_centre(info, start, end, mid, dimension);
                    proof {
                        lemma_subrange_multiset_trans(
                            old(info)@,
                            pre,
                            info@,
                            start as int,
                            end as int,
                        );
                    }
                    Some(mid)
                } else {
                    proof {
                        assert forall|i: int|
                            start <= i < middle implies (#[trigger] info@[i]).centre.spec_dim(
                            dimension as int,
                        ) < pmid by {
                            assert(call_ensures(pred, (&info@[i],), true));
                        }
                        assert forall|i: int|
                            middle <= i < end implies !((#[trigger] info@[i]).centre.spec_dim(
                            dimension as int,
                        ) < pmid) by {
                            assert(call_ensures(pred, (&info@[i],), false));
                        }
                    }
                    Some(middle)
                }
            },
            BVHConstructionAlgorithm::Equal => {
                let middle = start + (end - start) / 2;
                select_by_centre(info, start, end, middle, dimension);
                Some(middle)
            },
            BVHConstructionAlgorithm::SAH => {
                if end - start <= 4 {
                    let middle = start + (end - start) / 2;
                    select_by_centre(info, start, end, middle, dimension);
                    Some(middle)
                } else {
                    let split = sah_choose_split(info, start, end, dimension, aggregate_bounds, centroid_bounds);
                    match split {
                        None => {
                            proof {
                                // A declined split means the heuristic saw
                                // no boundary cheaper than a leaf, which an
                                // oversized range never allows.
                                assert(end - start <= 16) by {
                                    reveal(spec_sah_splits);
                                }
                            }
                            None
                        },
                        Some(split_bucket) => {
                            let cb = *centroid_bounds;
                            let pred = |pi: &BVHPrimitiveInfo| -> (b: bool)
                                ensures
                                    b == (spec_bucket(cb, pi.centre, dimension as int)
                                        <= split_bucket as int),
                                { bucket_of(&cb, &pi.centre, dimension) <= split_bucket };
                            let middle = partition_range(info, start, end, pred);
                            proof {
                                if start < middle < end {
                                    assert forall|i: int|
                                        start <= i < middle implies spec_bucket(
                                        cb,
                                        (#[trigger] info@[i]).centre,
                                        dimension as int,
                                    ) <= split_bucket as int by {
                                        assert(call_ensures(pred, (&info@[i],), true));
                                    }
                                    assert forall|i: int|
                                        middle <= i < end implies !(spec_bucket(
                                        cb,
                                        (#[trigger] info@[i]).centre,
                                        dimension as int,
                                    ) <= split_bucket as int) by {
                                        assert(call_ensures(pred, (&info@[i],), false));
                                    }
                                    assert(bucket_partitioned(
                                        info@,
                                        start as int,
                                        middle as int,
                                        end as int,
                                        cb,
                                        dimension as int,
                                        split_bucket as int,
                                    ));
                                }
                            }
                            if middle == start || middle == end {
                                // Every primitive fell on one side of the
                                // chosen boundary: fall back to a median
                                // split so that both halves stay non-empty.
                                let mid = start + (end - start) / 2;
                                let ghost pre = info@;
                                select_by_centre(info, start, end, mid, dimension);
                                proof {
                                    lemma_subrange_multiset_trans(
                                        old(info)@,
                                        pre,
                                        info@,
                                        start as int,
                                        end as int,
                                    );
                                }
                                Some(mid)
                            } else {
                                Some(middle)
                            }
                        },
                    }
                }
            },
        }
    }
}

/// Chaining two range permutations is a range permutation.
proof fn lemma_subrange_multiset_trans(s0: Seq<BVHPrimitiveInfo>, s1: Seq<BVHPrimitiveInfo>, s2: Seq<BVHPrimitiveInfo>, lo: int, hi: int)
    requires
        0 <= lo <= hi <= s0.len(),
        s0.len() == s1.len() == s2.len(),
        s0.subrange(lo, hi).to_multiset() == s1.subrange(lo, hi).to_multiset(),
        s1.subrange(lo, hi).to_multiset() == s2.subrange(lo, hi).to_multiset(),
    ensures
        s0.subrange(lo, hi).to_multiset() == s2.subrange(lo, hi).to_multiset(),
{
}

/// Pick the cheapest of the eleven bucket boundaries, or `None` when a
/// leaf is at least as cheap and small enough to be allowed.
fn sah_choose_split(
    info: &Vec<BVHPrimitiveInfo>,
    start: usize,
    end: usize,
    dimension: u32,
    aggregate_bounds: &BoundingBox,
    centroid_bounds: &BoundingBox,
) -> (r: Option<usize>)
    requires
        start + 2 <= end <= info@.len(),
        dimension < 3,
    ensures
        r is Some <==> spec_sah_splits(
            info@,
            start as int,
            end as int,
            *centroid_bounds,
            dimension as int,
            aggregate_bounds.spec_surface_area(),
        ),
        r matches Some(b) ==> b < 11 && b as int == spec_sah_choice(
            info@,
            start as int,
            end as int,
            *centroid_bounds,
            dimension as int,
            aggregate_bounds.spec_surface_area(),
        ).1,
{
    let ghost sa = aggregate_bounds.spec_surface_area();
    // Bin the centroids into the buckets.
    let mut buckets: Vec<BucketInfo> = Vec::new();
    let mut bi: usize = 0;
    while bi < BUCKET_AMOUNT
        invariant
            buckets@.len() == bi,
            bi <= BUCKET_AMOUNT,
            forall|b: int|
                0 <= b < bi ==> (#[trigger] buckets@[b]) == (BucketInfo {
                    count: 0,
                    bounding_box: BoundingBox::spec_empty(),
                }),
        decreases BUCKET_AMOUNT - bi,
    {
        buckets.push(BucketInfo { count: 0, bounding_box: BoundingBox::empty() });
        bi = bi + 1;
    }
    proof {
        assert(buckets@ =~= spec_empty_buckets());
    }
    let mut k = start;
    while k < end
        invariant
            dimension < 3,
            start <= k <= end <= info@.len(),
            buckets@.len() == BUCKET_AMOUNT,
            forall|b: int| 0 <= b < 12 ==> (#[trigger] buckets@[b]).count <= k - start,
            buckets@ == spec_fill_buckets(
                info@,
                start as int,
                k as int,
                *centroid_bounds,
                dimension as int,
            ),
        decreases end - k,
    {
        let b = bucket_of(centroid_bounds, &info[k].centre, dimension);
        let cur = buckets[b];
        let merged = cur.bounding_box.merge(&info[k].bounding_box);
        buckets.set(b, BucketInfo { count: cur.count + 1, bounding_box: merged });
        k = k + 1;
    }
    let ghost gbuckets = buckets@;
    // Cost of splitting after each bucket boundary, by the standard
    // two-pass prefix and suffix accumulation.
    let sa_parent = aggregate_bounds.surface_area();
    let mut cost: Vec<i64> = Vec::new();
    let mut n: usize = 0;
    while n < BUCKET_AMOUNT - 1
        invariant
            cost@.len() == n,
            n <= BUCKET_AMOUNT - 1,
            buckets@.len() == BUCKET_AMOUNT,
            buckets@ == gbuckets,
            sa_parent as int == sa,
            forall|j: int| 0 <= j < n ==> cost@[j] == spec_sah_cost(gbuckets, sa, j),
        decreases BUCKET_AMOUNT - n,
    {
        let mut bounds_a = BoundingBox::empty();
        let mut bounds_b = BoundingBox::empty();
        let mut count_a: usize = 0;
        let mut count_b: usize = 0;
        let mut i: usize = 0;
        while i <= n
            invariant
                i <= n + 1,
                n < BUCKET_AMOUNT,
                buckets@.len() == BUCKET_AMOUNT,
                buckets@ == gbuckets,
                bounds_a == spec_merge_buckets(gbuckets, 0, i as int),
                count_a as int == spec_count_buckets(gbuckets, 0, i as int),
            decreases n + 1 - i,
        {
            bounds_a = bounds_a.merge(&buckets[i].bounding_box);
            count_a = saturating_add_usize(count_a, buckets[i].count);
            i = i + 1;
        }
        let mut j: usize = n + 1;
        while j < BUCKET_AMOUNT
            invariant
                n + 1 <= j <= BUCKET_AMOUNT,
                buckets@.len() == BUCKET_AMOUNT,
                buckets@ == gbuckets,
                bounds_b == spec_merge_buckets(gbuckets, n + 1, j as int),
                count_b as int == spec_count_buckets(gbuckets, n + 1, j as int),
            decreases BUCKET_AMOUNT - j,
        {
            bounds_b = bounds_b.merge(&buckets[j].bounding_box);
            count_b = saturating_add_usize(count_b, buckets[j].count);
            j = j + 1;
        }
        let traverse_cost = fx_add(
            8192,  // an eighth of a unit for walking one interior node
            fx_div(
                fx_add(
                    fx_mul(fx_of_count(count_a), bounds_a.surface_area()),
                    fx_mul(fx_of_count(count_b), bounds_b.surface_area()),
                ),
                sa_parent,
            ),
        );
        proof {
            assert(traverse_cost == spec_sah_cost(gbuckets, sa, n as int)) by {
                reveal(spec_sah_cost);
            }
        }
        cost.push(traverse_cost);
        n = n + 1;
    }
    let ghost gcosts = spec_sah_costs(
        info@,
        start as int,
        end as int,
        *centroid_bounds,
        dimension as int,
        sa,
    );
    proof {
        assert(cost@ =~= gcosts) by {
            reveal(spec_sah_costs);
        }
    }
    // The boundary with the least cost, earliest boundary winning ties.
    let mut minimum_cost = cost[0];
    let mut minimum_at: usize = 0;
    let mut ci: usize = 1;
    while ci < BUCKET_AMOUNT - 1
        invariant
            cost@.len() == BUCKET_AMOUNT - 1,
            cost@ == gcosts,
            1 <= ci <= BUCKET_AMOUNT - 1,
            minimum_at < BUCKET_AMOUNT - 1,
            spec_min_scan(gcosts, ci as int, minimum_cost, minimum_at as int) == spec_min_scan(
                gcosts,
                1,
                gcosts[0],
                0,
            ),
        decreases BUCKET_AMOUNT - 1 - ci,
    {
        if cost[ci] < minimum_cost {
            minimum_cost = cost[ci];
            minimum_at = ci;
        }
        ci = ci + 1;
    }
    proof {
        assert(spec_min_scan(gcosts, ci as int, minimum_cost, minimum_at as int) == (
            minimum_cost,
            minimum_at as int,
        ));
    }
    proof {
        reveal(spec_sah_choice);
        reveal(spec_sah_splits);
    }
    // A leaf costs one unit per primitive it holds; split when splitting is
    // cheaper, and always split oversized ranges.
    let len = end - start;
    if len > 16 || minimum_cost < fx_of_count(len) {
        Some(minimum_at)
    } else {
        None
    }
}

/// Add two counts without wrapping.
fn saturating_add_usize(a: usize, b: usize) -> (r: usize)
    ensures
        r as int == fixed::min_int(a as int + b as int, usize::MAX as int),
{
    if a <= usize::MAX - b {
        a + b
    } else {
        usize::MAX
    }
}

/// A construction-time tree node: a leaf holding a contiguous run of the
/// reordered primitives, or an interior node owning two children.
#[derive(Debug)]
pub enum BVHBuildNode {
    Leaf { primitive_index: usize, primitive_amount: usize, bounding_box: BoundingBox },
    Interior {
        split_axis: u32,
        bounding_box: BoundingBox,
        left: Box<BVHBuildNode>,
        right: Box<BVHBuildNode>,
    },
}

impl BVHBuildNode {
    /// The node's own bounding box.
    pub open spec fn spec_box(self) -> BoundingBox {
        match self {
            BVHBuildNode::Leaf { bounding_box, .. } => bounding_box,
            BVHBuildNode::Interior { bounding_box, .. } => bounding_box,
        }
    }

    /// How many nodes the subtree holds, itself included.
    pub open spec fn node_count(self) -> nat
        decreases self,
    {
        match self {
            BVHBuildNode::Leaf { .. } => 1,
            BVHBuildNode::Interior { left, right, .. } => 1 + (*left).node_count() + (
            *right).node_count(),
        }
    }

    /// How many leaves the subtree holds.
    pub open spec fn leaf_count(self) -> nat
        decreases self,
    {
        match self {
            BVHBuildNode::Leaf { .. } => 1,
            BVHBuildNode::Interior { left, right, .. } => (*left).leaf_count() + (
            *right).leaf_count(),
        }
    }

    /// How many primitives the subtree's leaves hold together.
    pub open spec fn prim_count(self) -> nat
        decreases self,
    {
        match self {
            BVHBuildNode::Leaf { primitive_amount, .. } => primitive_amount as nat,
            BVHBuildNode::Interior { left, right, .. } => (*left).prim_count() + (
            *right).prim_count(),
        }
    }

    /// Whether every leaf holds exactly one primitive, which is the case
    /// whenever no split was refused or degenerate.
    pub open spec fn all_leaves_single(self) -> bool
        decreases self,
    {
        match self {
            BVHBuildNode::Leaf { primitive_amount, .. } => primitive_amount == 1,
            BVHBuildNode::Interior { left, right, .. } => (*left).all_leaves_single() && (
            *right).all_leaves_single(),
        }
    }

    /// Whether the subtree's leaves tile the reordered primitive collection
    /// contiguously from `lo` on, each leaf holding at least one primitive.
    pub open spec fn wf(self, lo: int) -> bool
        decreases self,
    {
        match self {
            BVHBuildNode::Leaf { primitive_index, primitive_amount, .. } => primitive_index == lo
                && primitive_amount >= 1,
            BVHBuildNode::Interior { left, right, .. } => (*left).wf(lo) && (*right).wf(
                lo + (*left).prim_count(),
            ),
        }
    }

    /// Whether every node's box surrounds the boxes of the primitives under
    /// it: leaves surround their run directly, interior nodes surround the
    /// boxes of both children.
    pub open spec fn boxes_ok(self, prims: Seq<Shape>) -> bool
        decreases self,
    {
        match self {
            BVHBuildNode::Leaf { primitive_index, primitive_amount, bounding_box } => {
                &&& primitive_index + primitive_amount <= prims.len()
                &&& forall|i: int|
                    primitive_index <= i < primitive_index + primitive_amount
                        ==> bounding_box.spec_covers((#[trigger] prims[i]).spec_bounding_box())
            },
            BVHBuildNode::Interior { bounding_box, left, right, .. } => {
                &&& (*left).boxes_ok(prims)
                &&& (*right).boxes_ok(prims)
                &&& bounding_box.spec_covers((*left).spec_box())
                &&& bounding_box.spec_covers((*right).spec_box())
            },
        }
    }

    /// The data-model box invariant, exactly: a leaf's box is the hull of
    /// the boxes of the primitives in its run, and an interior node's box
    /// is the merge of its two children's boxes — derived, never set freely.
    pub open spec fn boxes_exact(self, prims: Seq<Shape>) -> bool
        decreases self,
    {
        match self {
            BVHBuildNode::Leaf { primitive_index, primitive_amount, bounding_box } => {
                &&& primitive_index + primitive_amount <= prims.len()
                &&& bounding_box == spec_fold_shape_bounds(
                    prims,
                    primitive_index as int,
                    primitive_index + primitive_amount,
                )
            },
            BVHBuildNode::Interior { bounding_box, left, right, .. } => {
                &&& (*left).boxes_exact(prims)
                &&& (*right).boxes_exact(prims)
                &&& bounding_box == (*left).spec_box().spec_merge((*right).spec_box())
            },
        }
    }

    /// Constructor helper for leaves.
    pub fn new_leaf(index: usize, primitive_amount: usize, bounds: BoundingBox) -> (r:
        BVHBuildNode)
        ensures
            r == (BVHBuildNode::Leaf {
                primitive_index: index,
                primitive_amount,
                bounding_box: bounds,
            }),
    {
        BVHBuildNode::Leaf { primitive_index: index, primitive_amount, bounding_box: bounds }
    }

    /// Constructor helper for branches; the box is the hull of the children.
    pub fn new_branch(axis: u32, left: Box<BVHBuildNode>, right: Box<BVHBuildNode>) -> (r:
        BVHBuildNode)
        ensures
            r == (BVHBuildNode::Interior {
                split_axis: axis,
                bounding_box: (*left).spec_box().spec_merge((*right).spec_box()),
                left,
                right,
            }),
    {
        let bounding_box = match (&*left, &*right) {
            (l, r) => {
                let lb = match l {
                    BVHBuildNode::Leaf { bounding_box, .. } => *bounding_box,
                    BVHBuildNode::Interior { bounding_box, .. } => *bounding_box,
                };
                let rb = match r {
                    BVHBuildNode::Leaf { bounding_box, .. } => *bounding_box,
                    BVHBuildNode::Interior { bounding_box, .. } => *bounding_box,
                };
                lb.merge(&rb)
            },
        };
        BVHBuildNode::Interior { split_axis: axis, bounding_box, left, right }
    }
}

/// In a tree of binary splits the node count is one less than twice the
/// leaf count; with every leaf holding one primitive that makes exactly
/// `2 * N - 1` nodes for `N` primitives.
pub proof fn lemma_node_count(node: BVHBuildNode, lo: int)
    requires
        node.wf(lo),
    ensures
        node.node_count() == 2 * node.leaf_count() - 1,
        1 <= node.leaf_count() <= node.prim_count(),
        node.all_leaves_single() ==> node.leaf_count() == node.prim_count(),
    decreases node,
{
    match node {
        BVHBuildNode::Leaf { .. } => {},
        BVHBuildNode::Interior { left, right, .. } => {
            lemma_node_count(*left, lo);
            lemma_node_count(*right, lo + (*left).prim_count());
        },
    }
}

/// A subtree whose boxes are sound for a collection stays sound when the
/// collection is extended past the part the subtree points at.
proof fn lemma_boxes_ok_extend(node: BVHBuildNode, s1: Seq<Shape>, s2: Seq<Shape>)
    requires
        node.boxes_ok(s1),
        s1.len() <= s2.len(),
        s2.subrange(0, s1.len() as int) == s1,
    ensures
        node.boxes_ok(s2),
    decreases node,
{
    match node {
        BVHBuildNode::Leaf { primitive_index, primitive_amount, bounding_box } => {
            assert forall|i: int|
                primitive_index <= i < primitive_index + primitive_amount implies bounding_box
                .spec_covers((#[trigger] s2[i]).spec_bounding_box()) by {
                assert(s2[i] == s2.subrange(0, s1.len() as int)[i]);
            }
        },
        BVHBuildNode::Interior { left, right, .. } => {
            lemma_boxes_ok_extend(*left, s1, s2);
            lemma_boxes_ok_extend(*right, s1, s2);
        },
    }
}

/// A subtree whose boxes are exact for a collection stays exact when the
/// collection is extended past the part the subtree points at.
proof fn lemma_boxes_exact_extend(node: BVHBuildNode, s1: Seq<Shape>, s2: Seq<Shape>)
    requires
        node.boxes_exact(s1),
        s1.len() <= s2.len(),
        s2.subrange(0, s1.len() as int) == s1,
    ensures
        node.boxes_exact(s2),
    decreases node,
{
    match node {
        BVHBuildNode::Leaf { primitive_index, primitive_amount, .. } => {
            lemma_fold_shapes_prefix(
                s1,
                s2,
                primitive_index as int,
                primitive_index + primitive_amount,
            );
        },
        BVHBuildNode::Interior { left, right, .. } => {
            lemma_boxes_exact_extend(*left, s1, s2);
            lemma_boxes_exact_extend(*right, s1, s2);
        },
    }
}

/// A permutation of one range keeps `info_ok`: the same descriptions are
/// still there, merely in another order.
proof fn lemma_info_ok_permuted(
    s0: Seq<BVHPrimitiveInfo>,
    s1: Seq<BVHPrimitiveInfo>,
    prims: Seq<Shape>,
    lo: int,
    hi: int,
)
    requires
        0 <= lo <= hi <= s0.len(),
        s0.len() == s1.len(),
        s0.subrange(lo, hi).to_multiset() == s1.subrange(lo, hi).to_multiset(),
        forall|i: int| (0 <= i < lo || hi <= i < s0.len()) ==> s1[i] == s0[i],
        info_ok(s0, prims),
    ensures
        info_ok(s1, prims),
{
    let sub0 = s0.subrange(lo, hi);
    let sub1 = s1.subrange(lo, hi);
    assert forall|k: int| 0 <= k < s1.len() implies {
        &&& (#[trigger] s1[k]).index < prims.len()
        &&& s1[k].bounding_box == prims[s1[k].index as int].spec_bounding_box()
        &&& s1[k].centre == prims[s1[k].index as int].spec_bounding_box().spec_centre()
    } by {
        if lo <= k < hi {
            sub0.to_multiset_ensures();
            sub1.to_multiset_ensures();
            assert(sub1[k - lo] == s1[k]);
            assert(sub1.contains(sub1[k - lo]));
            assert(sub1.to_multiset().count(sub1[k - lo]) > 0);
            assert(sub0.contains(sub1[k - lo]));
            let j = choose|j: int| 0 <= j < sub0.len() && sub0[j] == sub1[k - lo];
            assert(s0[lo + j] == sub0[j]);
        } else {
            assert(s1[k] == s0[k]);
        }
    }
}

/// Build the subtree for `info[start..end]`, appending that range's
/// primitives, grouped leaf by leaf, onto `ordered_shapes`.
#[verifier::rlimit(100)]
pub fn recursive_build(
    algorithm: BVHConstructionAlgorithm,
    primitives: &Vec<Shape>,
    info: &mut Vec<BVHPrimitiveInfo>,
    start: usize,
    end: usize,
    total_nodes: &mut usize,
    ordered_shapes: &mut Vec<Shape>,
) -> (node: BVHBuildNode)
    requires
        start < end <= old(info)@.len(),
        info_ok(old(info)@, primitives@),
        *old(total_nodes) + 2 * (end - start) <= usize::MAX,
        old(ordered_shapes)@.len() + (end - start) <= usize::MAX,
    ensures
        final(info)@.len() == old(info)@.len(),
        final(info)@.subrange(start as int, end as int).to_multiset() == old(info)@.subrange(
            start as int,
            end as int,
        ).to_multiset(),
        forall|i: int|
            (0 <= i < start || end <= i < old(info)@.len()) ==> final(info)@[i] == old(info)@[i],
        info_ok(final(info)@, primitives@),
        node.prim_count() == end - start,
        node.wf(old(ordered_shapes)@.len() as int),
        node.node_count() == *final(total_nodes) - *old(total_nodes),
        node.node_count() <= 2 * (end - start) - 1,
        final(ordered_shapes)@.len() == old(ordered_shapes)@.len() + (end - start),
        final(ordered_shapes)@.subrange(0, old(ordered_shapes)@.len() as int) == old(
            ordered_shapes,
        )@,
        node.boxes_ok(final(ordered_shapes)@),
        node.boxes_exact(final(ordered_shapes)@),
        node.spec_box() == spec_fold_bounds(old(info)@, start as int, end as int),
        forall|k: int|
            0 <= k < end - start ==> final(ordered_shapes)@[old(ordered_shapes)@.len() + k]
                == primitives@[(#[trigger] final(info)@[start + k]).index as int],
    decreases end - start,
{
    *total_nodes = *total_nodes + 1;
    let aggregate_bounds = fold_bounds(info, start, end);
    let len = end - start;
    let first_offset = ordered_shapes.len();
    if len == 1 {
        push_leaf_shapes(primitives, info, start, end, ordered_shapes);
        proof {
            lemma_leaf_boxes(info@, primitives@, ordered_shapes@, start as int, end as int, first_offset as int);
            assert forall|k: int|
                0 <= k < end - start implies (#[trigger] ordered_shapes@[first_offset + k]).spec_bounding_box()
                == info@[start + k].bounding_box by {
                assert(ordered_shapes@[first_offset + k] == primitives@[info@[start + k].index as int]);
            }
            lemma_fold_shapes_agree(info@, ordered_shapes@, start as int, end as int, first_offset as int);
        }
        return BVHBuildNode::new_leaf(first_offset, len, aggregate_bounds);
    }
    let centroid_bounds = fold_centroids(info, start, end);
    let dimension = centroid_bounds.max_extent();
    let extent = fx_sub(
        centroid_bounds.max_vector.dim(dimension),
        centroid_bounds.min_vector.dim(dimension),
    );
    if extent == 0 {
        // All centroids coincide on the chosen axis: splitting could never
        // make progress, so this range becomes one leaf.
        push_leaf_shapes(primitives, info, start, end, ordered_shapes);
        proof {
            lemma_leaf_boxes(info@, primitives@, ordered_shapes@, start as int, end as int, first_offset as int);
            assert forall|k: int|
                0 <= k < end - start implies (#[trigger] ordered_shapes@[first_offset + k]).spec_bounding_box()
                == info@[start + k].bounding_box by {
                assert(ordered_shapes@[first_offset + k] == primitives@[info@[start + k].index as int]);
            }
            lemma_fold_shapes_agree(info@, ordered_shapes@, start as int, end as int, first_offset as int);
        }
        return BVHBuildNode::new_leaf(first_offset, len, aggregate_bounds);
    }
    let split = algorithm.perform_partitioning(
        info,
        start,
        end,
        dimension,
        &aggregate_bounds,
        &centroid_bounds,
    );
    proof {
        lemma_info_ok_permuted(old(info)@, info@, primitives@, start as int, end as int);
    }
    match split {
        Some(middle) => {
            let ghost info_mid = info@;
            let ghost ordered0 = old(ordered_shapes)@;
            let left = recursive_build(
                algorithm,
                primitives,
                info,
                start,
                middle,
                total_nodes,
                ordered_shapes,
            );
            let ghost info_left = info@;
            let ghost ordered1 = ordered_shapes@;
            let right = recursive_build(
                algorithm,
                primitives,
                info,
                middle,
                end,
                total_nodes,
                ordered_shapes,
            );
            proof {
                // The two child ranges together permute the parent range.
                lemma_split_permutation(info_mid, info_left, info@, start as int, middle as int, end as int);
                lemma_subrange_multiset_trans(old(info)@, info_mid, info@, start as int, end as int);
                // The left child's boxes stay sound after the right child
                // extended the collection.
                assert(ordered_shapes@.subrange(0, ordered1.len() as int).subrange(
                    0,
                    ordered0.len() as int,
                ) =~= ordered_shapes@.subrange(0, ordered0.len() as int));
                lemma_boxes_ok_extend(left, ordered1, ordered_shapes@);
                lemma_boxes_exact_extend(left, ordered1, ordered_shapes@);
                // The parent's box, the merge of the children's, is the
                // hull of the whole range as it stood on entry.
                lemma_fold_bounds_agree(info_left, info_mid, middle as int, end as int);
                lemma_fold_perm_split(old(info)@, info_mid, start as int, middle as int, end as int);
                // The appended run holds, in order, exactly the shapes the
                // range's entries point at: the left child filled the first
                // half, the right child the second.
                assert forall|k: int|
                    0 <= k < end - start implies ordered_shapes@[ordered0.len() + k]
                    == primitives@[(#[trigger] info@[start + k]).index as int] by {
                    if k < middle - start {
                        assert(ordered_shapes@[ordered0.len() + k] == ordered_shapes@.subrange(
                            0,
                            ordered1.len() as int,
                        )[ordered0.len() + k]);
                        assert(ordered_shapes@[ordered0.len() + k] == ordered1[ordered0.len() + k]);
                        assert(ordered1[ordered0.len() + k] == primitives@[info_left[start + k].index as int]);
                        assert(info@[start + k] == info_left[start + k]);
                    } else {
                        let k2 = k - (middle - start);
                        assert(ordered_shapes@[ordered1.len() + k2] == primitives@[info@[
                            middle + k2
                        ].index as int]);
                    }
                }
            }
            let node = BVHBuildNode::new_branch(dimension, Box::new(left), Box::new(right));
            proof {
                crate::bounds::lemma_merge_covers(left.spec_box(), right.spec_box());
            }
            node
        },
        None => {
            push_leaf_shapes(primitives, info, start, end, ordered_shapes);
            proof {
                lemma_leaf_boxes(info@, primitives@, ordered_shapes@, start as int, end as int, first_offset as int);
                assert forall|k: int|
                    0 <= k < end - start implies (#[trigger] ordered_shapes@[first_offset + k]).spec_bounding_box()
                    == info@[start + k].bounding_box by {
                    assert(ordered_shapes@[first_offset + k] == primitives@[info@[start + k].index as int]);
                }
                lemma_fold_shapes_agree(info@, ordered_shapes@, start as int, end as int, first_offset as int);
            }
            BVHBuildNode::new_leaf(first_offset, len, aggregate_bounds)
        },
    }
}

/// A BVH-based accelerator, used for constructing linear trees.
pub struct BVHAccel {
    primitives: Vec<Shape>,
    algorithm: BVHConstructionAlgorithm,
}

impl BVHAccel {
    /// The primitives the accelerator currently holds.
    pub closed spec fn spec_primitives(self) -> Seq<Shape> {
        self.primitives@
    }

    /// Wrap a primitive collection and a split policy.
    pub fn new(algorithm: BVHConstructionAlgorithm, primitives: Vec<Shape>) -> (r: BVHAccel)
        ensures
            r.spec_primitives() == primitives@,
    {
        BVHAccel { primitives, algorithm }
    }

    /// Build the tree, reordering the held primitives so that each leaf's
    /// members are contiguous. Fails exactly when there are no primitives.
    pub fn construct(&mut self) -> (r: Option<(usize, BVHBuildNode)>)
        requires
            2 * old(self).spec_primitives().len() <= usize::MAX,
        ensures
            r is None <==> old(self).spec_primitives().len() == 0,
            final(self).spec_primitives().len() == old(self).spec_primitives().len(),
            r matches Some((total, node)) ==> {
                &&& total == node.node_count()
                &&& node.node_count() <= 2 * old(self).spec_primitives().len() - 1
                &&& node.prim_count() == old(self).spec_primitives().len()
                &&& node.wf(0)
                &&& node.boxes_ok(final(self).spec_primitives())
                &&& node.boxes_exact(final(self).spec_primitives())
                &&& node.spec_box() == spec_fold_shape_bounds(
                    old(self).spec_primitives(),
                    0,
                    old(self).spec_primitives().len() as int,
                )
                &&& final(self).spec_primitives().to_multiset() == old(
                    self,
                ).spec_primitives().to_multiset()
            },
    {
        let len = self.primitives.len();
        if len == 0 {
            return None;
        }
        // Gather the per-primitive build information.
        let mut primitive_info: Vec<BVHPrimitiveInfo> = Vec::new();
        let mut i: usize = 0;
        while i < len
            invariant
                i <= len,
                len == self.primitives@.len(),
                primitive_info@.len() == i,
                info_ok(primitive_info@, self.primitives@),
                forall|j: int| 0 <= j < i ==> (#[trigger] primitive_info@[j]).index == j,
            decreases len - i,
        {
            let bb = self.primitives[i].bounding_box();
            let centre = bb.centre();
            primitive_info.push(BVHPrimitiveInfo { bounding_box: bb, centre, index: i });
            i = i + 1;
        }
        let ghost info0 = primitive_info@;
        let mut total_nodes: usize = 0;
        let mut ordered_shapes: Vec<Shape> = Vec::new();
        let node = recursive_build(
            self.algorithm,
            &self.primitives,
            &mut primitive_info,
            0,
            len,
            &mut total_nodes,
            &mut ordered_shapes,
        );
        proof {
            assert(ordered_shapes@.subrange(0, 0) =~= Seq::<Shape>::empty());
            // The reordered collection is a permutation of the input: the
            // info entries were only permuted, and mapping each entry to
            // the shape it points at gives on one side the new collection,
            // on the other the input itself.
            let f = |pi: BVHPrimitiveInfo| shape_of(self.primitives@, pi);
            assert(info0.subrange(0, len as int) =~= info0);
            assert(primitive_info@.subrange(0, len as int) =~= primitive_info@);
            lemma_map_shapes_multiset(primitive_info@, info0, self.primitives@);
            assert forall|k: int| 0 <= k < len implies ordered_shapes@[k] == f(
                primitive_info@[k],
            ) by {
                assert(ordered_shapes@[0 + k] == self.primitives@[(primitive_info@[0 + k]).index as int]);
            }
            assert(ordered_shapes@ =~= primitive_info@.map_values(f));
            assert(info0.map_values(f) =~= self.primitives@);
            // The root's box is the hull of the input shapes' boxes.
            assert forall|k: int|
                0 <= k < len implies (#[trigger] self.primitives@[0 + k]).spec_bounding_box()
                == info0[0 + k].bounding_box by {
                assert(info0[k].index == k);
            }
            lemma_fold_shapes_agree(info0, self.primitives@, 0, len as int, 0);
        }
        self.primitives = ordered_shapes;
        Some((total_nodes, node))
    }

    /// Flatten an owned build tree into a contiguous, index-addressed array.
    pub fn flatten(self, node: BVHBuildNode, total_nodes: usize) -> (tree: BVHLinearTree)
        requires
            node.wf(0),
            node.boxes_ok(self.spec_primitives()),
            node.boxes_exact(self.spec_primitives()),
            node.prim_count() == self.spec_primitives().len(),
            total_nodes == node.node_count(),
        ensures
            tree.wf(),
            tree.spec_primitives() == self.spec_primitives(),
            tree.spec_node_count() == total_nodes,
            tree.spec_tree() == node,
    {
        let ghost gnode = node;
        let mut linear_nodes: Vec<BVHLinearNode> = Vec::new();
        flatten_from(&mut linear_nodes, &node);
        BVHLinearTree { linear_nodes, primitives: self.primitives, tree: Ghost(gnode) }
    }
}

/// A compacted node of the flattened tree. For a leaf, `node_content` is
/// the offset of its first primitive in the reordered collection; for an
/// interior node it is the index of the right child, the left child being
/// the next array slot.
#[derive(Debug, Clone, Copy, PartialEq, Eq, Structural)]
pub struct BVHLinearNode {
    pub bounding_box: BoundingBox,
    pub primitive_amount: usize,
    pub node_content: usize,
    pub axis: u32,
}

/// The flattened tree: one contiguous node array beside the reordered
/// primitives, with the build tree it came from kept as its ghost shadow.
pub struct BVHLinearTree {
    pub linear_nodes: Vec<BVHLinearNode>,
    pub primitives: Vec<Shape>,
    pub tree: Ghost<BVHBuildNode>,
}

/// Whether the array `nodes` spells out the subtree `node` starting at
/// slot `at`, children of interior nodes laid out depth first.
pub open spec fn lin_matches(nodes: Seq<BVHLinearNode>, node: BVHBuildNode, at: int) -> bool
    decreases node,
{
    match node {
        BVHBuildNode::Leaf { primitive_index, primitive_amount, bounding_box } => {
            &&& 0 <= at < nodes.len()
            &&& nodes[at] == (BVHLinearNode {
                bounding_box,
                primitive_amount,
                node_content: primitive_index,
                axis: 0,
            })
        },
        BVHBuildNode::Interior { split_axis, bounding_box, left, right } => {
            &&& 0 <= at < nodes.len()
            &&& nodes[at].primitive_amount == 0
            &&& nodes[at].bounding_box == bounding_box
            &&& nodes[at].axis == split_axis
            &&& nodes[at].node_content == at + 1 + (*left).node_count()
            &&& lin_matches(nodes, *left, at + 1)
            &&& lin_matches(nodes, *right, at + 1 + (*left).node_count())
        },
    }
}

/// A laid-out subtree only reads the slots it occupies, so any array that
/// agrees on those slots spells it out too.
proof fn lemma_lin_matches_stable(
    n1: Seq<BVHLinearNode>,
    n2: Seq<BVHLinearNode>,
    node: BVHBuildNode,
    at: int,
    lo: int,
    hi: int,
)
    requires
        lin_matches(n1, node, at),
        lo <= at,
        at + node.node_count() <= hi,
        hi <= n2.len(),
        forall|p: int| lo <= p < hi ==> #[trigger] n2[p] == n1[p],
    ensures
        lin_matches(n2, node, at),
    decreases node,
{
    match node {
        BVHBuildNode::Leaf { .. } => {
            assert(n2[at] == n1[at]);
        },
        BVHBuildNode::Interior { left, right, .. } => {
            assert(node.node_count() == 1 + (*left).node_count() + (*right).node_count());
            assert(n2[at] == n1[at]);
            lemma_lin_matches_stable(n1, n2, *left, at + 1, lo, hi);
            lemma_lin_matches_stable(n1, n2, *right, at + 1 + (*left).node_count(), lo, hi);
        },
    }
}

/// Append the subtree onto the array depth first: the node itself, then
/// the whole left child (landing at the very next slot), then the right
/// child, whose slot index is written back into the parent.
fn flatten_from(nodes: &mut Vec<BVHLinearNode>, node: &BVHBuildNode) -> (my_offset: usize)
    requires
        old(nodes)@.len() + node.node_count() <= usize::MAX,
    ensures
        final(nodes)@.len() == old(nodes)@.len() + node.node_count(),
        final(nodes)@.subrange(0, old(nodes)@.len() as int) == old(nodes)@,
        lin_matches(final(nodes)@, *node, old(nodes)@.len() as int),
        my_offset == old(nodes)@.len(),
    decreases *node,
{
    let my_offset = nodes.len();
    match node {
        BVHBuildNode::Leaf { primitive_index, primitive_amount, bounding_box } => {
            nodes.push(
                BVHLinearNode {
                    bounding_box: *bounding_box,
                    primitive_amount: *primitive_amount,
                    node_content: *primitive_index,
                    axis: 0,
                },
            );
            proof {
                assert(nodes@.subrange(0, my_offset as int) =~= old(nodes)@);
            }
        },
        BVHBuildNode::Interior { split_axis, bounding_box, left, right } => {
            nodes.push(
                BVHLinearNode {
                    bounding_box: *bounding_box,
                    primitive_amount: 0,
                    node_content: 0,
                    axis: *split_axis,
                },
            );
            let ghost after_push = nodes@;
            let left_at = flatten_from(nodes, left);
            let ghost after_left = nodes@;
            let idx = flatten_from(nodes, right);
            let ghost after_right = nodes@;
            nodes.set(
                my_offset,
                BVHLinearNode {
                    bounding_box: *bounding_box,
                    primitive_amount: 0,
                    node_content: idx,
                    axis: *split_axis,
                },
            );
            proof {
                // The children's slots survive the later appends and the
                // write-back into the parent slot.
                assert(after_left.len() <= nodes@.len());
                assert forall|p: int|
                    left_at <= p < after_left.len() implies #[trigger] nodes@[p] == after_left[p] by {
                    assert(after_left[p] == after_right.subrange(0, after_left.len() as int)[p]);
                }
                lemma_lin_matches_stable(
                    after_left,
                    nodes@,
                    **left,
                    left_at as int,
                    left_at as int,
                    after_left.len() as int,
                );
                assert(after_right.len() <= nodes@.len());
                assert forall|p: int|
                    idx <= p < after_right.len() implies #[trigger] nodes@[p] == after_right[p] by {}
                lemma_lin_matches_stable(
                    after_right,
                    nodes@,
                    **right,
                    idx as int,
                    idx as int,
                    after_right.len() as int,
                );
                assert forall|i: int| 0 <= i < my_offset implies nodes@[i] == old(nodes)@[i] by {
                    assert(after_left[i] == after_right.subrange(0, after_left.len() as int)[i]);
                    assert(after_push[i] == after_left.subrange(0, after_push.len() as int)[i]);
                    assert(old(nodes)@[i] == after_push.subrange(0, old(nodes)@.len() as int)[i]);
                }
                assert(nodes@.subrange(0, my_offset as int) =~= old(nodes)@);
            }
        },
    }
    my_offset
}

impl BVHLinearTree {
    /// The reordered primitives the tree points into.
    pub open spec fn spec_primitives(self) -> Seq<Shape> {
        self.primitives@
    }

    /// The number of flattened nodes.
    pub open spec fn spec_node_count(self) -> int {
        self.linear_nodes@.len() as int
    }

    /// The build tree this array spells out.
    pub open spec fn spec_tree(self) -> BVHBuildNode {
        self.tree@
    }

    /// A sound flattened tree: the array spells out the ghost build tree,
    /// whose leaves tile the primitive collection and whose boxes are
    /// derived — a leaf's the hull of its run, an interior node's the
    /// merge of its children's — so every node's box surrounds everything
    /// beneath it.
    pub open spec fn wf(self) -> bool {
        &&& lin_matches(self.linear_nodes@, self.tree@, 0)
        &&& self.tree@.wf(0)
        &&& self.tree@.boxes_ok(self.primitives@)
        &&& self.tree@.boxes_exact(self.primitives@)
        &&& self.tree@.prim_count() == self.primitives@.len()
        &&& self.linear_nodes@.len() == self.tree@.node_count()
    }
}

/// The hit of one primitive, tagged with its position.
pub open spec fn shape_hit(prims: Seq<Shape>, ray: Ray, i: int) -> Option<(
    crate::shape::Intersection,
    int,
)> {
    match prims[i].spec_intersect(ray) {
        Some(it) => Some((it, i)),
        None => None,
    }
}

/// Keep the nearer of two tagged hits; the first argument, found earlier,
/// wins ties.
pub open spec fn merge_hit(
    a: Option<(crate::shape::Intersection, int)>,
    b: Option<(crate::shape::Intersection, int)>,
) -> Option<(crate::shape::Intersection, int)> {
    match (a, b) {
        (None, _) => b,
        (Some(x), None) => Some(x),
        (Some(x), Some(y)) => if y.0.t < x.0.t {
            Some(y)
        } else {
            Some(x)
        },
    }
}

/// The nearest hit over `prims[i..end]`, scanned front to back into an
/// accumulator of hits already seen.
pub open spec fn brute_from(
    acc: Option<(crate::shape::Intersection, int)>,
    prims: Seq<Shape>,
    ray: Ray,
    i: int,
    end: int,
) -> Option<(crate::shape::Intersection, int)>
    decreases end - i,
{
    if i >= end {
        acc
    } else {
        brute_from(merge_hit(acc, shape_hit(prims, ray, i)), prims, ray, i + 1, end)
    }
}

/// The nearest hit of a plain front-to-back scan over `prims[lo..hi]`.
pub open spec fn spec_brute(prims: Seq<Shape>, ray: Ray, lo: int, hi: int) -> Option<(
    crate::shape::Intersection,
    int,
)> {
    brute_from(None, prims, ray, lo, hi)
}

/// What the traversal computes: nothing when the ray misses the node's
/// box; the scan of a leaf's run; and for an interior node the merge of
/// the two children, the child on the ray's side visited first.
pub open spec fn spec_traverse(node: BVHBuildNode, prims: Seq<Shape>, ray: Ray) -> Option<(
    crate::shape::Intersection,
    int,
)>
    decreases node,
{
    if !crate::bounds::spec_slab_hit(node.spec_box(), ray.origin, ray.direction) {
        None
    } else {
        match node {
            BVHBuildNode::Leaf { primitive_index, primitive_amount, .. } => spec_brute(
                prims,
                ray,
                primitive_index as int,
                primitive_index + primitive_amount,
            ),
            BVHBuildNode::Interior { split_axis, left, right, .. } => {
                if ray.inv_dir.spec_dim(split_axis as int) < 0 {
                    merge_hit(
                        spec_traverse(*right, prims, ray),
                        spec_traverse(*left, prims, ray),
                    )
                } else {
                    merge_hit(
                        spec_traverse(*left, prims, ray),
                        spec_traverse(*right, prims, ray),
                    )
                }
            },
        }
    }
}

/// Merging hits is associative.
proof fn lemma_merge_hit_assoc(
    a: Option<(crate::shape::Intersection, int)>,
    b: Option<(crate::shape::Intersection, int)>,
    c: Option<(crate::shape::Intersection, int)>,
)
    ensures
        merge_hit(merge_hit(a, b), c) == merge_hit(a, merge_hit(b, c)),
{
}

/// Scanning into an accumulator is the same as merging the accumulator
/// with the plain scan.
proof fn lemma_brute_acc(
    acc: Option<(crate::shape::Intersection, int)>,
    prims: Seq<Shape>,
    ray: Ray,
    i: int,
    end: int,
)
    ensures
        brute_from(acc, prims, ray, i, end) == merge_hit(acc, spec_brute(prims, ray, i, end)),
    decreases end - i,
{
    if i >= end {
    } else {
        lemma_brute_acc(merge_hit(acc, shape_hit(prims, ray, i)), prims, ray, i + 1, end);
        lemma_brute_acc(shape_hit(prims, ray, i), prims, ray, i + 1, end);
        lemma_merge_hit_assoc(acc, shape_hit(prims, ray, i), spec_brute(prims, ray, i + 1, end));
    }
}

/// The merged answer of a stack of pending subtrees, the top first.
pub open spec fn fold_pending(
    acc: Option<(crate::shape::Intersection, int)>,
    pend: Seq<BVHBuildNode>,
    prims: Seq<Shape>,
    ray: Ray,
) -> Option<(crate::shape::Intersection, int)>
    decreases pend.len(),
{
    if pend.len() == 0 {
        acc
    } else {
        fold_pending(
            merge_hit(acc, spec_traverse(pend.last(), prims, ray)),
            pend.drop_last(),
            prims,
            ray,
        )
    }
}

/// The total node count of a stack of pending subtrees.
pub open spec fn pend_count(pend: Seq<BVHBuildNode>) -> nat
    decreases pend.len(),
{
    if pend.len() == 0 {
        0
    } else {
        pend_count(pend.drop_last()) + pend.last().node_count()
    }
}

/// Every subtree holds at least one node.
proof fn lemma_node_count_pos(node: BVHBuildNode)
    ensures
        node.node_count() >= 1,
{
    match node {
        BVHBuildNode::Leaf { .. } => {},
        BVHBuildNode::Interior { .. } => {},
    }
}

/// Whether every leaf of the subtree holds at least one primitive.
pub open spec fn positive_leaves(node: BVHBuildNode) -> bool
    decreases node,
{
    match node {
        BVHBuildNode::Leaf { primitive_amount, .. } => primitive_amount >= 1,
        BVHBuildNode::Interior { left, right, .. } => positive_leaves(*left) && positive_leaves(
            *right,
        ),
    }
}

/// A tree whose leaves tile the collection has only non-empty leaves.
pub proof fn lemma_wf_positive(node: BVHBuildNode, lo: int)
    requires
        node.wf(lo),
    ensures
        positive_leaves(node),
    decreases node,
{
    match node {
        BVHBuildNode::Leaf { .. } => {},
        BVHBuildNode::Interior { left, right, .. } => {
            lemma_wf_positive(*left, lo);
            lemma_wf_positive(*right, lo + (*left).prim_count());
        },
    }
}

impl BVHLinearTree {
    /// The traversal answer on this tree, as a mathematical value.
    pub open spec fn spec_intersect(self, ray: Ray) -> Option<(crate::shape::Intersection, int)> {
        spec_traverse(self.tree@, self.primitives@, ray)
    }

    /// Walk the flattened tree with an explicit, growable stack and return
    /// the nearest intersection together with the index of the hit shape.
    #[verifier::rlimit(100)]
    pub fn intersect(&self, ray: &Ray) -> (r: Option<(crate::shape::Intersection, usize)>)
        requires
            self.wf(),
        ensures
            r is None <==> self.spec_intersect(*ray) is None,
            r matches Some((it, idx)) ==> self.spec_intersect(*ray) == Some((it, idx as int))
                && idx < self.spec_primitives().len(),
    {
        let ghost prims = self.primitives@;
        let ghost tree = self.tree@;
        let mut current_task: usize = 0;
        let mut queue = crate::queue_systems::FastStack::new();
        let mut closest: Option<(crate::shape::Intersection, usize)> = None;
        let ghost mut gcurrent = tree;
        let ghost mut gstack: Seq<BVHBuildNode> = Seq::empty();
        proof {
            lemma_wf_positive(tree, 0);
            assert(gstack.push(gcurrent).drop_last() =~= gstack);
            assert(gstack.push(gcurrent).last() == gcurrent);
            assert(fold_pending(lift_hit(closest), gstack.push(gcurrent), prims, *ray)
                == fold_pending(
                merge_hit(lift_hit(closest), spec_traverse(gcurrent, prims, *ray)),
                gstack,
                prims,
                *ray,
            ));
            assert(lift_hit(closest) is None);
            assert(fold_pending(lift_hit(closest), gstack.push(gcurrent), prims, *ray)
                == spec_traverse(tree, prims, *ray));
        }
        loop
            invariant
                self.wf(),
                prims == self.primitives@,
                tree == self.tree@,
                lin_matches(self.linear_nodes@, gcurrent, current_task as int),
                gcurrent.boxes_ok(prims),
                positive_leaves(gcurrent),
                queue.view().len() == gstack.len(),
                forall|k: int|
                    0 <= k < gstack.len() ==> {
                        &&& lin_matches(
                            self.linear_nodes@,
                            #[trigger] gstack[k],
                            queue.view()[k] as int,
                        )
                        &&& gstack[k].boxes_ok(prims)
                        &&& positive_leaves(gstack[k])
                    },
                fold_pending(lift_hit(closest), gstack.push(gcurrent), prims, *ray)
                    == spec_traverse(tree, prims, *ray),
                closest matches Some((it, idx)) ==> idx < prims.len(),
            decreases gcurrent.node_count() + pend_count(gstack),
        {
            let n = self.linear_nodes[current_task];
            let ghost pending0 = gstack.push(gcurrent);
            if !n.bounding_box.intersects_with(ray) {
                proof {
                    // The box is the node's own box, so the whole subtree
                    // contributes nothing.
                    assert(n.bounding_box == gcurrent.spec_box());
                    assert(spec_traverse(gcurrent, prims, *ray) is None);
                    assert(pending0.drop_last() =~= gstack);
                    assert(fold_pending(lift_hit(closest), gstack, prims, *ray)
                        == spec_traverse(tree, prims, *ray));
                }
                match queue.pop() {
                    None => {
                        return closest;
                    },
                    Some(task) => {
                        current_task = task;
                        proof {
                            assert(gstack.len() > 0);
                            assert(lin_matches(
                                self.linear_nodes@,
                                gstack[gstack.len() - 1],
                                queue.view().push(task)[gstack.len() - 1] as int,
                            ));
                            assert(gstack.drop_last().push(gstack.last()) =~= gstack);
                            assert(pend_count(gstack) == pend_count(gstack.drop_last())
                                + gstack.last().node_count());
                            lemma_node_count_pos(gcurrent);
                            gcurrent = gstack.last();
                            gstack = gstack.drop_last();
                        }
                    },
                }
            } else if n.primitive_amount > 0 {
                // A leaf: test every primitive of its run, keeping the
                // nearest hit seen so far.
                proof {
                    assert(gcurrent is Leaf);
                }
                let first = n.node_content;
                let prim_len = self.primitives.len();
                let ghost closest0 = closest;
                let mut i: usize = 0;
                while i < n.primitive_amount
                    invariant
                        self.wf(),
                        prims == self.primitives@,
                        i <= n.primitive_amount,
                        prim_len == self.primitives@.len(),
                        first + n.primitive_amount <= prim_len,
                        closest matches Some((it, idx)) ==> idx < prims.len(),
                        brute_from(
                            lift_hit(closest),
                            prims,
                            *ray,
                            first + i,
                            first + n.primitive_amount,
                        ) == brute_from(
                            lift_hit(closest0),
                            prims,
                            *ray,
                            first as int,
                            first + n.primitive_amount,
                        ),
                    decreases n.primitive_amount - i,
                {
                    let prim = &self.primitives[first + i];
                    let hit = prim.do_intersect(ray);
                    match hit {
                        Some(intersection) => {
                            match closest {
                                Some(ref cl) => {
                                    if intersection.t < cl.0.t {
                                        closest = Some((intersection, first + i));
                                    }
                                },
                                None => {
                                    closest = Some((intersection, first + i));
                                },
                            }
                        },
                        None => {},
                    }
                    i = i + 1;
                }
                proof {
                    lemma_brute_acc(
                        lift_hit(closest0),
                        prims,
                        *ray,
                        first as int,
                        first + n.primitive_amount,
                    );
                    assert(spec_traverse(gcurrent, prims, *ray) == spec_brute(
                        prims,
                        *ray,
                        first as int,
                        first + n.primitive_amount,
                    ));
                    assert(pending0.drop_last() =~= gstack);
                    assert(fold_pending(lift_hit(closest), gstack, prims, *ray)
                        == spec_traverse(tree, prims, *ray));
                }
                match queue.pop() {
                    None => {
                        return closest;
                    },
                    Some(task) => {
                        current_task = task;
                        proof {
                            assert(gstack.len() > 0);
                            assert(lin_matches(
                                self.linear_nodes@,
                                gstack[gstack.len() - 1],
                                queue.view().push(task)[gstack.len() - 1] as int,
                            ));
                            assert(gstack.drop_last().push(gstack.last()) =~= gstack);
                            assert(pend_count(gstack) == pend_count(gstack.drop_last())
                                + gstack.last().node_count());
                            lemma_node_count_pos(gcurrent);
                            gcurrent = gstack.last();
                            gstack = gstack.drop_last();
                        }
                    },
                }
            } else {
                // An interior node: descend into the child on the ray's
                // side first and queue the other for later.
                let ghost (gleft, gright) = interior_children(gcurrent);
                let ghost gcur0 = gcurrent;
                let ghost g0 = gstack;
                let inv_a = if n.axis == 0 {
                    ray.inv_dir.x
                } else if n.axis == 1 {
                    ray.inv_dir.y
                } else {
                    ray.inv_dir.z
                };
                proof {
                    assert(gcurrent is Interior);
                    assert(n.bounding_box == gcurrent.spec_box());
                    assert(inv_a == ray.inv_dir.spec_dim(n.axis as int));
                }
                if inv_a < 0 {
                    queue.push(current_task + 1);
                    current_task = n.node_content;
                    proof {
                        // The near child is the right one; the traversal
                        // answer of the node merges right before left.
                        assert(spec_traverse(gcurrent, prims, *ray) == merge_hit(
                            spec_traverse(gright, prims, *ray),
                            spec_traverse(gleft, prims, *ray),
                        ));
                        lemma_fold_split(
                            lift_hit(closest),
                            g0,
                            gcurrent,
                            gright,
                            gleft,
                            prims,
                            *ray,
                        );
                        gstack = gstack.push(gleft);
                        gcurrent = gright;
                    }
                } else {
                    queue.push(n.node_content);
                    current_task = current_task + 1;
                    proof {
                        assert(spec_traverse(gcurrent, prims, *ray) == merge_hit(
                            spec_traverse(gleft, prims, *ray),
                            spec_traverse(gright, prims, *ray),
                        ));
                        lemma_fold_split(
                            lift_hit(closest),
                            g0,
                            gcurrent,
                            gleft,
                            gright,
                            prims,
                            *ray,
                        );
                        gstack = gstack.push(gright);
                        gcurrent = gleft;
                    }
                }
                proof {
                    assert(gstack.drop_last() =~= g0);
                    assert(pend_count(gstack) == pend_count(g0) + gstack.last().node_count());
                    assert(gcur0.node_count() == 1 + gleft.node_count() + gright.node_count());
                }
            }
        }
    }
}

/// The children of an interior node.
pub open spec fn interior_children(node: BVHBuildNode) -> (BVHBuildNode, BVHBuildNode) {
    match node {
        BVHBuildNode::Interior { left, right, .. } => (*left, *right),
        BVHBuildNode::Leaf { .. } => (node, node),
    }
}

/// Replacing the pending stack's top subtree by its two children, the one
/// to be visited next on top, leaves the folded answer unchanged.
proof fn lemma_fold_split(
    acc: Option<(crate::shape::Intersection, int)>,
    g: Seq<BVHBuildNode>,
    cur: BVHBuildNode,
    near: BVHBuildNode,
    far: BVHBuildNode,
    prims: Seq<Shape>,
    ray: Ray,
)
    requires
        spec_traverse(cur, prims, ray) == merge_hit(
            spec_traverse(near, prims, ray),
            spec_traverse(far, prims, ray),
        ),
    ensures
        fold_pending(acc, g.push(cur), prims, ray) == fold_pending(
            acc,
            g.push(far).push(near),
            prims,
            ray,
        ),
{
    let tn = spec_traverse(near, prims, ray);
    let tf = spec_traverse(far, prims, ray);
    let tc = spec_traverse(cur, prims, ray);
    assert(g.push(cur).last() == cur);
    assert(g.push(cur).drop_last() =~= g);
    assert(g.push(far).push(near).last() == near);
    assert(g.push(far).push(near).drop_last() =~= g.push(far));
    assert(g.push(far).last() == far);
    assert(g.push(far).drop_last() =~= g);
    lemma_merge_hit_assoc(acc, tn, tf);
    assert(fold_pending(acc, g.push(cur), prims, ray) == fold_pending(
        merge_hit(acc, tc),
        g,
        prims,
        ray,
    ));
    assert(fold_pending(acc, g.push(far).push(near), prims, ray) == fold_pending(
        merge_hit(acc, tn),
        g.push(far),
        prims,
        ray,
    ));
    assert(fold_pending(merge_hit(acc, tn), g.push(far), prims, ray) == fold_pending(
        merge_hit(merge_hit(acc, tn), tf),
        g,
        prims,
        ray,
    ));
}

/// The hit distance of a tagged hit, forgetting which shape was hit.
pub open spec fn hit_t(o: Option<(crate::shape::Intersection, int)>) -> Option<i64> {
    match o {
        None => None,
        Some((it, _)) => Some(it.t),
    }
}

/// At the level of distances, merging picks the smaller one.
proof fn lemma_hit_t_merge(
    a: Option<(crate::shape::Intersection, int)>,
    b: Option<(crate::shape::Intersection, int)>,
    a2: Option<(crate::shape::Intersection, int)>,
    b2: Option<(crate::shape::Intersection, int)>,
)
    requires
        hit_t(a) == hit_t(a2),
        hit_t(b) == hit_t(b2),
    ensures
        hit_t(merge_hit(a, b)) == hit_t(merge_hit(a2, b2)),
        hit_t(merge_hit(a, b)) == hit_t(merge_hit(b, a)),
{
}

/// Scanning a range is scanning its left part and then its right part.
proof fn lemma_brute_chain(
    acc: Option<(crate::shape::Intersection, int)>,
    prims: Seq<Shape>,
    ray: Ray,
    lo: int,
    mid: int,
    hi: int,
)
    requires
        lo <= mid <= hi,
    ensures
        brute_from(acc, prims, ray, lo, hi) == brute_from(
            brute_from(acc, prims, ray, lo, mid),
            prims,
            ray,
            mid,
            hi,
        ),
    decreases mid - lo,
{
    if lo >= mid {
    } else {
        lemma_brute_chain(merge_hit(acc, shape_hit(prims, ray, lo)), prims, ray, lo + 1, mid, hi);
    }
}

/// A scan over a range splits into the merge of the scans of its halves.
proof fn lemma_brute_split(prims: Seq<Shape>, ray: Ray, lo: int, mid: int, hi: int)
    requires
        lo <= mid <= hi,
    ensures
        spec_brute(prims, ray, lo, hi) == merge_hit(
            spec_brute(prims, ray, lo, mid),
            spec_brute(prims, ray, mid, hi),
        ),
{
    lemma_brute_chain(None, prims, ray, lo, mid, hi);
    lemma_brute_acc(spec_brute(prims, ray, lo, mid), prims, ray, mid, hi);
}

/// A scan over primitives that all miss finds nothing.
proof fn lemma_brute_none(prims: Seq<Shape>, ray: Ray, lo: int, hi: int)
    requires
        forall|i: int| lo <= i < hi ==> (#[trigger] prims[i]).spec_intersect(ray) is None,
    ensures
        spec_brute(prims, ray, lo, hi) is None,
    decreases hi - lo,
{
    if lo >= hi {
    } else {
        assert(shape_hit(prims, ray, lo) is None);
        lemma_brute_none(prims, ray, lo + 1, hi);
        lemma_brute_acc(shape_hit(prims, ray, lo), prims, ray, lo + 1, hi);
    }
}

/// A node's box surrounds the box of every primitive in its range.
proof fn lemma_node_covers(node: BVHBuildNode, prims: Seq<Shape>, lo: int)
    requires
        node.wf(lo),
        node.boxes_ok(prims),
    ensures
        forall|i: int|
            lo <= i < lo + node.prim_count() ==> node.spec_box().spec_covers(
                (#[trigger] prims[i]).spec_bounding_box(),
            ),
    decreases node,
{
    match node {
        BVHBuildNode::Leaf { .. } => {},
        BVHBuildNode::Interior { left, right, .. } => {
            let mid = lo + (*left).prim_count();
            lemma_node_covers(*left, prims, lo);
            lemma_node_covers(*right, prims, mid);
            assert forall|i: int|
                lo <= i < lo + node.prim_count() implies node.spec_box().spec_covers(
                (#[trigger] prims[i]).spec_bounding_box(),
            ) by {
                if i < mid {
                    crate::bounds::lemma_covers_trans(
                        node.spec_box(),
                        (*left).spec_box(),
                        prims[i].spec_bounding_box(),
                    );
                } else {
                    crate::bounds::lemma_covers_trans(
                        node.spec_box(),
                        (*right).spec_box(),
                        prims[i].spec_bounding_box(),
                    );
                }
            }
        },
    }
}

/// Whether the boxes are conservative for this ray over one range of the
/// primitives: every primitive of the range that the ray hits also has its
/// bounding box hit by the ray. This is the one geometric fact the
/// fixed-point intersection routines cannot promise outright — rounding can
/// miss a box by one step at its boundary, and a plane reaches beyond its
/// finite box — so the traversal theorem takes it as a hypothesis.
pub open spec fn boxes_conservative_for(prims: Seq<Shape>, ray: Ray, lo: int, hi: int) -> bool {
    forall|i: int|
        lo <= i < hi && (#[trigger] prims[i]).spec_intersect(ray) is Some
            ==> crate::bounds::spec_slab_hit(
            prims[i].spec_bounding_box(),
            ray.origin,
            ray.direction,
        )
}

/// When the boxes are conservative for the ray over the subtree's range,
/// the traversal of the subtree finds a hit at exactly the distance the
/// plain scan of its range finds one, or none at all when the scan finds
/// none.
pub proof fn lemma_traverse_complete(node: BVHBuildNode, prims: Seq<Shape>, ray: Ray, lo: int)
    requires
        node.wf(lo),
        node.boxes_ok(prims),
        lo + node.prim_count() <= prims.len(),
        0 <= lo,
        boxes_conservative_for(prims, ray, lo, lo + node.prim_count()),
    ensures
        hit_t(spec_traverse(node, prims, ray)) == hit_t(
            spec_brute(prims, ray, lo, lo + node.prim_count()),
        ),
    decreases node,
{
    let hi = lo + node.prim_count();
    if !crate::bounds::spec_slab_hit(node.spec_box(), ray.origin, ray.direction) {
        // The ray misses the node's box, so by the soundness of the boxes
        // it misses every primitive under the node.
        lemma_node_covers(node, prims, lo);
        assert forall|i: int| lo <= i < hi implies (#[trigger] prims[i]).spec_intersect(ray)
            is None by {
            if prims[i].spec_intersect(ray) is Some {
                crate::bounds::lemma_slab_monotone(
                    node.spec_box(),
                    prims[i].spec_bounding_box(),
                    ray.origin,
                    ray.direction,
                );
            }
        }
        lemma_brute_none(prims, ray, lo, hi);
    } else {
        match node {
            BVHBuildNode::Leaf { .. } => {},
            BVHBuildNode::Interior { left, right, .. } => {
                let mid = lo + (*left).prim_count();
                lemma_traverse_complete(*left, prims, ray, lo);
                lemma_traverse_complete(*right, prims, ray, mid);
                lemma_brute_split(prims, ray, lo, mid, hi);
                lemma_hit_t_merge(
                    spec_traverse(*left, prims, ray),
                    spec_traverse(*right, prims, ray),
                    spec_brute(prims, ray, lo, mid),
                    spec_brute(prims, ray, mid, hi),
                );
            },
        }
    }
}

/// With boxes conservative for the ray, the flattened tree's traversal
/// returns the same nearest hit distance as a scan over all primitives,
/// and finds a hit exactly when the scan finds one.
pub proof fn lemma_traversal_matches_scan(tree: BVHLinearTree, ray: Ray)
    requires
        tree.wf(),
        boxes_conservative_for(tree.spec_primitives(), ray, 0, tree.spec_primitives().len() as int),
    ensures
        hit_t(tree.spec_intersect(ray)) == hit_t(
            spec_brute(tree.spec_primitives(), ray, 0, tree.spec_primitives().len() as int),
        ),
{
    lemma_traverse_complete(tree.spec_tree(), tree.spec_primitives(), ray, 0);
}

impl BVHLinearTree {
    /// The nearest hit by a plain scan over every primitive, front to
    /// back, earlier primitives winning ties.
    pub fn intersect_brute_force(&self, ray: &Ray) -> (r: Option<(
        crate::shape::Intersection,
        usize,
    )>)
        ensures
            lift_hit(r) == spec_brute(
                self.spec_primitives(),
                *ray,
                0,
                self.spec_primitives().len() as int,
            ),
    {
        let len = self.primitives.len();
        let mut closest: Option<(crate::shape::Intersection, usize)> = None;
        let mut i: usize = 0;
        while i < len
            invariant
                i <= len,
                len == self.primitives@.len(),
                brute_from(lift_hit(closest), self.primitives@, *ray, i as int, len as int)
                    == spec_brute(self.primitives@, *ray, 0, len as int),
            decreases len - i,
        {
            let hit = self.primitives[i].do_intersect(ray);
            match hit {
                Some(intersection) => {
                    match closest {
                        Some(ref cl) => {
                            if intersection.t < cl.0.t {
                                closest = Some((intersection, i));
                            }
                        },
                        None => {
                            closest = Some((intersection, i));
                        },
                    }
                },
                None => {},
            }
            i = i + 1;
        }
        closest
    }
}

/// A tagged hit with its index widened to a mathematical integer.
pub open spec fn lift_hit(r: Option<(crate::shape::Intersection, usize)>) -> Option<(
    crate::shape::Intersection,
    int,
)> {
    match r {
        None => None,
        Some((it, i)) => Some((it, i as int)),
    }
}

/// Permuting first the left half and then the right half of a range
/// permutes the range as a whole.
proof fn lemma_split_permutation(
    s0: Seq<BVHPrimitiveInfo>,
    s1: Seq<BVHPrimitiveInfo>,
    s2: Seq<BVHPrimitiveInfo>,
    lo: int,
    mid: int,
    hi: int,
)
    requires
        0 <= lo <= mid <= hi <= s0.len(),
        s0.len() == s1.len() == s2.len(),
        s1.subrange(lo, mid).to_multiset() == s0.subrange(lo, mid).to_multiset(),
        forall|i: int| (0 <= i < lo || mid <= i < s0.len()) ==> s1[i] == s0[i],
        s2.subrange(mid, hi).to_multiset() == s1.subrange(mid, hi).to_multiset(),
        forall|i: int| (0 <= i < mid || hi <= i < s1.len()) ==> s2[i] == s1[i],
    ensures
        s2.subrange(lo, hi).to_multiset() == s0.subrange(lo, hi).to_multiset(),
        forall|i: int| (0 <= i < lo || hi <= i < s0.len()) ==> s2[i] == s0[i],
{
    let a0 = s0.subrange(lo, mid);
    let b0 = s0.subrange(mid, hi);
    let a2 = s2.subrange(lo, mid);
    let b2 = s2.subrange(mid, hi);
    assert(a2 =~= s1.subrange(lo, mid));
    assert(s1.subrange(mid, hi) =~= b0);
    assert(s0.subrange(lo, hi) =~= a0 + b0);
    assert(s2.subrange(lo, hi) =~= a2 + b2);
    vstd::seq_lib::lemma_multiset_commutative(a0, b0);
    vstd::seq_lib::lemma_multiset_commutative(a2, b2);
}

/// Append the shapes of `info[start..end]`, in order, onto `ordered`.
fn push_leaf_shapes(
    primitives: &Vec<Shape>,
    info: &Vec<BVHPrimitiveInfo>,
    start: usize,
    end: usize,
    ordered: &mut Vec<Shape>,
)
    requires
        start <= end <= info@.len(),
        info_ok(info@, primitives@),
        old(ordered)@.len() + (end - start) <= usize::MAX,
    ensures
        final(ordered)@.len() == old(ordered)@.len() + (end - start),
        final(ordered)@.subrange(0, old(ordered)@.len() as int) == old(ordered)@,
        forall|k: int|
            0 <= k < end - start ==> final(ordered)@[old(ordered)@.len() + k] == primitives@[(
            #[trigger] info@[start + k]).index as int],
{
    let ghost base = old(ordered)@;
    let mut k = start;
    while k < end
        invariant
            start <= k <= end <= info@.len(),
            info_ok(info@, primitives@),
            ordered@.len() == base.len() + (k - start),
            ordered@.subrange(0, base.len() as int) == base,
            forall|j: int|
                0 <= j < k - start ==> ordered@[base.len() + j] == primitives@[(
                #[trigger] info@[start + j]).index as int],
        decreases end - k,
    {
        let idx = info[k].index;
        ordered.push(primitives[idx].clone());
        proof {
            assert(ordered@.subrange(0, base.len() as int) =~= base);
        }
        k = k + 1;
    }
}

/// The hull gathered for a leaf surrounds the box of every shape the leaf
/// just appended.
proof fn lemma_leaf_boxes(
    info: Seq<BVHPrimitiveInfo>,
    prims: Seq<Shape>,
    ordered: Seq<Shape>,
    start: int,
    end: int,
    first: int,
)
    requires
        0 <= start <= end <= info.len(),
        info_ok(info, prims),
        0 <= first,
        first + (end - start) <= ordered.len(),
        forall|k: int|
            0 <= k < end - start ==> ordered[first + k] == prims[(#[trigger] info[start + k]).index as int],
    ensures
        forall|i: int|
            first <= i < first + (end - start) ==> spec_fold_bounds(info, start, end).spec_covers(
                (#[trigger] ordered[i]).spec_bounding_box(),
            ),
{
    assert forall|i: int|
        first <= i < first + (end - start) implies spec_fold_bounds(info, start, end).spec_covers(
        (#[trigger] ordered[i]).spec_bounding_box(),
    ) by {
        let k = i - first;
        lemma_fold_bounds_covers(info, start, end, start + k);
        assert(info[start + k].bounding_box == prims[info[start + k].index as int].spec_bounding_box());
        assert(ordered[i] == prims[info[start + k].index as int]);
    }
}

} // verus!
