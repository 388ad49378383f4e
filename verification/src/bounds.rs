//! Axis-aligned bounding boxes and the exact ray-box slab test.

use crate::fixed;
use crate::fixed::{fx_add, fx_mul, SCALE};
use crate::ray::Ray;
use crate::vectors::Vec3;
use vstd::prelude::*;

verus! {

/// An axis-aligned box around an object, which lets the tree skip whole
/// subtrees during traversal. A box is meant to be conservative — a ray
/// that hits the object hits the box — but fixed-point rounding in the
/// intersection routines can break that by one step at the boundary, so
/// the traversal theorem takes conservativity for the given ray as an
/// explicit hypothesis (`boxes_conservative_for`) rather than assuming it.
#[derive(Debug, Clone, Copy, PartialEq, Eq, Structural)]
pub struct BoundingBox {
    /// The componentwise low corner.
    pub min_vector: Vec3,
    /// The componentwise high corner.
    pub max_vector: Vec3,
}

impl BoundingBox {
    /// The merge identity: low corner at the top of the range, high corner
    /// at the bottom, so that merging it with any box returns that box.
    pub open spec fn spec_empty() -> BoundingBox {
        BoundingBox {
            min_vector: Vec3 { x: i64::MAX, y: i64::MAX, z: i64::MAX },
            max_vector: Vec3 { x: i64::MIN, y: i64::MIN, z: i64::MIN },
        }
    }

    /// The merge identity box.
    pub fn empty() -> (r: BoundingBox)
        ensures
            r == BoundingBox::spec_empty(),
    {
        BoundingBox {
            min_vector: Vec3 { x: i64::MAX, y: i64::MAX, z: i64::MAX },
            max_vector: Vec3 { x: i64::MIN, y: i64::MIN, z: i64::MIN },
        }
    }

    /// A proper box: low corner at most the high corner on every axis.
    pub open spec fn is_wf(self) -> bool {
        self.min_vector.x <= self.max_vector.x && self.min_vector.y <= self.max_vector.y
            && self.min_vector.z <= self.max_vector.z
    }

    /// Whether a point lies inside the box, bounds included.
    pub open spec fn spec_contains(self, p: Vec3) -> bool {
        self.min_vector.x <= p.x <= self.max_vector.x && self.min_vector.y <= p.y
            <= self.max_vector.y && self.min_vector.z <= p.z <= self.max_vector.z
    }

    /// Whether this box surrounds another box on every axis.
    pub open spec fn spec_covers(self, inner: BoundingBox) -> bool {
        self.min_vector.x <= inner.min_vector.x && self.min_vector.y <= inner.min_vector.y
            && self.min_vector.z <= inner.min_vector.z && inner.max_vector.x <= self.max_vector.x
            && inner.max_vector.y <= self.max_vector.y && inner.max_vector.z <= self.max_vector.z
    }

    /// What `merge` returns: the componentwise hull of the two boxes.
    pub open spec fn spec_merge(self, other: BoundingBox) -> BoundingBox {
        BoundingBox {
            min_vector: self.min_vector.spec_min(other.min_vector),
            max_vector: self.max_vector.spec_max(other.max_vector),
        }
    }

    /// Join two boxes into the smallest box around both.
    pub fn merge(&self, other: &BoundingBox) -> (r: BoundingBox)
        ensures
            r == self.spec_merge(*other),
    {
        BoundingBox {
            min_vector: self.min_vector.min(&other.min_vector),
            max_vector: self.max_vector.max(&other.max_vector),
        }
    }

    /// What `merge_with_vec` returns: the hull of the box and one point.
    pub open spec fn spec_merge_with_vec(self, v: Vec3) -> BoundingBox {
        BoundingBox {
            min_vector: self.min_vector.spec_min(v),
            max_vector: self.max_vector.spec_max(v),
        }
    }

    /// Grow the box just enough to take in one point.
    pub fn merge_with_vec(&self, v: &Vec3) -> (r: BoundingBox)
        ensures
            r == self.spec_merge_with_vec(*v),
    {
        BoundingBox { min_vector: self.min_vector.min(v), max_vector: self.max_vector.max(v) }
    }

    /// What `centre` returns: the midpoint of the two corners.
    pub open spec fn spec_centre(self) -> Vec3 {
        self.min_vector.spec_vadd(self.max_vector).spec_vdiv(2 * SCALE as int)
    }

    /// The centre of the box.
    pub fn centre(&self) -> (r: Vec3)
        ensures
            r == self.spec_centre(),
    {
        self.min_vector.add(self.max_vector).div(2 * SCALE)
    }

    /// What `diagonal` returns: the vector from the low to the high corner.
    pub open spec fn spec_diagonal(self) -> Vec3 {
        self.max_vector.spec_vsub(self.min_vector)
    }

    /// The vector from the low corner to the high corner.
    pub fn diagonal(&self) -> (r: Vec3)
        ensures
            r == self.spec_diagonal(),
    {
        self.max_vector.sub(self.min_vector)
    }

    /// What `max_extent` returns: the axis with the largest diagonal
    /// component, ties broken toward the lower axis index, `x` before `y`
    /// before `z`.
    pub open spec fn spec_max_extent(self) -> u32 {
        let diag = self.spec_diagonal();
        if diag.x >= diag.y && diag.x >= diag.z {
            0u32
        } else if diag.y >= diag.z {
            1u32
        } else {
            2u32
        }
    }

    /// The axis on which the box extends the furthest: no axis reaches
    /// further, and no lower axis reaches as far.
    pub fn max_extent(&self) -> (r: u32)
        ensures
            r == self.spec_max_extent(),
            r < 3,
            forall|a: int|
                0 <= a < 3 ==> self.spec_diagonal().spec_dim(a) <= self.spec_diagonal().spec_dim(
                    r as int,
                ),
            forall|a: int|
                0 <= a < r ==> self.spec_diagonal().spec_dim(a) < self.spec_diagonal().spec_dim(
                    r as int,
                ),
    {
        let diag = self.diagonal();
        if diag.x >= diag.y && diag.x >= diag.z {
            0
        } else if diag.y >= diag.z {
            1
        } else {
            2
        }
    }

    /// What `offset` returns: the point relative to the low corner, each
    /// axis rescaled into `[0, 1]` unless that axis has no width.
    pub open spec fn spec_offset(self, v: Vec3) -> Vec3 {
        let o = v.spec_vsub(self.min_vector);
        Vec3 {
            x: if self.max_vector.x > self.min_vector.x {
                fixed::spec_div(
                    o.x as int,
                    fixed::spec_sub(self.max_vector.x as int, self.min_vector.x as int),
                ) as i64
            } else {
                o.x
            },
            y: if self.max_vector.y > self.min_vector.y {
                fixed::spec_div(
                    o.y as int,
                    fixed::spec_sub(self.max_vector.y as int, self.min_vector.y as int),
                ) as i64
            } else {
                o.y
            },
            z: if self.max_vector.z > self.min_vector.z {
                fixed::spec_div(
                    o.z as int,
                    fixed::spec_sub(self.max_vector.z as int, self.min_vector.z as int),
                ) as i64
            } else {
                o.z
            },
        }
    }

    /// A point's position normalized into the box, axis by axis.
    pub fn offset(&self, v: &Vec3) -> (r: Vec3)
        ensures
            r == self.spec_offset(*v),
    {
        let o = v.sub(self.min_vector);
        Vec3 {
            x: if self.max_vector.x > self.min_vector.x {
                fixed::fx_div(o.x, fixed::fx_sub(self.max_vector.x, self.min_vector.x))
            } else {
                o.x
            },
            y: if self.max_vector.y > self.min_vector.y {
                fixed::fx_div(o.y, fixed::fx_sub(self.max_vector.y, self.min_vector.y))
            } else {
                o.y
            },
            z: if self.max_vector.z > self.min_vector.z {
                fixed::fx_div(o.z, fixed::fx_sub(self.max_vector.z, self.min_vector.z))
            } else {
                o.z
            },
        }
    }

    /// What `surface_area` returns: twice the sum of the three face areas.
    pub open spec fn spec_surface_area(self) -> int {
        let d = self.spec_diagonal();
        fixed::spec_mul(
            2 * SCALE as int,
            fixed::spec_add(
                fixed::spec_add(
                    fixed::spec_mul(d.x as int, d.y as int),
                    fixed::spec_mul(d.x as int, d.z as int),
                ),
                fixed::spec_mul(d.y as int, d.z as int),
            ),
        )
    }

    /// The total surface area of the box.
    pub fn surface_area(&self) -> (r: i64)
        ensures
            r as int == self.spec_surface_area(),
    {
        let d = self.diagonal();
        fx_mul(
            2 * SCALE,
            fx_add(fx_add(fx_mul(d.x, d.y), fx_mul(d.x, d.z)), fx_mul(d.y, d.z)),
        )
    }
}

/// Whether the rational `a` (numerator over positive denominator) is at
/// most the rational `b`, by cross-multiplication.
pub open spec fn rat_le(an: int, ad: int, bn: int, bd: int) -> bool {
    an * bd <= bn * ad
}

/// Whether the ray point at rational parameter `tn / td` lies between the
/// two bounds of one axis: `mn <= o + (tn/td) * d <= mx`, cleared of the
/// denominator.
pub open spec fn slab_axis_in(mn: int, mx: int, oa: int, da: int, tn: int, td: int) -> bool {
    mn * td <= oa * td + tn * da && oa * td + tn * da <= mx * td
}

/// Whether the ray point at rational parameter `tn / td` lies inside the box.
pub open spec fn slab_point_in(b: BoundingBox, o: Vec3, d: Vec3, tn: int, td: int) -> bool {
    slab_axis_in(b.min_vector.x as int, b.max_vector.x as int, o.x as int, d.x as int, tn, td)
        && slab_axis_in(b.min_vector.y as int, b.max_vector.y as int, o.y as int, d.y as int, tn, td)
        && slab_axis_in(b.min_vector.z as int, b.max_vector.z as int, o.z as int, d.z as int, tn, td)
}

/// The exact ray-box predicate: some non-negative rational parameter puts
/// the ray inside the box on all three axes at once.
pub open spec fn spec_slab_hit(b: BoundingBox, o: Vec3, d: Vec3) -> bool {
    exists|tn: int, td: int| td > 0 && tn >= 0 && slab_point_in(b, o, d, tn, td)
}

/// Multiplying both sides by a positive factor keeps and reflects order.
proof fn lemma_mul_le_pos(a: int, b: int, c: int)
    requires
        c > 0,
    ensures
        a <= b <==> a * c <= b * c,
{
    assert(a <= b <==> a * c <= b * c) by (nonlinear_arith)
        requires
            c > 0,
    ;
}

/// Ordering of rationals with positive denominators is transitive.
proof fn lemma_rat_le_trans(an: int, ad: int, bn: int, bd: int, cn: int, cd: int)
    requires
        ad > 0,
        bd > 0,
        cd > 0,
        rat_le(an, ad, bn, bd),
        rat_le(bn, bd, cn, cd),
    ensures
        rat_le(an, ad, cn, cd),
{
    assert(an * cd <= cn * ad) by (nonlinear_arith)
        requires
            ad > 0,
            bd > 0,
            cd > 0,
            an * bd <= bn * ad,
            bn * cd <= cn * bd,
    ;
}

/// The running feasible parameter interval of the slab test: a growing
/// rational lower bound, a shrinking rational upper bound once one exists,
/// and a flag that goes false as soon as some axis can never be satisfied.
struct SlabState {
    feasible: bool,
    lo_n: i128,
    lo_d: i128,
    hi_set: bool,
    hi_n: i128,
    hi_d: i128,
}

impl SlabState {
    /// Bounds that keep every cross-multiplication inside `i128`.
    spec fn wf(self) -> bool {
        &&& 0 <= self.lo_n <= 0xffff_ffff_ffff_ffff
    /* numerators are differences of two i64 values */
        &&& 0 < self.lo_d <= 0x8000_0000_0000_0000
        &&& self.hi_set ==> -0xffff_ffff_ffff_ffff <= self.hi_n <= 0xffff_ffff_ffff_ffff
        &&& self.hi_set ==> 0 < self.hi_d <= 0x8000_0000_0000_0000
    }

    /// Whether the rational `tn / td` lies inside this interval.
    spec fn contains(self, tn: int, td: int) -> bool {
        &&& self.feasible
        &&& rat_le(self.lo_n as int, self.lo_d as int, tn, td)
        &&& self.hi_set ==> rat_le(tn, td, self.hi_n as int, self.hi_d as int)
    }
}

/// Compare two rationals with positive denominators by cross-multiplication.
fn rat_le_exec(an: i128, ad: i128, bn: i128, bd: i128) -> (r: bool)
    requires
        -0xffff_ffff_ffff_ffff <= an <= 0xffff_ffff_ffff_ffff,
        -0xffff_ffff_ffff_ffff <= bn <= 0xffff_ffff_ffff_ffff,
        0 < ad <= 0x8000_0000_0000_0000,
        0 < bd <= 0x8000_0000_0000_0000,
    ensures
        r == rat_le(an as int, ad as int, bn as int, bd as int),
{
    proof {
        assert(-0xffff_ffff_ffff_ffff * 0x8000_0000_0000_0000 <= (an as int) * (bd as int)
            <= 0xffff_ffff_ffff_ffff * 0x8000_0000_0000_0000) by (nonlinear_arith)
            requires
                -0xffff_ffff_ffff_ffff <= an as int <= 0xffff_ffff_ffff_ffff,
                0 < bd as int <= 0x8000_0000_0000_0000,
        ;
        assert(-0xffff_ffff_ffff_ffff * 0x8000_0000_0000_0000 <= (bn as int) * (ad as int)
            <= 0xffff_ffff_ffff_ffff * 0x8000_0000_0000_0000) by (nonlinear_arith)
            requires
                -0xffff_ffff_ffff_ffff <= bn as int <= 0xffff_ffff_ffff_ffff,
                0 < ad as int <= 0x8000_0000_0000_0000,
        ;
    }
    an * bd <= bn * ad
}

/// Narrow the running interval by one axis of the box.
fn slab_axis(s: SlabState, mn: i64, mx: i64, oa: i64, da: i64) -> (s2: SlabState)
    requires
        s.wf(),
    ensures
        s2.wf(),
        forall|tn: int, td: int|
            td > 0 && tn >= 0 ==> (s2.contains(tn, td) <==> s.contains(tn, td) && slab_axis_in(
                mn as int,
                mx as int,
                oa as int,
                da as int,
                tn,
                td,
            )),
{
    if !s.feasible {
        let s2 = SlabState { feasible: false, ..s };
        proof {
            assert forall|tn: int, td: int| td > 0 && tn >= 0 implies (s2.contains(tn, td)
                <==> s.contains(tn, td) && slab_axis_in(
                mn as int,
                mx as int,
                oa as int,
                da as int,
                tn,
                td,
            )) by {
                assert(!s2.contains(tn, td));
                assert(!s.contains(tn, td));
            }
        }
        return s2;
    }
    if da == 0 {
        // The parameter cannot move this axis: the origin itself decides.
        let ok = mn <= oa && oa <= mx;
        let s2 = SlabState { feasible: ok, ..s };
        proof {
            assert forall|tn: int, td: int| td > 0 && tn >= 0 implies (s2.contains(tn, td)
                <==> s.contains(tn, td) && slab_axis_in(
                mn as int,
                mx as int,
                oa as int,
                da as int,
                tn,
                td,
            )) by {
                assert(oa as int * td + tn * 0 == oa as int * td);
                lemma_mul_le_pos(mn as int, oa as int, td);
                lemma_mul_le_pos(oa as int, mx as int, td);
            }
        }
        return s2;
    }
    // The axis bounds the parameter between two rationals whose positive
    // denominator is the magnitude of the direction component.
    let (axis_lo_n, axis_hi_n, axis_d): (i128, i128, i128) = if da > 0 {
        (mn as i128 - oa as i128, mx as i128 - oa as i128, da as i128)
    } else {
        (oa as i128 - mx as i128, oa as i128 - mn as i128, -(da as i128))
    };
    proof {
        assert forall|tn: int, td: int| td > 0 implies (slab_axis_in(
            mn as int,
            mx as int,
            oa as int,
            da as int,
            tn,
            td,
        ) <==> rat_le(axis_lo_n as int, axis_d as int, tn, td) && rat_le(
            tn,
            td,
            axis_hi_n as int,
            axis_d as int,
        )) by {
            assert((mn as int - oa as int) * td == mn as int * td - oa as int * td
                && (mx as int - oa as int) * td == mx as int * td - oa as int * td && (oa as int
                - mx as int) * td == oa as int * td - mx as int * td && (oa as int - mn as int) * td
                == oa as int * td - mn as int * td && tn * ((-(da as int)) as int) == -(tn * (
            da as int))) by (nonlinear_arith);
        }
    }
    // Raise the lower bound if this axis asks for more.
    let (lo_n, lo_d): (i128, i128) = if rat_le_exec(s.lo_n, s.lo_d, axis_lo_n, axis_d) {
        // The axis bound is sound as a lower bound only when non-negative;
        // when it is negative the old bound, at least zero, already implies it.
        if axis_lo_n >= 0 {
            (axis_lo_n, axis_d)
        } else {
            (s.lo_n, s.lo_d)
        }
    } else {
        (s.lo_n, s.lo_d)
    };
    // Lower the upper bound if this axis asks for less.
    let (hi_n, hi_d): (i128, i128) = if !s.hi_set || rat_le_exec(axis_hi_n, axis_d, s.hi_n, s.hi_d) {
        (axis_hi_n, axis_d)
    } else {
        (s.hi_n, s.hi_d)
    };
    let s2 = SlabState { feasible: true, lo_n, lo_d, hi_set: true, hi_n, hi_d };
    proof {
        assert forall|tn: int, td: int| td > 0 && tn >= 0 implies (s2.contains(tn, td)
            <==> s.contains(tn, td) && slab_axis_in(
            mn as int,
            mx as int,
            oa as int,
            da as int,
            tn,
            td,
        )) by {
            let al = axis_lo_n as int;
            let ah = axis_hi_n as int;
            let ad = axis_d as int;
            // The new lower bound sits at the larger of the two old ones,
            // so lying above it means lying above both.
            assert(rat_le(s2.lo_n as int, s2.lo_d as int, tn, td) <==> (rat_le(
                s.lo_n as int,
                s.lo_d as int,
                tn,
                td,
            ) && rat_le(al, ad, tn, td))) by {
                if rat_le(s.lo_n as int, s.lo_d as int, al, ad) {
                    if axis_lo_n >= 0 {
                        if rat_le(al, ad, tn, td) {
                            lemma_rat_le_trans(
                                s.lo_n as int,
                                s.lo_d as int,
                                al,
                                ad,
                                tn,
                                td,
                            );
                        }
                    } else {
                        // A negative axis bound is implied by tn >= 0.
                        assert(al * td <= 0 <= tn * ad) by (nonlinear_arith)
                            requires
                                al < 0,
                                td > 0,
                                tn >= 0,
                                ad > 0,
                        ;
                        if rat_le(s.lo_n as int, s.lo_d as int, tn, td) {
                            assert(rat_le(al, ad, tn, td));
                        }
                    }
                } else {
                    assert(rat_le(al, ad, s.lo_n as int, s.lo_d as int));
                    if rat_le(s.lo_n as int, s.lo_d as int, tn, td) {
                        lemma_rat_le_trans(al, ad, s.lo_n as int, s.lo_d as int, tn, td);
                    }
                }
            }
            // Same for the upper bound, at the smaller of the two.
            assert((s2.hi_set ==> rat_le(tn, td, s2.hi_n as int, s2.hi_d as int)) <==> ((s.hi_set
                ==> rat_le(tn, td, s.hi_n as int, s.hi_d as int)) && rat_le(tn, td, ah, ad))) by {
                if s.hi_set {
                    if rat_le(ah, ad, s.hi_n as int, s.hi_d as int) {
                        if rat_le(tn, td, ah, ad) {
                            lemma_rat_le_trans(
                                tn,
                                td,
                                ah,
                                ad,
                                s.hi_n as int,
                                s.hi_d as int,
                            );
                        }
                    } else {
                        assert(rat_le(s.hi_n as int, s.hi_d as int, ah, ad));
                        if rat_le(tn, td, s.hi_n as int, s.hi_d as int) {
                            lemma_rat_le_trans(tn, td, s.hi_n as int, s.hi_d as int, ah, ad);
                        }
                    }
                }
            }
        }
    }
    s2
}

impl BoundingBox {
    /// Whether the ray hits this box: the exact slab test, intersecting the
    /// feasible parameter interval of all three axes with `t >= 0`.
    pub fn intersects_with(&self, ray: &Ray) -> (r: bool)
        ensures
            r == spec_slab_hit(*self, ray.origin, ray.direction),
    {
        let o = ray.origin;
        let d = ray.direction;
        let s0 = SlabState { feasible: true, lo_n: 0, lo_d: 1, hi_set: false, hi_n: 0, hi_d: 1 };
        proof {
            assert forall|tn: int, td: int| td > 0 && tn >= 0 implies s0.contains(tn, td) by {
                assert(0 * td <= tn * 1);
            }
        }
        let s1 = slab_axis(s0, self.min_vector.x, self.max_vector.x, o.x, d.x);
        let s2 = slab_axis(s1, self.min_vector.y, self.max_vector.y, o.y, d.y);
        let s3 = slab_axis(s2, self.min_vector.z, self.max_vector.z, o.z, d.z);
        let r = s3.feasible && (!s3.hi_set || rat_le_exec(s3.lo_n, s3.lo_d, s3.hi_n, s3.hi_d));
        proof {
            if r {
                let wtn = s3.lo_n as int;
                let wtd = s3.lo_d as int;
                assert(s3.contains(wtn, wtd)) by {
                    assert(rat_le(wtn, wtd, wtn, wtd));
                }
                assert(slab_point_in(*self, o, d, wtn, wtd));
                assert(spec_slab_hit(*self, o, d));
            } else {
                if spec_slab_hit(*self, o, d) {
                    let (tn, td): (int, int) = choose|tn: int, td: int|
                        td > 0 && tn >= 0 && slab_point_in(*self, o, d, tn, td);
                    assert(s3.contains(tn, td));
                    if s3.hi_set {
                        lemma_rat_le_trans(
                            s3.lo_n as int,
                            s3.lo_d as int,
                            tn,
                            td,
                            s3.hi_n as int,
                            s3.hi_d as int,
                        );
                    }
                }
            }
        }
        r
    }
}

/// A box around another box is hit by every ray that hits the inner one.
pub proof fn lemma_slab_monotone(outer: BoundingBox, inner: BoundingBox, o: Vec3, d: Vec3)
    requires
        outer.spec_covers(inner),
        spec_slab_hit(inner, o, d),
    ensures
        spec_slab_hit(outer, o, d),
{
    let (tn, td): (int, int) = choose|tn: int, td: int|
        td > 0 && tn >= 0 && slab_point_in(inner, o, d, tn, td);
    lemma_mul_le_pos(outer.min_vector.x as int, inner.min_vector.x as int, td);
    lemma_mul_le_pos(outer.min_vector.y as int, inner.min_vector.y as int, td);
    lemma_mul_le_pos(outer.min_vector.z as int, inner.min_vector.z as int, td);
    lemma_mul_le_pos(inner.max_vector.x as int, outer.max_vector.x as int, td);
    lemma_mul_le_pos(inner.max_vector.y as int, outer.max_vector.y as int, td);
    lemma_mul_le_pos(inner.max_vector.z as int, outer.max_vector.z as int, td);
    assert(slab_point_in(outer, o, d, tn, td));
}

/// Merging with the identity box returns the other box unchanged.
pub proof fn lemma_merge_empty_identity(x: BoundingBox)
    ensures
        BoundingBox::spec_empty().spec_merge(x) == x,
        x.spec_merge(BoundingBox::spec_empty()) == x,
{
}

/// A merged box is a proper box whenever either argument is one, and it
/// holds every point of both arguments.
pub proof fn lemma_merge_sound(a: BoundingBox, b: BoundingBox, p: Vec3)
    ensures
        a.is_wf() || b.is_wf() ==> a.spec_merge(b).is_wf(),
        a.spec_contains(p) ==> a.spec_merge(b).spec_contains(p),
        b.spec_contains(p) ==> a.spec_merge(b).spec_contains(p),
{
}

/// A merged box surrounds both of its arguments.
pub proof fn lemma_merge_covers(a: BoundingBox, b: BoundingBox)
    ensures
        a.spec_merge(b).spec_covers(a),
        a.spec_merge(b).spec_covers(b),
{
}

/// Surrounding is transitive.
pub proof fn lemma_covers_trans(a: BoundingBox, b: BoundingBox, c: BoundingBox)
    requires
        a.spec_covers(b),
        b.spec_covers(c),
    ensures
        a.spec_covers(c),
{
}

} // verus!
