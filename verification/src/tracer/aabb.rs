use vstd::prelude::*;
use crate::geometry::vector::Vec3;
use crate::geometry::ray::Ray;
use crate::geometry::numeric::{fmin, fmax, SCALE};

verus! {

/// An axis-aligned bounding box: a lower and an upper corner.
#[derive(Clone, Copy, PartialEq, Eq, Structural, Debug)]
pub struct AABB {
    pub lower: Vec3,
    pub upper: Vec3,
}

/// The component of `v` on axis `a` (0, 1, 2 for x, y, z).
pub open spec fn axv(v: Vec3, a: int) -> int {
    if a == 0 {
        v.x as int
    } else if a == 1 {
        v.y as int
    } else {
        v.z as int
    }
}

/// The rational parameter `tn/td` keeps the ray inside the slab of axis `a`:
/// `lower_a <= o_a + (tn/td) * d_a <= upper_a`, cleared of the denominator.
pub open spec fn slab_axis_closed(b: AABB, r: Ray, a: int, tn: int, td: int) -> bool {
    td * (axv(b.lower, a) - axv(r.o, a)) <= tn * axv(r.d, a)
    && tn * axv(r.d, a) <= td * (axv(b.upper, a) - axv(r.o, a))
}

/// As `slab_axis_closed`, with the point strictly between the two slabs.
pub open spec fn slab_axis_strict(b: AABB, r: Ray, a: int, tn: int, td: int) -> bool {
    td * (axv(b.lower, a) - axv(r.o, a)) < tn * axv(r.d, a)
    && tn * axv(r.d, a) < td * (axv(b.upper, a) - axv(r.o, a))
}

/// The rational parameter `tn/td` lies strictly between the fixed-point
/// bounds `tmin` and `tmax`.
pub open spec fn between_open(tmin: int, tmax: int, tn: int, td: int) -> bool {
    tn * (SCALE as int) > tmin * td && tn * (SCALE as int) < tmax * td
}

/// A witness that the ray meets the box: a rational parameter in the open
/// range whose point is in the box on every axis.
pub open spec fn slab_closed(b: AABB, r: Ray, tmin: int, tmax: int, tn: int, td: int) -> bool {
    td > 0 && between_open(tmin, tmax, tn, td)
    && (forall|a: int| 0 <= a < 3 ==> slab_axis_closed(b, r, a, tn, td))
}

/// As `slab_closed`, strictly inside the box on every axis.
pub open spec fn slab_strict(b: AABB, r: Ray, tmin: int, tmax: int, tn: int, td: int) -> bool {
    td > 0 && between_open(tmin, tmax, tn, td)
    && (forall|a: int| 0 <= a < 3 ==> slab_axis_strict(b, r, a, tn, td))
}

/// Some rational parameter in `(tmin, tmax)` stays inside the box.
pub open spec fn hits_slab(b: AABB, r: Ray, tmin: int, tmax: int) -> bool {
    exists|tn: int, td: int| #[trigger] slab_closed(b, r, tmin, tmax, tn, td)
}

/// Some rational parameter in `(tmin, tmax)` stays strictly inside the box.
pub open spec fn hits_slab_strict(b: AABB, r: Ray, tmin: int, tmax: int) -> bool {
    exists|tn: int, td: int| #[trigger] slab_strict(b, r, tmin, tmax, tn, td)
}

/// The rational `tn/td` lies strictly inside the working interval
/// `(ln/ld, hn/hd)` that the slab walk narrows.
pub open spec fn inside(ln: int, ld: int, hn: int, hd: int, tn: int, td: int) -> bool {
    td > 0 && tn * ld > ln * td && tn * hd < hn * td
}

/// Transitivity of fraction order: `p/q < r/s` and `r/s <= u/v` give
/// `p/q < u/v`, for positive denominators.
proof fn lemma_frac_trans(p: int, q: int, r: int, s: int, u: int, v: int)
    by (nonlinear_arith)
    requires
        q > 0,
        s > 0,
        v > 0,
        p * s < r * q,
        r * v <= u * s,
    ensures
        p * v < u * q,
{
}

/// Transitivity of fraction order: `p/q <= r/s` and `r/s < u/v` give
/// `p/q < u/v`, for positive denominators.
proof fn lemma_frac_trans2(p: int, q: int, r: int, s: int, u: int, v: int)
    by (nonlinear_arith)
    requires
        q > 0,
        s > 0,
        v > 0,
        p * s <= r * q,
        r * v < u * s,
    ensures
        p * v < u * q,
{
}

/// Exact comparison of two fractions with positive denominators:
/// is `p/q` greater than `r/s`?
fn frac_gt(p: i128, q: i128, r: i128, s: i128) -> (res: bool)
    requires
        -0xFFFF_FFFF_FFFF_FFFF <= p <= 0xFFFF_FFFF_FFFF_FFFF,
        -0xFFFF_FFFF_FFFF_FFFF <= r <= 0xFFFF_FFFF_FFFF_FFFF,
        0 < q <= 0x8000_0000_0000_0000,
        0 < s <= 0x8000_0000_0000_0000,
    ensures
        res == (p * s > r * q),
{
    proof {
        lemma_prod_bound(p as int, s as int);
        lemma_prod_bound(r as int, q as int);
    }
    p * s > r * q
}

/// Bound on a product of one value within 2^64 and one within 2^63.
proof fn lemma_prod_bound(a: int, b: int)
    by (nonlinear_arith)
    requires
        -0xFFFF_FFFF_FFFF_FFFF <= a <= 0xFFFF_FFFF_FFFF_FFFF,
        -0x8000_0000_0000_0000 <= b <= 0x8000_0000_0000_0000,
    ensures
        -0x7FFF_FFFF_FFFF_FFFF_8000_0000_0000_0000 <= a * b
            <= 0x7FFF_FFFF_FFFF_FFFF_8000_0000_0000_0000,
{
}

/// The smallest box containing both arguments: the component-wise minimum
/// of the lower corners and maximum of the upper corners.
pub open spec fn surrounding_box_spec(b0: AABB, b1: AABB) -> AABB {
    AABB {
        lower: Vec3 {
            x: if b1.lower.x >= b0.lower.x { b0.lower.x } else { b1.lower.x },
            y: if b1.lower.y >= b0.lower.y { b0.lower.y } else { b1.lower.y },
            z: if b1.lower.z >= b0.lower.z { b0.lower.z } else { b1.lower.z },
        },
        upper: Vec3 {
            x: if b1.upper.x <= b0.upper.x { b0.upper.x } else { b1.upper.x },
            y: if b1.upper.y <= b0.upper.y { b0.upper.y } else { b1.upper.y },
            z: if b1.upper.z <= b0.upper.z { b0.upper.z } else { b1.upper.z },
        },
    }
}

/// Box `inner` lies within box `outer` on every axis.
pub open spec fn box_contains(outer: AABB, inner: AABB) -> bool {
    forall|a: int| 0 <= a < 3 ==> #[trigger] axv(outer.lower, a) <= axv(inner.lower, a)
        && axv(inner.upper, a) <= axv(outer.upper, a)
}

pub fn surrounding_box(box0: &AABB, box1: &AABB) -> (r: AABB)
    ensures
        r == surrounding_box_spec(*box0, *box1),
{
    AABB {
        lower: Vec3 {
            x: fmin(box0.lower.x, box1.lower.x),
            y: fmin(box0.lower.y, box1.lower.y),
            z: fmin(box0.lower.z, box1.lower.z),
        },
        upper: Vec3 {
            x: fmax(box0.upper.x, box1.upper.x),
            y: fmax(box0.upper.y, box1.upper.y),
            z: fmax(box0.upper.z, box1.upper.z),
        },
    }
}

/// The surrounding box contains both of its arguments.
pub proof fn lemma_surrounding_box_contains(b0: AABB, b1: AABB)
    ensures
        box_contains(surrounding_box_spec(b0, b1), b0),
        box_contains(surrounding_box_spec(b0, b1), b1),
{
}

impl AABB {
    /// The slab test: does the ray cross this box for some parameter
    /// strictly between `t_min` and `t_max`?  The walk keeps the exact
    /// rational interval of admissible parameters, so the answer is exact up
    /// to the boundary: a reported hit always has a closed-slab witness, and
    /// a ray that crosses the open interior of the box is always reported.
    pub fn hit(&self, ray: &Ray, t_min: i64, t_max: i64) -> (res: bool)
        ensures
            res ==> hits_slab(*self, *ray, t_min as int, t_max as int),
            hits_slab_strict(*self, *ray, t_min as int, t_max as int) ==> res,
    {
        let mut ln: i128 = t_min as i128;
        let mut ld: i128 = SCALE as i128;
        let mut hn: i128 = t_max as i128;
        let mut hd: i128 = SCALE as i128;
        if !frac_gt(hn, hd, ln, ld) {
            proof {
                reject_no_strict_witness(*self, *ray, t_min as int, t_max as int, ln as int,
                    ld as int, hn as int, hd as int);
            }
            return false;
        }
        let b = *self;
        let r = *ray;
        for a in 0..3usize
            invariant
                b == *self,
                r == *ray,
                0 < ld <= 0x8000_0000_0000_0000,
                0 < hd <= 0x8000_0000_0000_0000,
                -0xFFFF_FFFF_FFFF_FFFF <= ln <= 0xFFFF_FFFF_FFFF_FFFF,
                -0xFFFF_FFFF_FFFF_FFFF <= hn <= 0xFFFF_FFFF_FFFF_FFFF,
                ln * hd < hn * ld,
                // soundness: everything strictly inside the working interval
                // satisfies the open range bound and the axes seen so far
                forall|tn: int, td: int| #[trigger] inside(ln as int, ld as int, hn as int,
                    hd as int, tn, td) ==> between_open(t_min as int, t_max as int, tn, td)
                    && (forall|ax: int| 0 <= ax < a as int ==> slab_axis_closed(b, r, ax, tn, td)),
                // completeness: every strict witness stays strictly inside
                // the working interval
                forall|tn: int, td: int| #[trigger] slab_strict(b, r, t_min as int, t_max as int,
                    tn, td) ==> inside(ln as int, ld as int, hn as int, hd as int, tn, td),
        {
            let o = r.o.get(a) as i128;
            let d = r.d.get(a) as i128;
            let lo = b.lower.get(a) as i128;
            let up = b.upper.get(a) as i128;
            if d == 0 {
                if o < lo || o > up {
                    proof {
                        assert forall|tn: int, td: int| !slab_strict(b, r, t_min as int,
                            t_max as int, tn, td) by {
                            if slab_strict(b, r, t_min as int, t_max as int, tn, td) {
                                assert(slab_axis_strict(b, r, a as int, tn, td));
                                assert(false) by (nonlinear_arith)
                                    requires
                                        td > 0,
                                        axv(r.d, a as int) == 0,
                                        axv(r.o, a as int) < axv(b.lower, a as int) || axv(r.o,
                                            a as int) > axv(b.upper, a as int),
                                        td * (axv(b.lower, a as int) - axv(r.o, a as int)) < tn
                                            * axv(r.d, a as int),
                                        tn * axv(r.d, a as int) < td * (axv(b.upper, a as int)
                                            - axv(r.o, a as int)),
                                ;
                            }
                        }
                    }
                    return false;
                }
                proof {
                    assert forall|tn: int, td: int| #[trigger] inside(ln as int, ld as int,
                        hn as int, hd as int, tn, td) implies slab_axis_closed(b, r, a as int, tn,
                        td) by {
                        assert(td * (axv(b.lower, a as int) - axv(r.o, a as int)) <= tn * axv(r.d,
                            a as int) && tn * axv(r.d, a as int) <= td * (axv(b.upper, a as int)
                            - axv(r.o, a as int))) by (nonlinear_arith)
                            requires
                                td > 0,
                                axv(r.d, a as int) == 0,
                                axv(b.lower, a as int) <= axv(r.o, a as int) <= axv(b.upper,
                                    a as int),
                        ;
                    }
                }
            } else {
                let (cln, cld, chn, chd): (i128, i128, i128, i128) = if d > 0 {
                    (lo - o, d, up - o, d)
                } else {
                    (o - up, -d, o - lo, -d)
                };
                let ghost oln = ln as int;
                let ghost old_ld = ld as int;
                let ghost ohn = hn as int;
                let ghost ohd = hd as int;
                if frac_gt(cln, cld, ln, ld) {
                    ln = cln;
                    ld = cld;
                }
                if frac_gt(hn, hd, chn, chd) {
                    hn = chn;
                    hd = chd;
                }
                proof {
                    axis_update_facts(b, r, a as int, oln, old_ld, ohn, ohd, cln as int,
                        cld as int, chn as int, chd as int, ln as int, ld as int, hn as int,
                        hd as int, t_min as int, t_max as int);
                }
                if !frac_gt(hn, hd, ln, ld) {
                    proof {
                        reject_no_strict_witness(b, r, t_min as int, t_max as int, ln as int,
                            ld as int, hn as int, hd as int);
                    }
                    return false;
                }
            }
        }
        proof {
            let tn = (ln as int) * (hd as int) + (hn as int) * (ld as int);
            let td = 2 * (ld as int) * (hd as int);
            assert(inside(ln as int, ld as int, hn as int, hd as int, tn, td))
                by (nonlinear_arith)
                requires
                    0 < ld as int,
                    0 < hd as int,
                    (ln as int) * (hd as int) < (hn as int) * (ld as int),
                    tn == (ln as int) * (hd as int) + (hn as int) * (ld as int),
                    td == 2 * (ld as int) * (hd as int),
            ;
            assert(slab_closed(*self, *ray, t_min as int, t_max as int, tn, td));
        }
        true
    }
}

/// On a rejection the working interval is empty, so no strict witness can
/// exist: a strict witness would lie strictly inside the interval.
proof fn reject_no_strict_witness(b: AABB, r: Ray, tmin: int, tmax: int, ln: int, ld: int,
    hn: int, hd: int)
    requires
        ld > 0,
        hd > 0,
        hn * ld <= ln * hd,
        forall|tn: int, td: int| #[trigger] slab_strict(b, r, tmin, tmax, tn, td) ==> inside(ln,
            ld, hn, hd, tn, td),
    ensures
        !hits_slab_strict(b, r, tmin, tmax),
{
    assert forall|tn: int, td: int| !slab_strict(b, r, tmin, tmax, tn, td) by {
        if slab_strict(b, r, tmin, tmax, tn, td) {
            assert(inside(ln, ld, hn, hd, tn, td));
            assert(false) by (nonlinear_arith)
                requires
                    ld > 0,
                    hd > 0,
                    td > 0,
                    hn * ld <= ln * hd,
                    tn * ld > ln * td,
                    tn * hd < hn * td,
            ;
        }
    }
}

/// How one axis narrows the working interval: soundness and completeness
/// carry from the old interval to the new one.
#[verifier::spinoff_prover]
proof fn axis_update_facts(b: AABB, r: Ray, a: int, oln: int, old_ld: int, ohn: int, ohd: int,
    cln: int, cld: int, chn: int, chd: int, ln: int, ld: int, hn: int, hd: int, tmin: int,
    tmax: int)
    requires
        0 <= a < 3,
        old_ld > 0,
        ohd > 0,
        cld > 0,
        chd > 0,
        axv(r.d, a) != 0,
        // the candidate fractions encode the slab of axis `a`
        axv(r.d, a) > 0 ==> cln == axv(b.lower, a) - axv(r.o, a) && cld == axv(r.d, a) && chn
            == axv(b.upper, a) - axv(r.o, a) && chd == axv(r.d, a),
        axv(r.d, a) < 0 ==> cln == axv(r.o, a) - axv(b.upper, a) && cld == -axv(r.d, a) && chn
            == axv(r.o, a) - axv(b.lower, a) && chd == -axv(r.d, a),
        // the update took the larger lower and smaller upper fraction
        if cln * old_ld > oln * cld { ln == cln && ld == cld } else { ln == oln && ld == old_ld },
        if ohn * chd > chn * ohd { hn == chn && hd == chd } else { hn == ohn && hd == ohd },
    ensures
        // soundness step: strictly inside the new interval means strictly
        // inside the old one and within the slab of axis `a`
        forall|tn: int, td: int| #[trigger] inside(ln, ld, hn, hd, tn, td) ==> inside(oln, old_ld,
            ohn, ohd, tn, td) && slab_axis_closed(b, r, a, tn, td),
        // completeness step: a strict slab witness strictly inside the old
        // interval is strictly inside the new one
        forall|tn: int, td: int| inside(oln, old_ld, ohn, ohd, tn, td) && slab_axis_strict(b, r,
            a, tn, td) ==> #[trigger] inside(ln, ld, hn, hd, tn, td),
{
    let d = axv(r.d, a);
    assert forall|tn: int, td: int| #[trigger] inside(ln, ld, hn, hd, tn, td) implies inside(oln,
        old_ld, ohn, ohd, tn, td) && slab_axis_closed(b, r, a, tn, td) by {
        // lower side
        if cln * old_ld > oln * cld {
            // new lower is the candidate; old lower is below it
            lemma_frac_trans(oln, old_ld, cln, cld, tn, td);
            assert(tn * old_ld > oln * td);
            assert(tn * cld > cln * td);
        } else {
            lemma_frac_trans2(cln, cld, oln, old_ld, tn, td);
            assert(tn * old_ld > oln * td);
            assert(tn * cld > cln * td);
        }
        // upper side
        if ohn * chd > chn * ohd {
            lemma_frac_trans(tn, td, chn, chd, ohn, ohd);
            assert(tn * ohd < ohn * td);
            assert(tn * chd < chn * td);
        } else {
            lemma_frac_trans(tn, td, ohn, ohd, chn, chd);
            assert(tn * ohd < ohn * td);
            assert(tn * chd < chn * td);
        }
        // the candidate bounds are exactly the slab of axis `a`
        assert(slab_axis_closed(b, r, a, tn, td)) by (nonlinear_arith)
            requires
                td > 0,
                cld > 0,
                d == axv(r.d, a),
                d != 0,
                d > 0 ==> cln == axv(b.lower, a) - axv(r.o, a) && cld == d && chn == axv(b.upper,
                    a) - axv(r.o, a) && chd == d,
                d < 0 ==> cln == axv(r.o, a) - axv(b.upper, a) && cld == -d && chn == axv(r.o, a)
                    - axv(b.lower, a) && chd == -d,
                tn * cld > cln * td,
                tn * chd < chn * td,
                slab_axis_closed(b, r, a, tn, td) == (td * (axv(b.lower, a) - axv(r.o, a)) <= tn
                    * d && tn * d <= td * (axv(b.upper, a) - axv(r.o, a))),
        ;
    }
    assert forall|tn: int, td: int| inside(oln, old_ld, ohn, ohd, tn, td) && slab_axis_strict(b,
        r, a, tn, td) implies #[trigger] inside(ln, ld, hn, hd, tn, td) by {
        assert(tn * cld > cln * td && tn * chd < chn * td) by (nonlinear_arith)
            requires
                td > 0,
                cld > 0,
                chd > 0,
                d == axv(r.d, a),
                d != 0,
                d > 0 ==> cln == axv(b.lower, a) - axv(r.o, a) && cld == d && chn == axv(b.upper,
                    a) - axv(r.o, a) && chd == d,
                d < 0 ==> cln == axv(r.o, a) - axv(b.upper, a) && cld == -d && chn == axv(r.o, a)
                    - axv(b.lower, a) && chd == -d,
                td * (axv(b.lower, a) - axv(r.o, a)) < tn * d,
                tn * d < td * (axv(b.upper, a) - axv(r.o, a)),
        ;
    }
}

} // verus!
