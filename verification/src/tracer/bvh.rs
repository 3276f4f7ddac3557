use vstd::prelude::*;
use vstd::seq_lib::lemma_multiset_commutative;
use crate::geometry::ray::Ray;
use crate::tracer::aabb::{AABB, surrounding_box, surrounding_box_spec, hits_slab_strict};
use crate::tracer::hitable::{Hitable, HitRecord, hitable_wf, hitable_hit_spec,
    hitable_box_spec};
use crate::common::random::{rand_below, lemma_swap_to_multiset};

verus! {

/// A node of the bounding-volume hierarchy: either a single primitive or
/// an inner node whose box encloses both children.
#[derive(Debug)]
pub enum BVHNode {
    Leaf(Hitable),
    Node { left: Box<BVHNode>, right: Box<BVHNode>, bbox: AABB },
}

/// The primitives stored at the leaves, left to right.
pub open spec fn bvh_leaves(t: BVHNode) -> Seq<Hitable>
    decreases t,
{
    match t {
        BVHNode::Leaf(p) => seq![p],
        BVHNode::Node { left, right, .. } => bvh_leaves(*left) + bvh_leaves(*right),
    }
}

/// The box a node answers queries with: a leaf's primitive box over the
/// time window, or the stored box of an inner node.
pub open spec fn bvh_box(t: BVHNode, t0: int, t1: int) -> AABB
    decreases t,
{
    match t {
        BVHNode::Leaf(p) => hitable_box_spec(p, t0, t1),
        BVHNode::Node { bbox, .. } => bbox,
    }
}

/// Every leaf primitive is well formed.
pub open spec fn bvh_src_wf(t: BVHNode) -> bool
    decreases t,
{
    match t {
        BVHNode::Leaf(p) => hitable_wf(p),
        BVHNode::Node { left, right, .. } => bvh_src_wf(*left) && bvh_src_wf(*right),
    }
}

/// The stored boxes are exactly the unions of the children's boxes.
pub open spec fn bvh_wf(t: BVHNode, t0: int, t1: int) -> bool
    decreases t,
{
    match t {
        BVHNode::Leaf(p) => hitable_wf(p),
        BVHNode::Node { left, right, bbox } => bvh_wf(*left, t0, t1) && bvh_wf(*right, t0, t1)
            && bbox == surrounding_box_spec(bvh_box(*left, t0, t1), bvh_box(*right, t0, t1)),
    }
}

/// The conservative-box hypothesis for a ray: whenever a leaf under a node
/// reports a hit in `(tmin, tmax)`, the ray passes strictly through that
/// node's stored box.  Exact real-valued geometry guarantees this for boxes
/// that enclose their primitives; fixed-point rounding of a hit parameter
/// can violate it only when the hit point grazes the box boundary.
pub open spec fn bvh_hyp(t: BVHNode, r: Ray, tmin: int, tmax: int) -> bool
    decreases t,
{
    match t {
        BVHNode::Leaf(p) => true,
        BVHNode::Node { left, right, bbox } => {
            (forall|i: int| 0 <= i < bvh_leaves(t).len() && (#[trigger] hitable_hit_spec(
                bvh_leaves(t)[i], r, tmin, tmax)) is Some ==> hits_slab_strict(bbox, r, tmin,
                tmax)) && bvh_hyp(*left, r, tmin, tmax) && bvh_hyp(*right, r, tmin, tmax)
        },
    }
}

/// `res` is a nearest hit of the primitives `s` over `(tmin, tmax)`: on a
/// miss no primitive hits, and on a hit some primitive reports exactly this
/// record and no primitive reports a smaller parameter.
pub open spec fn is_nearest_hit(s: Seq<Hitable>, r: Ray, tmin: int, tmax: int, res: Option<
    HitRecord>) -> bool {
    match res {
        None => forall|i: int| 0 <= i < s.len() ==> (#[trigger] hitable_hit_spec(s[i], r, tmin,
            tmax)) is None,
        Some(rec) => (exists|i: int| 0 <= i < s.len() && (#[trigger] hitable_hit_spec(s[i], r,
            tmin, tmax)) == Some(rec)) && (forall|i: int| 0 <= i < s.len() ==> ((
            #[trigger] hitable_hit_spec(s[i], r, tmin, tmax)) matches Some(h) ==> h.t
            >= rec.t)),
    }
}

/// Every primitive in `s[lo..hi)` is well formed.
pub open spec fn range_wf(s: Seq<Hitable>, lo: int, hi: int) -> bool {
    forall|i: int| lo <= i < hi ==> hitable_wf(#[trigger] s[i])
}

/// The sort key: the lower corner of the primitive's box at time zero, on
/// the chosen axis.
fn box_key(p: &Hitable, axis: usize) -> i64
    requires
        hitable_wf(*p),
        axis < 3,
{
    match p.bounding_box(0, 0) {
        Some(b) => b.lower.get(axis),
        None => {
            proof {
                assert(false);
            }
            0
        },
    }
}

/// Sort `v[lo..hi)` in place by box key: an insertion sort of adjacent
/// swaps, so the range keeps exactly its elements.
fn sort_range(v: &mut Vec<Hitable>, lo: usize, hi: usize, axis: usize)
    requires
        lo < hi <= old(v).len(),
        axis < 3,
        range_wf(old(v)@, lo as int, hi as int),
    ensures
        final(v).len() == old(v).len(),
        forall|k: int| 0 <= k < old(v)@.len() && !(lo <= k < hi) ==> final(v)@[k] == old(
            v)@[k],
        final(v)@.subrange(lo as int, hi as int).to_multiset() == old(v)@.subrange(lo as int,
            hi as int).to_multiset(),
        range_wf(final(v)@, lo as int, hi as int),
{
    let ghost orig = old(v)@;
    let mut i = lo + 1;
    while i < hi
        invariant
            lo < hi <= v.len(),
            lo < i,
            axis < 3,
            v@.len() == orig.len(),
            forall|k: int| 0 <= k < orig.len() && !(lo <= k < hi) ==> v@[k] == orig[k],
            v@.subrange(lo as int, hi as int).to_multiset() == orig.subrange(lo as int,
                hi as int).to_multiset(),
            range_wf(v@, lo as int, hi as int),
        decreases hi - i,
    {
        let mut j = i;
        while j > lo && box_key(&v[j - 1], axis) > box_key(&v[j], axis)
            invariant
                lo < hi <= v.len(),
                lo <= j <= i < hi,
                axis < 3,
                v@.len() == orig.len(),
                forall|k: int| 0 <= k < orig.len() && !(lo <= k < hi) ==> v@[k] == orig[k],
                v@.subrange(lo as int, hi as int).to_multiset() == orig.subrange(lo as int,
                    hi as int).to_multiset(),
                range_wf(v@, lo as int, hi as int),
            decreases j,
        {
            let ghost before = v@;
            let a = v[j - 1].clone();
            let b = v[j].clone();
            v[j - 1] = b;
            v[j] = a;
            proof {
                let sb = before.subrange(lo as int, hi as int);
                let sa = v@.subrange(lo as int, hi as int);
                assert(sa =~= sb.update(j - 1 - lo, sb[j - lo]).update(j - lo, sb[j - 1 - lo]));
                lemma_swap_to_multiset(sb, j - 1 - lo, j - lo);
            }
            j = j - 1;
        }
        i = i + 1;
    }
}

/// The box a node answers queries with, computed for the time window.
fn node_box(t: &BVHNode, time0: i64, time1: i64) -> (r: AABB)
    requires
        bvh_src_wf(*t),
    ensures
        r == bvh_box(*t, time0 as int, time1 as int),
{
    match t {
        BVHNode::Leaf(p) => match p.bounding_box(time0, time1) {
            Some(b) => b,
            None => {
                proof {
                    assert(false);
                }
                AABB {
                    lower: crate::geometry::vector::Vec3 { x: 0, y: 0, z: 0 },
                    upper: crate::geometry::vector::Vec3 { x: 0, y: 0, z: 0 },
                }
            },
        },
        BVHNode::Node { bbox, .. } => *bbox,
    }
}

/// Build a node over `v[lo..hi)`: pick a random axis, sort the range by
/// box key, and split at the median; one primitive makes a leaf.
fn build(v: &mut Vec<Hitable>, lo: usize, hi: usize, time0: i64, time1: i64) -> (r: BVHNode)
    requires
        lo < hi <= old(v).len(),
        range_wf(old(v)@, lo as int, hi as int),
    ensures
        final(v).len() == old(v).len(),
        forall|k: int| 0 <= k < old(v)@.len() && !(lo <= k < hi) ==> final(v)@[k] == old(
            v)@[k],
        final(v)@.subrange(lo as int, hi as int).to_multiset() == old(v)@.subrange(lo as int,
            hi as int).to_multiset(),
        range_wf(final(v)@, lo as int, hi as int),
        bvh_src_wf(r),
        bvh_wf(r, time0 as int, time1 as int),
        bvh_leaves(r).to_multiset() == old(v)@.subrange(lo as int, hi as int).to_multiset(),
    decreases hi - lo,
{
    let axis = rand_below(3) as usize;
    sort_range(v, lo, hi, axis);
    let ghost sorted = v@;
    let n = hi - lo;
    if n == 1 {
        proof {
            assert(hitable_wf(v@[lo as int]));
        }
        let p = v[lo].clone();
        let r = BVHNode::Leaf(p);
        proof {
            assert(bvh_leaves(r) =~= v@.subrange(lo as int, hi as int));
        }
        r
    } else if n == 2 {
        proof {
            assert(hitable_wf(v@[lo as int]));
            assert(hitable_wf(v@[lo as int + 1]));
        }
        let p0 = v[lo].clone();
        let p1 = v[lo + 1].clone();
        let left = BVHNode::Leaf(p0);
        let right = BVHNode::Leaf(p1);
        let lb = node_box(&left, time0, time1);
        let rb = node_box(&right, time0, time1);
        let r = BVHNode::Node {
            left: Box::new(left),
            right: Box::new(right),
            bbox: surrounding_box(&lb, &rb),
        };
        proof {
            reveal_with_fuel(bvh_leaves, 2);
            reveal_with_fuel(bvh_src_wf, 2);
            reveal_with_fuel(bvh_wf, 2);
            assert(bvh_leaves(r).len() == 2);
            assert(bvh_leaves(r)[0] == v@[lo as int]);
            assert(bvh_leaves(r)[1] == v@[lo as int + 1]);
            assert(bvh_leaves(r) =~= v@.subrange(lo as int, hi as int));
        }
        r
    } else {
        let mid = lo + n / 2;
        let left = build(v, lo, mid, time0, time1);
        let ghost after_left = v@;
        let right = build(v, mid, hi, time0, time1);
        let lb = node_box(&left, time0, time1);
        let rb = node_box(&right, time0, time1);
        let r = BVHNode::Node {
            left: Box::new(left),
            right: Box::new(right),
            bbox: surrounding_box(&lb, &rb),
        };
        proof {
            // the two halves' multisets add up to the range's multiset, at
            // every stage of the two recursive builds
            assert(sorted.subrange(lo as int, hi as int) =~= sorted.subrange(lo as int,
                mid as int) + sorted.subrange(mid as int, hi as int));
            lemma_multiset_commutative(sorted.subrange(lo as int, mid as int),
                sorted.subrange(mid as int, hi as int));
            assert(after_left.subrange(mid as int, hi as int) =~= sorted.subrange(mid as int,
                hi as int));
            assert(v@.subrange(lo as int, mid as int) =~= after_left.subrange(lo as int,
                mid as int));
            lemma_multiset_commutative(bvh_leaves(left), bvh_leaves(right));
            assert(v@.subrange(lo as int, hi as int) =~= v@.subrange(lo as int, mid as int)
                + v@.subrange(mid as int, hi as int));
            lemma_multiset_commutative(v@.subrange(lo as int, mid as int), v@.subrange(
                mid as int, hi as int));
        }
        r
    }
}

impl BVHNode {
    /// Build a hierarchy over the whole collection, shuffling it in place;
    /// the leaves hold exactly the primitives of the collection.
    pub fn new(l: &mut Vec<Hitable>, time0: i64, time1: i64) -> (r: BVHNode)
        requires
            old(l).len() >= 1,
            range_wf(old(l)@, 0, old(l)@.len() as int),
        ensures
            final(l).len() == old(l).len(),
            final(l)@.to_multiset() == old(l)@.to_multiset(),
            range_wf(final(l)@, 0, final(l)@.len() as int),
            bvh_src_wf(r),
            bvh_wf(r, time0 as int, time1 as int),
            bvh_leaves(r).to_multiset() == old(l)@.to_multiset(),
    {
        let n = l.len();
        let r = build(l, 0, n, time0, time1);
        proof {
            assert(old(l)@.subrange(0, n as int) =~= old(l)@);
            assert(l@.subrange(0, n as int) =~= l@);
        }
        r
    }

    /// The stored box; the time window only matters for a bare leaf.
    pub fn bounding_box(&self, t0: i64, t1: i64) -> (res: Option<AABB>)
        requires
            bvh_src_wf(*self),
        ensures
            res == Some(bvh_box(*self, t0 as int, t1 as int)),
    {
        Some(node_box(self, t0, t1))
    }

    /// Traverse the hierarchy: if the ray misses the node's box, report no
    /// hit; otherwise probe both children and keep the closer hit.  A
    /// reported hit is always a hit of some leaf; under the
    /// conservative-box hypothesis the result is exactly a nearest hit of
    /// the leaves, as a linear scan of them would report.
    pub fn hit(&self, ray: &Ray, t_min: i64, t_max: i64) -> (res: Option<HitRecord>)
        requires
            bvh_src_wf(*self),
        ensures
            res matches Some(rec) ==> exists|i: int| 0 <= i < bvh_leaves(*self).len()
                && (#[trigger] hitable_hit_spec(bvh_leaves(*self)[i], *ray, t_min as int,
                t_max as int)) == Some(rec),
            bvh_hyp(*self, *ray, t_min as int, t_max as int) ==> is_nearest_hit(
                bvh_leaves(*self), *ray, t_min as int, t_max as int, res),
        decreases *self,
    {
        let ghost tmin = t_min as int;
        let ghost tmax = t_max as int;
        match self {
            BVHNode::Leaf(p) => {
                let res = p.hit(ray, t_min, t_max);
                proof {
                    let ls = bvh_leaves(*self);
                    assert(ls[0] == *p);
                    if res is Some {
                        assert(hitable_hit_spec(ls[0], *ray, tmin, tmax) == res);
                    }
                }
                res
            },
            BVHNode::Node { left, right, bbox } => {
                let ghost ls = bvh_leaves(*self);
                let ghost ll = bvh_leaves(**left);
                let ghost lr = bvh_leaves(**right);
                proof {
                    assert(ls =~= ll + lr);
                }
                if bbox.hit(ray, t_min, t_max) {
                    let hl = left.hit(ray, t_min, t_max);
                    let hr = right.hit(ray, t_min, t_max);
                    let res = match (hl, hr) {
                        (Some(lrec), Some(rrec)) => if lrec.t < rrec.t {
                            Some(lrec)
                        } else {
                            Some(rrec)
                        },
                        (Some(lrec), None) => Some(lrec),
                        (None, Some(rrec)) => Some(rrec),
                        (None, None) => None,
                    };
                    proof {
                        match res {
                            Some(rec) => {
                                if hl == Some(rec) {
                                    let i = choose|i: int| 0 <= i < ll.len()
                                        && hitable_hit_spec(ll[i], *ray, tmin, tmax) == Some(
                                        rec);
                                    assert(ls[i] == ll[i]);
                                } else {
                                    let i = choose|i: int| 0 <= i < lr.len()
                                        && hitable_hit_spec(lr[i], *ray, tmin, tmax) == Some(
                                        rec);
                                    assert(ls[ll.len() + i] == lr[i]);
                                }
                            },
                            None => {},
                        }
                        if bvh_hyp(*self, *ray, tmin, tmax) {
                            assert(bvh_hyp(**left, *ray, tmin, tmax));
                            assert(bvh_hyp(**right, *ray, tmin, tmax));
                            assert forall|i: int| 0 <= i < ls.len() implies ((
                                #[trigger] hitable_hit_spec(ls[i], *ray, tmin, tmax))
                                matches Some(h) ==> h.t >= cur_best_t(res)) by {
                                if i < ll.len() {
                                    assert(ll[i] == ls[i]);
                                } else {
                                    assert(lr[i - ll.len()] == ls[i]);
                                }
                            }
                        }
                    }
                    res
                } else {
                    proof {
                        if bvh_hyp(*self, *ray, tmin, tmax) {
                            assert forall|i: int| 0 <= i < ls.len() implies (
                                #[trigger] hitable_hit_spec(ls[i], *ray, tmin, tmax))
                                is None by {
                                if hitable_hit_spec(ls[i], *ray, tmin, tmax) is Some {
                                    assert(hits_slab_strict(*bbox, *ray, tmin, tmax));
                                }
                            }
                        }
                    }
                    None
                }
            },
        }
    }
}

/// Any two nearest-hit results over the same multiset of primitives agree:
/// they hit or miss together, and on a hit they report the same parameter.
/// With the hierarchy's traversal and the linear scan each reporting a
/// nearest hit of the same primitives, this is their equivalence.
pub proof fn lemma_nearest_hit_agree(s1: Seq<Hitable>, s2: Seq<Hitable>, r: Ray, tmin: int,
    tmax: int, r1: Option<HitRecord>, r2: Option<HitRecord>)
    requires
        s1.to_multiset() == s2.to_multiset(),
        is_nearest_hit(s1, r, tmin, tmax, r1),
        is_nearest_hit(s2, r, tmin, tmax, r2),
    ensures
        r1 is Some <==> r2 is Some,
        r1 matches Some(a) ==> (r2 matches Some(b) && a.t == b.t),
{
    broadcast use vstd::seq_lib::group_to_multiset_ensures;

    match r1 {
        Some(a) => {
            let i = choose|i: int| 0 <= i < s1.len() && hitable_hit_spec(s1[i], r, tmin, tmax)
                == Some(a);
            assert(s1.contains(s1[i]));
            assert(s1.to_multiset().count(s1[i]) > 0);
            assert(s2.contains(s1[i]));
            let j = choose|j: int| 0 <= j < s2.len() && s2[j] == s1[i];
            assert(hitable_hit_spec(s2[j], r, tmin, tmax) == Some(a));
            match r2 {
                Some(b) => {
                    let i2 = choose|i2: int| 0 <= i2 < s2.len() && hitable_hit_spec(s2[i2], r,
                        tmin, tmax) == Some(b);
                    assert(s2.contains(s2[i2]));
                    assert(s2.to_multiset().count(s2[i2]) > 0);
                    assert(s1.contains(s2[i2]));
                    let j2 = choose|j2: int| 0 <= j2 < s1.len() && s1[j2] == s2[i2];
                    assert(hitable_hit_spec(s1[j2], r, tmin, tmax) == Some(b));
                    assert(a.t >= b.t);
                    assert(b.t >= a.t);
                },
                None => {
                    assert(hitable_hit_spec(s2[j], r, tmin, tmax) is None);
                    assert(false);
                },
            }
        },
        None => {
            match r2 {
                Some(b) => {
                    let i2 = choose|i2: int| 0 <= i2 < s2.len() && hitable_hit_spec(s2[i2], r,
                        tmin, tmax) == Some(b);
                    assert(s2.contains(s2[i2]));
                    assert(s2.to_multiset().count(s2[i2]) > 0);
                    assert(s1.contains(s2[i2]));
                    let j2 = choose|j2: int| 0 <= j2 < s1.len() && s1[j2] == s2[i2];
                    assert(hitable_hit_spec(s1[j2], r, tmin, tmax) is None);
                    assert(false);
                },
                None => {},
            }
        },
    }
}

/// When no two hits share one parameter, the agreement extends to the
/// whole record: the parameter, point, normal and material of the two
/// nearest hits coincide.
pub proof fn lemma_nearest_hit_agree_records(s1: Seq<Hitable>, s2: Seq<Hitable>, r: Ray,
    tmin: int, tmax: int, r1: Option<HitRecord>, r2: Option<HitRecord>)
    requires
        s1.to_multiset() == s2.to_multiset(),
        is_nearest_hit(s1, r, tmin, tmax, r1),
        is_nearest_hit(s2, r, tmin, tmax, r2),
        forall|i: int, j: int|
            #![trigger hitable_hit_spec(s1[i], r, tmin, tmax), hitable_hit_spec(s1[j], r, tmin, tmax)]
            0 <= i < s1.len() && 0 <= j < s1.len() ==> (hitable_hit_spec(s1[i], r, tmin, tmax)
            matches Some(g1) ==> (hitable_hit_spec(s1[j], r, tmin, tmax) matches Some(g2) ==> (
            g1.t == g2.t ==> g1 == g2))),
    ensures
        r1 == r2,
{
    broadcast use vstd::seq_lib::group_to_multiset_ensures;

    lemma_nearest_hit_agree(s1, s2, r, tmin, tmax, r1, r2);
    match (r1, r2) {
        (Some(a), Some(b)) => {
            let i1 = choose|i1: int| 0 <= i1 < s1.len() && hitable_hit_spec(s1[i1], r, tmin,
                tmax) == Some(a);
            let i2 = choose|i2: int| 0 <= i2 < s2.len() && hitable_hit_spec(s2[i2], r, tmin,
                tmax) == Some(b);
            assert(s2.contains(s2[i2]));
            assert(s2.to_multiset().count(s2[i2]) > 0);
            assert(s1.contains(s2[i2]));
            let j2 = choose|j2: int| 0 <= j2 < s1.len() && s1[j2] == s2[i2];
            assert(hitable_hit_spec(s1[j2], r, tmin, tmax) == Some(b));
            assert(a.t == b.t);
            assert(a == b);
        },
        _ => {},
    }
}

/// The parameter of the best hit, or nothing to bound when there is none.
pub open spec fn cur_best_t(res: Option<HitRecord>) -> int {
    match res {
        Some(rec) => rec.t as int,
        None => i64::MIN as int,
    }
}

} // verus!
