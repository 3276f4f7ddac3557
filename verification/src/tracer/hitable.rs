use vstd::prelude::*;
use crate::geometry::vector::{Vec3, v3_add, v3_sub, v3_neg, v3_div, dot_spec, sadd,
    dot, lemma_length2_nonneg, sqrt_val, lemma_sqrt_val, lemma_isqrt_unique};
use crate::geometry::numeric::{fx_mul, fx_div, fx_sqrt, fx_mul_spec, fx_div_spec, sat_add,
    sat_sub, SCALE};
use crate::geometry::ray::{Ray, point_at_spec};
use crate::tracer::aabb::{AABB, surrounding_box, surrounding_box_spec};

verus! {

/// What an intersection reports: the parameter `t`, the point, the surface
/// normal, texture coordinates, and the material that was struck (an index
/// into the scene's material arena, if the primitive carries one).
#[derive(Clone, Copy, PartialEq, Eq, Structural, Debug)]
pub struct HitRecord {
    pub p: Vec3,
    pub normal: Vec3,
    pub t: i64,
    pub mat: Option<usize>,
    pub u: i64,
    pub v: i64,
}

impl HitRecord {
    pub fn new() -> (r: Self)
        ensures
            r == (HitRecord {
                p: Vec3 { x: 0, y: 0, z: 0 },
                normal: Vec3 { x: 0, y: 0, z: 0 },
                t: 0,
                mat: None,
                u: 0,
                v: 0,
            }),
    {
        Self {
            p: Vec3::new(0, 0, 0),
            normal: Vec3::new(0, 0, 0),
            t: 0,
            mat: None,
            u: 0,
            v: 0,
        }
    }
}

/// A sphere: center, radius, and an optional material index.
#[derive(Clone, Copy, PartialEq, Eq, Structural, Debug)]
pub struct SphereObject {
    pub center: Vec3,
    pub radius: i64,
    pub mat: Option<usize>,
}

/// A sphere whose center moves linearly from `center0` at `time0` to
/// `center1` at `time1`.
#[derive(Clone, Copy, PartialEq, Eq, Structural, Debug)]
pub struct MovingSphereObject {
    pub center0: Vec3,
    pub center1: Vec3,
    pub time0: i64,
    pub time1: i64,
    pub radius: i64,
    pub mat: Option<usize>,
}

/// An axis-aligned rectangle in a plane of constant `z = k`.
#[derive(Clone, Copy, PartialEq, Eq, Structural, Debug)]
pub struct XYRect {
    pub x0: i64,
    pub x1: i64,
    pub y0: i64,
    pub y1: i64,
    pub k: i64,
    pub mat: Option<usize>,
}

/// An axis-aligned rectangle in a plane of constant `y = k`.
#[derive(Clone, Copy, PartialEq, Eq, Structural, Debug)]
pub struct XZRect {
    pub x0: i64,
    pub x1: i64,
    pub z0: i64,
    pub z1: i64,
    pub k: i64,
    pub mat: Option<usize>,
}

/// An axis-aligned rectangle in a plane of constant `x = k`.
#[derive(Clone, Copy, PartialEq, Eq, Structural, Debug)]
pub struct YZRect {
    pub y0: i64,
    pub y1: i64,
    pub z0: i64,
    pub z1: i64,
    pub k: i64,
    pub mat: Option<usize>,
}

/// The slack, in micro-units, by which a rectangle's bounding box is
/// extruded along its constant axis.
pub const RECT_PAD: i64 = 100;

/// The lower bound `0.001` that the integrator uses against self-intersection.
pub const T_EPS: i64 = 1_000;

/// The time-independent part of the quadratic sphere test: the nearer root
/// inside `(tmin, tmax)` if there is one, else the farther, else nothing.
pub open spec fn quad_hit_t(center: Vec3, radius: int, r: Ray, tmin: int, tmax: int) -> Option<
    int,
> {
    let oc = v3_sub(r.o, center);
    let a = dot_spec(r.d, r.d);
    let b = dot_spec(oc, r.d);
    let c = sadd(dot_spec(oc, oc), -fx_mul_spec(radius, radius));
    let disc = sadd(fx_mul_spec(b, b), -fx_mul_spec(a, c));
    if a != 0 && disc > 0 {
        let sq = sqrt_val(disc * (SCALE as int));
        let t1 = fx_div_spec(sadd(-(b as int), -sq), a);
        let t2 = fx_div_spec(sadd(-(b as int), sq), a);
        if tmin < t1 < tmax {
            Some(t1)
        } else if tmin < t2 < tmax {
            Some(t2)
        } else {
            None
        }
    } else {
        None
    }
}

/// What a sphere intersection reports at parameter `t`.
pub open spec fn sphere_record(center: Vec3, radius: int, mat: Option<usize>, r: Ray,
    t: int) -> HitRecord {
    let p = point_at_spec(r, t);
    HitRecord {
        p,
        normal: v3_div(v3_sub(p, center), radius),
        t: t as i64,
        mat,
        u: 0,
        v: 0,
    }
}

pub open spec fn sphere_hit_spec(center: Vec3, radius: int, mat: Option<usize>, r: Ray,
    tmin: int, tmax: int) -> Option<HitRecord> {
    match quad_hit_t(center, radius, r, tmin, tmax) {
        Some(t) => Some(sphere_record(center, radius, mat, r, t)),
        None => None,
    }
}

/// The quadratic sphere test, shared by the static and the moving sphere.
/// No texture of this model reads the spherical surface coordinates, so
/// the record reports zero for both.
fn sphere_hit(center: Vec3, radius: i64, mat: Option<usize>, ray: &Ray, t_min: i64,
    t_max: i64) -> (res: Option<HitRecord>)
    requires
        radius != 0,
    ensures
        res == sphere_hit_spec(center, radius as int, mat, *ray, t_min as int, t_max as int),
{
    let oc = ray.o.sub(center);
    let a = dot(&ray.d, &ray.d);
    let b = dot(&oc, &ray.d);
    let c = sat_sub(dot(&oc, &oc), fx_mul(radius, radius));
    let disc = sat_sub(fx_mul(b, b), fx_mul(a, c));
    if a != 0 && disc > 0 {
        let sq = fx_sqrt(disc);
        proof {
            lemma_sqrt_val(disc as int * (SCALE as int));
            lemma_isqrt_unique(disc as int * (SCALE as int), sq as int,
                sqrt_val(disc as int * (SCALE as int)));
        }
        let t1 = fx_div(crate::geometry::numeric::sat_nsub(b, sq), a);
        if t_min < t1 && t1 < t_max {
            let p = ray.point_at_parameter(t1);
            return Some(HitRecord {
                p,
                normal: p.sub(center).div(radius),
                t: t1,
                mat,
                u: 0,
                v: 0,
            });
        }
        let t2 = fx_div(sat_sub(sq, b), a);
        if t_min < t2 && t2 < t_max {
            let p = ray.point_at_parameter(t2);
            return Some(HitRecord {
                p,
                normal: p.sub(center).div(radius),
                t: t2,
                mat,
                u: 0,
                v: 0,
            });
        }
        None
    } else {
        None
    }
}

impl SphereObject {
    pub fn hit(&self, ray: &Ray, t_min: i64, t_max: i64) -> (res: Option<HitRecord>)
        requires
            self.radius != 0,
        ensures
            res == sphere_hit_spec(self.center, self.radius as int, self.mat, *ray,
                t_min as int, t_max as int),
    {
        sphere_hit(self.center, self.radius, self.mat, ray, t_min, t_max)
    }

    /// The box `center - (r,r,r)` to `center + (r,r,r)`.
    pub fn bounding_box(&self, t0: i64, t1: i64) -> (res: Option<AABB>)
        ensures
            res == Some(sphere_box_spec(self.center, self.radius as int)),
    {
        let rv = Vec3::new(self.radius, self.radius, self.radius);
        Some(AABB { lower: self.center.sub(rv), upper: self.center.add(rv) })
    }
}

pub open spec fn sphere_box_spec(center: Vec3, radius: int) -> AABB {
    let rv = Vec3 { x: radius as i64, y: radius as i64, z: radius as i64 };
    AABB { lower: v3_sub(center, rv), upper: v3_add(center, rv) }
}

/// Where the moving sphere's center is at `time`, interpolating linearly
/// over the window `[time0, time1]`.
pub open spec fn moving_center_spec(s: MovingSphereObject, time: int) -> Vec3 {
    v3_add(
        s.center0,
        crate::geometry::vector::v3_scale(
            v3_sub(s.center1, s.center0),
            fx_div_spec(sadd(time, -(s.time0 as int)), sadd(s.time1 as int, -(s.time0 as int))),
        ),
    )
}

impl MovingSphereObject {
    pub fn center(&self, time: i64) -> (res: Vec3)
        requires
            self.time0 != self.time1,
        ensures
            res == moving_center_spec(*self, time as int),
    {
        let dt = sat_sub(time, self.time0);
        let span = sat_sub(self.time1, self.time0);
        proof {
            assert(span != 0);
        }
        self.center0.add(self.center1.sub(self.center0).scale(fx_div(dt, span)))
    }

    pub fn hit(&self, ray: &Ray, t_min: i64, t_max: i64) -> (res: Option<HitRecord>)
        requires
            self.radius != 0,
            self.time0 != self.time1,
        ensures
            res == sphere_hit_spec(moving_center_spec(*self, ray.time as int),
                self.radius as int, self.mat, *ray, t_min as int, t_max as int),
    {
        let c = self.center(ray.time);
        sphere_hit(c, self.radius, self.mat, ray, t_min, t_max)
    }

    /// The union of the boxes at the two ends of the time window.
    pub fn bounding_box(&self, t0: i64, t1: i64) -> (res: Option<AABB>)
        requires
            self.time0 != self.time1,
        ensures
            res == Some(
                surrounding_box_spec(
                    sphere_box_spec(moving_center_spec(*self, t0 as int), self.radius as int),
                    sphere_box_spec(moving_center_spec(*self, t1 as int), self.radius as int),
                ),
            ),
    {
        let rv = Vec3::new(self.radius, self.radius, self.radius);
        let c0 = self.center(t0);
        let c1 = self.center(t1);
        let box0 = AABB { lower: c0.sub(rv), upper: c0.add(rv) };
        let box1 = AABB { lower: c1.sub(rv), upper: c1.add(rv) };
        Some(surrounding_box(&box0, &box1))
    }
}

/// The planar rectangle test, written for the xy-plane: solve for the
/// parameter where the ray crosses `z = k`, then check the other two
/// coordinates against the extent.  A ray parallel to the plane misses.
pub open spec fn rect_hit_spec(x0: int, x1: int, y0: int, y1: int, k: int,
    mat: Option<usize>, o_x: int, o_y: int, o_z: int, d_x: int, d_y: int, d_z: int,
    time: int, tmin: int, tmax: int) -> Option<(int, int, int, int, int)> {
    if d_z == 0 {
        None
    } else {
        let t = fx_div_spec(sadd(k, -o_z), d_z);
        if t < tmin || t > tmax {
            None
        } else {
            let x = sadd(o_x, fx_mul_spec(t, d_x));
            let y = sadd(o_y, fx_mul_spec(t, d_y));
            if x < x0 || x > x1 || y < y0 || y > y1 {
                None
            } else {
                let u = fx_div_spec(sadd(x, -x0), sadd(x1, -x0));
                let v = fx_div_spec(sadd(y, -y0), sadd(y1, -y0));
                Some((t, x, y, u, v))
            }
        }
    }
}

/// Shared executable body of the three rectangle tests, in plane
/// coordinates: returns `(t, x, y, u, v)`.
fn rect_hit(x0: i64, x1: i64, y0: i64, y1: i64, k: i64, mat: Option<usize>, o_x: i64,
    o_y: i64, o_z: i64, d_x: i64, d_y: i64, d_z: i64, time: i64, t_min: i64, t_max: i64) -> (res:
    Option<(i64, i64, i64, i64, i64)>)
    requires
        x0 != x1,
        y0 != y1,
    ensures
        res matches Some(q) ==> rect_hit_spec(x0 as int, x1 as int, y0 as int, y1 as int,
            k as int, mat, o_x as int, o_y as int, o_z as int, d_x as int, d_y as int,
            d_z as int, time as int, t_min as int, t_max as int) == Some((q.0 as int,
            q.1 as int, q.2 as int, q.3 as int, q.4 as int)),
        res is None ==> rect_hit_spec(x0 as int, x1 as int, y0 as int, y1 as int, k as int,
            mat, o_x as int, o_y as int, o_z as int, d_x as int, d_y as int, d_z as int,
            time as int, t_min as int, t_max as int) is None,
{
    if d_z == 0 {
        return None;
    }
    let t = fx_div(sat_sub(k, o_z), d_z);
    if t < t_min || t > t_max {
        return None;
    }
    let x = sat_add(o_x, fx_mul(t, d_x));
    let y = sat_add(o_y, fx_mul(t, d_y));
    if x < x0 || x > x1 || y < y0 || y > y1 {
        return None;
    }
    let u = fx_div(sat_sub(x, x0), sat_sub(x1, x0));
    let v = fx_div(sat_sub(y, y0), sat_sub(y1, y0));
    Some((t, x, y, u, v))
}

pub open spec fn xy_rect_hit_spec(rc: XYRect, r: Ray, tmin: int, tmax: int) -> Option<
    HitRecord,
> {
    match rect_hit_spec(rc.x0 as int, rc.x1 as int, rc.y0 as int, rc.y1 as int, rc.k as int,
        rc.mat, r.o.x as int, r.o.y as int, r.o.z as int, r.d.x as int, r.d.y as int,
        r.d.z as int, r.time as int, tmin, tmax) {
        Some(q) => Some(HitRecord {
            p: point_at_spec(r, q.0),
            normal: Vec3 { x: 0, y: 0, z: SCALE },
            t: q.0 as i64,
            mat: rc.mat,
            u: q.3 as i64,
            v: q.4 as i64,
        }),
        None => None,
    }
}

impl XYRect {
    pub fn hit(&self, ray: &Ray, t_min: i64, t_max: i64) -> (res: Option<HitRecord>)
        requires
            self.x0 != self.x1,
            self.y0 != self.y1,
        ensures
            res == xy_rect_hit_spec(*self, *ray, t_min as int, t_max as int),
    {
        match rect_hit(self.x0, self.x1, self.y0, self.y1, self.k, self.mat, ray.o.x, ray.o.y,
            ray.o.z, ray.d.x, ray.d.y, ray.d.z, ray.time, t_min, t_max) {
            Some(q) => Some(HitRecord {
                p: ray.point_at_parameter(q.0),
                normal: Vec3::new(0, 0, SCALE),
                t: q.0,
                mat: self.mat,
                u: q.3,
                v: q.4,
            }),
            None => None,
        }
    }

    /// The rectangle extruded by a small slack along its constant axis.
    pub fn bounding_box(&self, t0: i64, t1: i64) -> (res: Option<AABB>)
        ensures
            res == Some(xy_rect_box_spec(*self)),
    {
        Some(AABB {
            lower: Vec3::new(self.x0, self.y0, sat_sub(self.k, RECT_PAD)),
            upper: Vec3::new(self.x1, self.y1, sat_add(self.k, RECT_PAD)),
        })
    }
}

pub open spec fn xy_rect_box_spec(rc: XYRect) -> AABB {
    AABB {
        lower: Vec3 { x: rc.x0, y: rc.y0, z: sadd(rc.k as int, -(RECT_PAD as int)) as i64 },
        upper: Vec3 { x: rc.x1, y: rc.y1, z: sadd(rc.k as int, RECT_PAD as int) as i64 },
    }
}

pub open spec fn xz_rect_hit_spec(rc: XZRect, r: Ray, tmin: int, tmax: int) -> Option<
    HitRecord,
> {
    match rect_hit_spec(rc.x0 as int, rc.x1 as int, rc.z0 as int, rc.z1 as int, rc.k as int,
        rc.mat, r.o.x as int, r.o.z as int, r.o.y as int, r.d.x as int, r.d.z as int,
        r.d.y as int, r.time as int, tmin, tmax) {
        Some(q) => Some(HitRecord {
            p: point_at_spec(r, q.0),
            normal: Vec3 { x: 0, y: SCALE, z: 0 },
            t: q.0 as i64,
            mat: rc.mat,
            u: q.3 as i64,
            v: q.4 as i64,
        }),
        None => None,
    }
}

impl XZRect {
    pub fn hit(&self, ray: &Ray, t_min: i64, t_max: i64) -> (res: Option<HitRecord>)
        requires
            self.x0 != self.x1,
            self.z0 != self.z1,
        ensures
            res == xz_rect_hit_spec(*self, *ray, t_min as int, t_max as int),
    {
        match rect_hit(self.x0, self.x1, self.z0, self.z1, self.k, self.mat, ray.o.x, ray.o.z,
            ray.o.y, ray.d.x, ray.d.z, ray.d.y, ray.time, t_min, t_max) {
            Some(q) => Some(HitRecord {
                p: ray.point_at_parameter(q.0),
                normal: Vec3::new(0, SCALE, 0),
                t: q.0,
                mat: self.mat,
                u: q.3,
                v: q.4,
            }),
            None => None,
        }
    }

    /// The rectangle extruded by a small slack along its constant axis.
    pub fn bounding_box(&self, t0: i64, t1: i64) -> (res: Option<AABB>)
        ensures
            res == Some(xz_rect_box_spec(*self)),
    {
        Some(AABB {
            lower: Vec3::new(self.x0, sat_sub(self.k, RECT_PAD), self.z0),
            upper: Vec3::new(self.x1, sat_add(self.k, RECT_PAD), self.z1),
        })
    }
}

pub open spec fn xz_rect_box_spec(rc: XZRect) -> AABB {
    AABB {
        lower: Vec3 { x: rc.x0, y: sadd(rc.k as int, -(RECT_PAD as int)) as i64, z: rc.z0 },
        upper: Vec3 { x: rc.x1, y: sadd(rc.k as int, RECT_PAD as int) as i64, z: rc.z1 },
    }
}

pub open spec fn yz_rect_hit_spec(rc: YZRect, r: Ray, tmin: int, tmax: int) -> Option<
    HitRecord,
> {
    match rect_hit_spec(rc.y0 as int, rc.y1 as int, rc.z0 as int, rc.z1 as int, rc.k as int,
        rc.mat, r.o.y as int, r.o.z as int, r.o.x as int, r.d.y as int, r.d.z as int,
        r.d.x as int, r.time as int, tmin, tmax) {
        Some(q) => Some(HitRecord {
            p: point_at_spec(r, q.0),
            normal: Vec3 { x: SCALE, y: 0, z: 0 },
            t: q.0 as i64,
            mat: rc.mat,
            u: q.3 as i64,
            v: q.4 as i64,
        }),
        None => None,
    }
}

impl YZRect {
    pub fn hit(&self, ray: &Ray, t_min: i64, t_max: i64) -> (res: Option<HitRecord>)
        requires
            self.y0 != self.y1,
            self.z0 != self.z1,
        ensures
            res == yz_rect_hit_spec(*self, *ray, t_min as int, t_max as int),
    {
        match rect_hit(self.y0, self.y1, self.z0, self.z1, self.k, self.mat, ray.o.y, ray.o.z,
            ray.o.x, ray.d.y, ray.d.z, ray.d.x, ray.time, t_min, t_max) {
            Some(q) => Some(HitRecord {
                p: ray.point_at_parameter(q.0),
                normal: Vec3::new(SCALE, 0, 0),
                t: q.0,
                mat: self.mat,
                u: q.3,
                v: q.4,
            }),
            None => None,
        }
    }

    /// The rectangle extruded by a small slack along its constant axis.
    pub fn bounding_box(&self, t0: i64, t1: i64) -> (res: Option<AABB>)
        ensures
            res == Some(yz_rect_box_spec(*self)),
    {
        Some(AABB {
            lower: Vec3::new(sat_sub(self.k, RECT_PAD), self.y0, self.z0),
            upper: Vec3::new(sat_add(self.k, RECT_PAD), self.y1, self.z1),
        })
    }
}

pub open spec fn yz_rect_box_spec(rc: YZRect) -> AABB {
    AABB {
        lower: Vec3 { x: sadd(rc.k as int, -(RECT_PAD as int)) as i64, y: rc.y0, z: rc.z0 },
        upper: Vec3 { x: sadd(rc.k as int, RECT_PAD as int) as i64, y: rc.y1, z: rc.z1 },
    }
}

/// A box: six rectangle walls between the corners `pmin` and `pmax`, all
/// sharing one material.
#[derive(Clone, Copy, PartialEq, Eq, Structural, Debug)]
pub struct BoxObject {
    pub pmin: Vec3,
    pub pmax: Vec3,
    pub mat: usize,
}

/// A decorator that negates the normal of a hit on the inner primitive.
#[derive(Debug)]
pub struct FlipNormals {
    pub ptr: Option<Box<Hitable>>,
}

/// A decorator that shifts the inner primitive by `offset`.
#[derive(Debug)]
pub struct Translate {
    pub ptr: Option<Box<Hitable>>,
    pub offset: Vec3,
}

/// The closed set of primitives the tracer knows.
#[derive(Debug)]
pub enum Hitable {
    Sphere(SphereObject),
    MovingSphere(MovingSphereObject),
    XY(XYRect),
    XZ(XZRect),
    YZ(YZRect),
    BoxShape(BoxObject),
    Flip(FlipNormals),
    Moved(Translate),
}

/// Construction is sound: extents are not degenerate where a hit test
/// divides by them, and decorators wrap an actual primitive.
pub open spec fn hitable_wf(p: Hitable) -> bool
    decreases p,
{
    match p {
        Hitable::Sphere(s) => s.radius != 0,
        Hitable::MovingSphere(s) => s.radius != 0 && s.time0 != s.time1,
        Hitable::XY(rc) => rc.x0 != rc.x1 && rc.y0 != rc.y1,
        Hitable::XZ(rc) => rc.x0 != rc.x1 && rc.z0 != rc.z1,
        Hitable::YZ(rc) => rc.y0 != rc.y1 && rc.z0 != rc.z1,
        Hitable::BoxShape(b) => b.pmin.x != b.pmax.x && b.pmin.y != b.pmax.y && b.pmin.z
            != b.pmax.z,
        Hitable::Flip(f) => match f.ptr {
            Some(inner) => hitable_wf(*inner),
            None => false,
        },
        Hitable::Moved(t) => match t.ptr {
            Some(inner) => hitable_wf(*inner),
            None => false,
        },
    }
}

/// The running-closest fold: a new candidate replaces the best so far.
pub open spec fn step_hit(best: Option<HitRecord>, cand: Option<HitRecord>) -> Option<
    HitRecord,
> {
    match cand {
        Some(h) => Some(h),
        None => best,
    }
}

/// The upper bound for the next test: the best `t` so far, else `tmax`.
pub open spec fn cur_max(best: Option<HitRecord>, tmax: int) -> int {
    match best {
        Some(h) => h.t as int,
        None => tmax,
    }
}

/// Negate the normal of a hit, if there is one.
pub open spec fn flip_rec(o: Option<HitRecord>) -> Option<HitRecord> {
    match o {
        Some(h) => Some(HitRecord { normal: v3_neg(h.normal), ..h }),
        None => None,
    }
}

/// The six walls of a box, in the order they are tested.
pub open spec fn box_wall_xy_far(b: BoxObject) -> XYRect {
    XYRect { x0: b.pmin.x, x1: b.pmax.x, y0: b.pmin.y, y1: b.pmax.y, k: b.pmax.z,
        mat: Some(b.mat) }
}

pub open spec fn box_wall_xy_near(b: BoxObject) -> XYRect {
    XYRect { x0: b.pmin.x, x1: b.pmax.x, y0: b.pmin.y, y1: b.pmax.y, k: b.pmin.z,
        mat: Some(b.mat) }
}

pub open spec fn box_wall_xz_far(b: BoxObject) -> XZRect {
    XZRect { x0: b.pmin.x, x1: b.pmax.x, z0: b.pmin.z, z1: b.pmax.z, k: b.pmax.y,
        mat: Some(b.mat) }
}

pub open spec fn box_wall_xz_near(b: BoxObject) -> XZRect {
    XZRect { x0: b.pmin.x, x1: b.pmax.x, z0: b.pmin.z, z1: b.pmax.z, k: b.pmin.y,
        mat: Some(b.mat) }
}

pub open spec fn box_wall_yz_far(b: BoxObject) -> YZRect {
    YZRect { y0: b.pmin.y, y1: b.pmax.y, z0: b.pmin.z, z1: b.pmax.z, k: b.pmax.x,
        mat: Some(b.mat) }
}

pub open spec fn box_wall_yz_near(b: BoxObject) -> YZRect {
    YZRect { y0: b.pmin.y, y1: b.pmax.y, z0: b.pmin.z, z1: b.pmax.z, k: b.pmin.x,
        mat: Some(b.mat) }
}

/// A box tests its six walls in a fixed order, keeping the closest hit;
/// the three walls facing the lower corner report flipped normals.
#[verifier::opaque]
pub open spec fn box_hit_spec(b: BoxObject, r: Ray, tmin: int, tmax: int) -> Option<
    HitRecord,
> {
    let b1 = step_hit(None, xy_rect_hit_spec(box_wall_xy_far(b), r, tmin, tmax));
    let b2 = step_hit(b1, flip_rec(xy_rect_hit_spec(box_wall_xy_near(b), r, tmin,
        cur_max(b1, tmax))));
    let b3 = step_hit(b2, xz_rect_hit_spec(box_wall_xz_far(b), r, tmin, cur_max(b2, tmax)));
    let b4 = step_hit(b3, flip_rec(xz_rect_hit_spec(box_wall_xz_near(b), r, tmin,
        cur_max(b3, tmax))));
    let b5 = step_hit(b4, yz_rect_hit_spec(box_wall_yz_far(b), r, tmin, cur_max(b4, tmax)));
    let b6 = step_hit(b5, flip_rec(yz_rect_hit_spec(box_wall_yz_near(b), r, tmin,
        cur_max(b5, tmax))));
    b6
}

pub open spec fn box_box_spec(b: BoxObject) -> AABB {
    AABB { lower: b.pmin, upper: b.pmax }
}

impl BoxObject {
    pub fn create(p0: Vec3, p1: Vec3, mat: usize) -> (r: Self)
        ensures
            r == (BoxObject { pmin: p0, pmax: p1, mat }),
    {
        Self { pmin: p0, pmax: p1, mat }
    }

    pub fn hit(&self, ray: &Ray, t_min: i64, t_max: i64) -> (res: Option<HitRecord>)
        requires
            hitable_wf(Hitable::BoxShape(*self)),
        ensures
            res == box_hit_spec(*self, *ray, t_min as int, t_max as int),
    {
        proof {
            reveal(box_hit_spec);
        }
        let w1 = XYRect { x0: self.pmin.x, x1: self.pmax.x, y0: self.pmin.y, y1: self.pmax.y,
            k: self.pmax.z, mat: Some(self.mat) };
        let w2 = XYRect { k: self.pmin.z, ..w1 };
        let w3 = XZRect { x0: self.pmin.x, x1: self.pmax.x, z0: self.pmin.z, z1: self.pmax.z,
            k: self.pmax.y, mat: Some(self.mat) };
        let w4 = XZRect { k: self.pmin.y, ..w3 };
        let w5 = YZRect { y0: self.pmin.y, y1: self.pmax.y, z0: self.pmin.z, z1: self.pmax.z,
            k: self.pmax.x, mat: Some(self.mat) };
        let w6 = YZRect { k: self.pmin.x, ..w5 };
        let mut best: Option<HitRecord> = None;
        let mut closest = t_max;
        match w1.hit(ray, t_min, closest) {
            Some(h) => {
                closest = h.t;
                best = Some(h);
            },
            None => {},
        }
        match w2.hit(ray, t_min, closest) {
            Some(h) => {
                closest = h.t;
                best = Some(HitRecord { normal: h.normal.neg(), ..h });
            },
            None => {},
        }
        match w3.hit(ray, t_min, closest) {
            Some(h) => {
                closest = h.t;
                best = Some(h);
            },
            None => {},
        }
        match w4.hit(ray, t_min, closest) {
            Some(h) => {
                closest = h.t;
                best = Some(HitRecord { normal: h.normal.neg(), ..h });
            },
            None => {},
        }
        match w5.hit(ray, t_min, closest) {
            Some(h) => {
                closest = h.t;
                best = Some(h);
            },
            None => {},
        }
        match w6.hit(ray, t_min, closest) {
            Some(h) => {
                best = Some(HitRecord { normal: h.normal.neg(), ..h });
            },
            None => {},
        }
        best
    }

    pub fn bounding_box(&self, t0: i64, t1: i64) -> (res: Option<AABB>)
        ensures
            res == Some(box_box_spec(*self)),
    {
        Some(AABB { lower: self.pmin, upper: self.pmax })
    }
}

/// What a primitive's hit test reports; decorators rewrite the record of
/// their inner primitive.
#[verifier::opaque]
pub open spec fn hitable_hit_spec(p: Hitable, r: Ray, tmin: int, tmax: int) -> Option<
    HitRecord,
>
    decreases p,
{
    match p {
        Hitable::Sphere(s) => sphere_hit_spec(s.center, s.radius as int, s.mat, r, tmin, tmax),
        Hitable::MovingSphere(s) => sphere_hit_spec(moving_center_spec(s, r.time as int),
            s.radius as int, s.mat, r, tmin, tmax),
        Hitable::XY(rc) => xy_rect_hit_spec(rc, r, tmin, tmax),
        Hitable::XZ(rc) => xz_rect_hit_spec(rc, r, tmin, tmax),
        Hitable::YZ(rc) => yz_rect_hit_spec(rc, r, tmin, tmax),
        Hitable::BoxShape(b) => box_hit_spec(b, r, tmin, tmax),
        Hitable::Flip(f) => match f.ptr {
            Some(inner) => flip_rec(hitable_hit_spec(*inner, r, tmin, tmax)),
            None => None,
        },
        Hitable::Moved(t) => match t.ptr {
            Some(inner) => {
                let moved = Ray { o: v3_sub(r.o, t.offset), d: r.d, time: r.time };
                match hitable_hit_spec(*inner, moved, tmin, tmax) {
                    Some(h) => Some(HitRecord { p: v3_add(h.p, t.offset), ..h }),
                    None => None,
                }
            },
            None => None,
        },
    }
}

/// A primitive's bounding box over the time window `[t0, t1]`.
pub open spec fn hitable_box_spec(p: Hitable, t0: int, t1: int) -> AABB
    decreases p,
{
    match p {
        Hitable::Sphere(s) => sphere_box_spec(s.center, s.radius as int),
        Hitable::MovingSphere(s) => surrounding_box_spec(
            sphere_box_spec(moving_center_spec(s, t0), s.radius as int),
            sphere_box_spec(moving_center_spec(s, t1), s.radius as int),
        ),
        Hitable::XY(rc) => xy_rect_box_spec(rc),
        Hitable::XZ(rc) => xz_rect_box_spec(rc),
        Hitable::YZ(rc) => yz_rect_box_spec(rc),
        Hitable::BoxShape(b) => box_box_spec(b),
        Hitable::Flip(f) => match f.ptr {
            Some(inner) => hitable_box_spec(*inner, t0, t1),
            None => AABB { lower: Vec3 { x: 0, y: 0, z: 0 }, upper: Vec3 { x: 0, y: 0, z: 0 } },
        },
        Hitable::Moved(t) => match t.ptr {
            Some(inner) => {
                let inner_box = hitable_box_spec(*inner, t0, t1);
                AABB {
                    lower: v3_add(t.offset, inner_box.lower),
                    upper: v3_add(t.offset, inner_box.upper),
                }
            },
            None => AABB { lower: Vec3 { x: 0, y: 0, z: 0 }, upper: Vec3 { x: 0, y: 0, z: 0 } },
        },
    }
}

impl Hitable {
    /// Intersect the ray with this primitive over the open parameter range
    /// `(t_min, t_max)`.
    pub fn hit(&self, ray: &Ray, t_min: i64, t_max: i64) -> (res: Option<HitRecord>)
        requires
            hitable_wf(*self),
        ensures
            res == hitable_hit_spec(*self, *ray, t_min as int, t_max as int),
        decreases *self,
    {
        proof {
            reveal(hitable_hit_spec);
        }
        match self {
            Hitable::Sphere(s) => s.hit(ray, t_min, t_max),
            Hitable::MovingSphere(s) => s.hit(ray, t_min, t_max),
            Hitable::XY(rc) => rc.hit(ray, t_min, t_max),
            Hitable::XZ(rc) => rc.hit(ray, t_min, t_max),
            Hitable::YZ(rc) => rc.hit(ray, t_min, t_max),
            Hitable::BoxShape(b) => b.hit(ray, t_min, t_max),
            Hitable::Flip(f) => match &f.ptr {
                Some(inner) => match inner.hit(ray, t_min, t_max) {
                    Some(h) => Some(HitRecord { normal: h.normal.neg(), ..h }),
                    None => None,
                },
                None => None,
            },
            Hitable::Moved(t) => match &t.ptr {
                Some(inner) => {
                    let moved = Ray::new(ray.o.sub(t.offset), ray.d, ray.time);
                    match inner.hit(&moved, t_min, t_max) {
                        Some(h) => Some(HitRecord { p: h.p.add(t.offset), ..h }),
                        None => None,
                    }
                },
                None => None,
            },
        }
    }

    /// The bounding box over the time window `[t0, t1]`; a well-formed
    /// primitive of this closed set always has one.
    pub fn bounding_box(&self, t0: i64, t1: i64) -> (res: Option<AABB>)
        requires
            hitable_wf(*self),
        ensures
            res == Some(hitable_box_spec(*self, t0 as int, t1 as int)),
        decreases *self,
    {
        match self {
            Hitable::Sphere(s) => s.bounding_box(t0, t1),
            Hitable::MovingSphere(s) => s.bounding_box(t0, t1),
            Hitable::XY(rc) => rc.bounding_box(t0, t1),
            Hitable::XZ(rc) => rc.bounding_box(t0, t1),
            Hitable::YZ(rc) => rc.bounding_box(t0, t1),
            Hitable::BoxShape(b) => b.bounding_box(t0, t1),
            Hitable::Flip(f) => match &f.ptr {
                Some(inner) => inner.bounding_box(t0, t1),
                None => None,
            },
            Hitable::Moved(t) => match &t.ptr {
                Some(inner) => match inner.bounding_box(t0, t1) {
                    Some(ib) => Some(AABB {
                        lower: t.offset.add(ib.lower),
                        upper: t.offset.add(ib.upper),
                    }),
                    None => None,
                },
                None => None,
            },
        }
    }
}

/// An exact deep copy of a primitive.
fn clone_hitable(p: &Hitable) -> (r: Hitable)
    ensures
        r == *p,
    decreases *p,
{
    match p {
        Hitable::Sphere(s) => Hitable::Sphere(*s),
        Hitable::MovingSphere(s) => Hitable::MovingSphere(*s),
        Hitable::XY(rc) => Hitable::XY(*rc),
        Hitable::XZ(rc) => Hitable::XZ(*rc),
        Hitable::YZ(rc) => Hitable::YZ(*rc),
        Hitable::BoxShape(b) => Hitable::BoxShape(*b),
        Hitable::Flip(f) => Hitable::Flip(
            FlipNormals {
                ptr: match &f.ptr {
                    Some(inner) => Some(Box::new(clone_hitable(inner))),
                    None => None,
                },
            },
        ),
        Hitable::Moved(t) => Hitable::Moved(
            Translate {
                ptr: match &t.ptr {
                    Some(inner) => Some(Box::new(clone_hitable(inner))),
                    None => None,
                },
                offset: t.offset,
            },
        ),
    }
}

impl Clone for Hitable {
    /// Cloning a primitive keeps its value exactly.
    fn clone(&self) -> (r: Self)
        ensures
            r == *self,
    {
        clone_hitable(self)
    }
}

/// The exact-geometry half of the box guarantee: if the ray's point at a
/// rational parameter `tn/td` within `(tmin, tmax)` lies strictly inside
/// the sphere, then the slab test of the sphere's bounding box reports the
/// ray, since on every axis the point's offset from the center is smaller
/// than the radius.  (The executable sphere test rounds its parameter, so
/// its hit point can graze the surface; this speaks of the exact point.)
pub proof fn lemma_point_in_sphere_hits_box(center: Vec3, radius: i64, r: Ray, tmin: int,
    tmax: int, tn: int, td: int)
    requires
        td > 0,
        radius > 0,
        crate::tracer::aabb::between_open(tmin, tmax, tn, td),
        // the exact point `o + (tn/td) d` is strictly inside the sphere,
        // cleared of the denominator
        (td * (r.o.x - center.x) + tn * r.d.x) * (td * (r.o.x - center.x) + tn * r.d.x) + (td
            * (r.o.y - center.y) + tn * r.d.y) * (td * (r.o.y - center.y) + tn * r.d.y) + (td
            * (r.o.z - center.z) + tn * r.d.z) * (td * (r.o.z - center.z) + tn * r.d.z) < (td
            * radius) * (td * radius),
        // the box corners do not saturate
        i64::MIN <= center.x - radius,
        i64::MIN <= center.y - radius,
        i64::MIN <= center.z - radius,
        center.x + radius <= i64::MAX,
        center.y + radius <= i64::MAX,
        center.z + radius <= i64::MAX,
    ensures
        crate::tracer::aabb::hits_slab_strict(sphere_box_spec(center, radius as int), r, tmin,
            tmax),
{
    let b = sphere_box_spec(center, radius as int);
    let x = td * (r.o.x - center.x) + tn * r.d.x;
    let y = td * (r.o.y - center.y) + tn * r.d.y;
    let z = td * (r.o.z - center.z) + tn * r.d.z;
    let rr = td * radius;
    assert(rr > 0) by (nonlinear_arith)
        requires
            td > 0,
            radius > 0,
            rr == td * radius,
    ;
    assert(x * x >= 0 && y * y >= 0 && z * z >= 0) by (nonlinear_arith);
    assert(x * x < rr * rr && y * y < rr * rr && z * z < rr * rr);
    assert(-rr < x < rr && -rr < y < rr && -rr < z < rr) by (nonlinear_arith)
        requires
            x * x < rr * rr,
            y * y < rr * rr,
            z * z < rr * rr,
            rr > 0,
    ;
    assert(b.lower.x == center.x - radius && b.upper.x == center.x + radius);
    assert(b.lower.y == center.y - radius && b.upper.y == center.y + radius);
    assert(b.lower.z == center.z - radius && b.upper.z == center.z + radius);
    assert forall|a: int| 0 <= a < 3 implies crate::tracer::aabb::slab_axis_strict(b, r, a, tn,
        td) by {
        if a == 0 {
            assert(td * (crate::tracer::aabb::axv(b.lower, 0) - crate::tracer::aabb::axv(r.o,
                0)) < tn * crate::tracer::aabb::axv(r.d, 0) && tn * crate::tracer::aabb::axv(
                r.d, 0) < td * (crate::tracer::aabb::axv(b.upper, 0)
                - crate::tracer::aabb::axv(r.o, 0))) by (nonlinear_arith)
                requires
                    -rr < x < rr,
                    x == td * (r.o.x - center.x) + tn * r.d.x,
                    rr == td * radius,
                    crate::tracer::aabb::axv(b.lower, 0) == center.x - radius,
                    crate::tracer::aabb::axv(b.upper, 0) == center.x + radius,
                    crate::tracer::aabb::axv(r.o, 0) == r.o.x,
                    crate::tracer::aabb::axv(r.d, 0) == r.d.x,
            ;
        } else if a == 1 {
            assert(td * (crate::tracer::aabb::axv(b.lower, 1) - crate::tracer::aabb::axv(r.o,
                1)) < tn * crate::tracer::aabb::axv(r.d, 1) && tn * crate::tracer::aabb::axv(
                r.d, 1) < td * (crate::tracer::aabb::axv(b.upper, 1)
                - crate::tracer::aabb::axv(r.o, 1))) by (nonlinear_arith)
                requires
                    -rr < y < rr,
                    y == td * (r.o.y - center.y) + tn * r.d.y,
                    rr == td * radius,
                    crate::tracer::aabb::axv(b.lower, 1) == center.y - radius,
                    crate::tracer::aabb::axv(b.upper, 1) == center.y + radius,
                    crate::tracer::aabb::axv(r.o, 1) == r.o.y,
                    crate::tracer::aabb::axv(r.d, 1) == r.d.y,
            ;
        } else {
            assert(td * (crate::tracer::aabb::axv(b.lower, 2) - crate::tracer::aabb::axv(r.o,
                2)) < tn * crate::tracer::aabb::axv(r.d, 2) && tn * crate::tracer::aabb::axv(
                r.d, 2) < td * (crate::tracer::aabb::axv(b.upper, 2)
                - crate::tracer::aabb::axv(r.o, 2))) by (nonlinear_arith)
                requires
                    -rr < z < rr,
                    z == td * (r.o.z - center.z) + tn * r.d.z,
                    rr == td * radius,
                    crate::tracer::aabb::axv(b.lower, 2) == center.z - radius,
                    crate::tracer::aabb::axv(b.upper, 2) == center.z + radius,
                    crate::tracer::aabb::axv(r.o, 2) == r.o.z,
                    crate::tracer::aabb::axv(r.d, 2) == r.d.z,
            ;
        }
    }
    assert(crate::tracer::aabb::slab_strict(b, r, tmin, tmax, tn, td));
}

/// A flat collection of primitives, scanned linearly.
#[derive(Debug)]
pub struct HitList {
    pub list: Vec<Hitable>,
}

pub open spec fn list_wf(s: Seq<Hitable>) -> bool {
    forall|i: int| 0 <= i < s.len() ==> hitable_wf(#[trigger] s[i])
}

/// The linear scan: each primitive is tested against the closest hit found
/// so far, so the final record is the nearest hit of the whole list.
pub open spec fn list_hit_spec(s: Seq<Hitable>, r: Ray, tmin: int, tmax: int) -> Option<
    HitRecord,
>
    decreases s.len(),
{
    if s.len() == 0 {
        None
    } else {
        let prefix = list_hit_spec(s.drop_last(), r, tmin, tmax);
        step_hit(prefix, hitable_hit_spec(s.last(), r, tmin, cur_max(prefix, tmax)))
    }
}

/// The union of all the primitives' boxes, if the list is not empty.
pub open spec fn list_box_spec(s: Seq<Hitable>, t0: int, t1: int) -> Option<AABB>
    decreases s.len(),
{
    if s.len() == 0 {
        None
    } else if s.len() == 1 {
        Some(hitable_box_spec(s[0], t0, t1))
    } else {
        match list_box_spec(s.drop_last(), t0, t1) {
            Some(bb) => Some(surrounding_box_spec(bb, hitable_box_spec(s.last(), t0, t1))),
            None => None,
        }
    }
}

impl HitList {
    pub fn new() -> (r: Self)
        ensures
            r.list@.len() == 0,
    {
        Self { list: Vec::new() }
    }

    /// Scan every primitive, keeping the closest hit: each one is tested
    /// against the best parameter so far, and by the narrowing discipline
    /// of the hit tests the final record is a nearest hit of the whole
    /// list over the full range.
    #[verifier::rlimit(80)]
    #[verifier::spinoff_prover]
    pub fn hit(&self, ray: &Ray, t_min: i64, t_max: i64) -> (res: Option<HitRecord>)
        requires
            list_wf(self.list@),
        ensures
            res == list_hit_spec(self.list@, *ray, t_min as int, t_max as int),
            crate::tracer::bvh::is_nearest_hit(self.list@, *ray, t_min as int, t_max as int,
                res),
    {
        let ghost tmin = t_min as int;
        let ghost tmax = t_max as int;
        let mut best: Option<HitRecord> = None;
        let mut closest = t_max;
        let n = self.list.len();
        for i in 0..n
            invariant
                n == self.list@.len(),
                list_wf(self.list@),
                best == list_hit_spec(self.list@.take(i as int), *ray, t_min as int,
                    t_max as int),
                closest as int == cur_max(best, t_max as int),
                crate::tracer::bvh::is_nearest_hit(self.list@.take(i as int), *ray,
                    t_min as int, t_max as int, best),
                best matches Some(b) ==> t_min <= b.t <= t_max,
                tmin == t_min as int,
                tmax == t_max as int,
        {
            let ghost old_best = best;
            let cand = self.list[i].hit(ray, t_min, closest);
            match cand {
                Some(h) => {
                    closest = h.t;
                    best = Some(h);
                },
                None => {},
            }
            proof {
                assert(self.list@.take(i + 1).drop_last() =~= self.list@.take(i as int));
                assert(self.list@.take(i + 1).last() == self.list@[i as int]);
                lemma_scan_step(self.list@, *ray, tmin, tmax, i as int, old_best, cand);
                assert(best == step_hit(old_best, cand));
            }
        }
        proof {
            assert(self.list@.take(n as int) =~= self.list@);
        }
        best
    }

    /// The union of all the boxes, if the list is not empty.
    pub fn bounding_box(&self, t0: i64, t1: i64) -> (res: Option<AABB>)
        requires
            list_wf(self.list@),
        ensures
            res == list_box_spec(self.list@, t0 as int, t1 as int),
    {
        let n = self.list.len();
        if n == 0 {
            return None;
        }
        let mut bb = match self.list[0].bounding_box(t0, t1) {
            Some(b) => b,
            None => {
                proof {
                    assert(false);
                }
                AABB { lower: Vec3::new(0, 0, 0), upper: Vec3::new(0, 0, 0) }
            },
        };
        proof {
            assert(self.list@.take(1).len() == 1);
            assert(self.list@.take(1)[0] == self.list@[0]);
        }
        for i in 1..n
            invariant
                n == self.list@.len(),
                n >= 1,
                list_wf(self.list@),
                Some(bb) == list_box_spec(self.list@.take(i as int), t0 as int, t1 as int),
        {
            let cand = match self.list[i].bounding_box(t0, t1) {
                Some(b) => b,
                None => {
                    proof {
                        assert(false);
                    }
                    AABB { lower: Vec3::new(0, 0, 0), upper: Vec3::new(0, 0, 0) }
                },
            };
            proof {
                assert(self.list@.take(i + 1).drop_last() =~= self.list@.take(i as int));
                assert(self.list@.take(i + 1).last() == self.list@[i as int]);
            }
            bb = surrounding_box(&bb, &cand);
        }
        proof {
            assert(self.list@.take(n as int) =~= self.list@);
        }
        Some(bb)
    }
}

/// The narrowing discipline of a closest-hit scan, for one tester `w`
/// giving the hit against an upper parameter bound: a hit found under a
/// tighter bound is found unchanged under a looser one; a miss under the
/// tighter bound leaves only hits at or beyond it; and a reported
/// parameter respects the bounds.
pub open spec fn wall_narrowing_ok(w: spec_fn(int) -> Option<HitRecord>, tmin: int) -> bool {
    (forall|x: int, y: int| #![trigger w(x), w(y)] x <= y ==> match w(x) {
        Some(h) => w(y) == Some(h),
        None => w(y) is None || (w(y) matches Some(g) && g.t >= x),
    }) && (forall|x: int| #[trigger] w(x) matches Some(h) ==> tmin <= h.t <= x)
}

/// The relation a narrowed scan keeps to the full scan: the same best so
/// far, or no best yet while the full scan holds one at or beyond the
/// narrow bound.
pub open spec fn wall_rel(tm1: int, bn: Option<HitRecord>, bf: Option<HitRecord>) -> bool {
    bn == bf || (bn is None && (bf matches Some(g) && g.t >= tm1))
}

/// One step of the closest-hit fold preserves `wall_rel` between a run
/// bounded by `tm1` and a run bounded by `tmax`.
proof fn lemma_wall_step(w: spec_fn(int) -> Option<HitRecord>, tmin: int, tm1: int, tmax: int,
    bn: Option<HitRecord>, bf: Option<HitRecord>)
    requires
        tm1 <= tmax,
        wall_narrowing_ok(w, tmin),
        wall_rel(tm1, bn, bf),
        bn matches Some(h) ==> tmin <= h.t <= tm1,
        bf matches Some(h) ==> tmin <= h.t <= tmax,
    ensures
        wall_rel(tm1, step_hit(bn, w(cur_max(bn, tm1))), step_hit(bf, w(cur_max(bf, tmax)))),
        step_hit(bn, w(cur_max(bn, tm1))) matches Some(h) ==> tmin <= h.t <= tm1,
        step_hit(bf, w(cur_max(bf, tmax))) matches Some(h) ==> tmin <= h.t <= tmax,
{
    let cn = cur_max(bn, tm1);
    let cf = cur_max(bf, tmax);
    assert(cn <= tm1);
    assert(cf <= tmax);
    assert(cn <= cf || bn == bf);
    if bn == bf {
        match bn {
            Some(h) => {
                assert(cn == cf);
            },
            None => {
                assert(cn == tm1 && cf == tmax);
            },
        }
    }
    // instantiate the narrowing property at the two bounds
    assert(cn <= cf ==> match w(cn) {
        Some(h) => w(cf) == Some(h),
        None => w(cf) is None || (w(cf) matches Some(g) && g.t >= cn),
    });
    match w(cn) {
        Some(h) => {
            assert(tmin <= h.t <= cn);
        },
        None => {},
    }
    match w(cf) {
        Some(h) => {
            assert(tmin <= h.t <= cf);
        },
        None => {},
    }
}

/// Narrowing for the shared rectangle test: its parameter does not depend
/// on the bounds at all, so a hit is stable and a miss under a tight bound
/// can only hide hits beyond it.
proof fn lemma_rect_narrowing(x0: int, x1: int, y0: int, y1: int, k: int, mat: Option<usize>,
    o_x: int, o_y: int, o_z: int, d_x: int, d_y: int, d_z: int, time: int, tmin: int,
    tm1: int, tmax: int)
    requires
        tm1 <= tmax,
    ensures
        rect_hit_spec(x0, x1, y0, y1, k, mat, o_x, o_y, o_z, d_x, d_y, d_z, time, tmin, tm1)
            matches Some(q) ==> rect_hit_spec(x0, x1, y0, y1, k, mat, o_x, o_y, o_z, d_x, d_y,
            d_z, time, tmin, tmax) == Some(q),
        rect_hit_spec(x0, x1, y0, y1, k, mat, o_x, o_y, o_z, d_x, d_y, d_z, time, tmin, tm1)
            is None ==> (rect_hit_spec(x0, x1, y0, y1, k, mat, o_x, o_y, o_z, d_x, d_y, d_z,
            time, tmin, tmax) is None || (rect_hit_spec(x0, x1, y0, y1, k, mat, o_x, o_y, o_z,
            d_x, d_y, d_z, time, tmin, tmax) matches Some(q2) && q2.0 >= tm1)),
        rect_hit_spec(x0, x1, y0, y1, k, mat, o_x, o_y, o_z, d_x, d_y, d_z, time, tmin, tmax)
            matches Some(q3) ==> tmin <= q3.0 <= tmax,
{
}

/// Narrowing for the quadratic sphere test: the two roots are tried in
/// increasing order, so a root accepted under a tight bound is the root
/// accepted under a looser one.
proof fn lemma_sphere_narrowing(center: Vec3, radius: int, mat: Option<usize>, r: Ray,
    tmin: int, tm1: int, tmax: int)
    requires
        tm1 <= tmax,
    ensures
        sphere_hit_spec(center, radius, mat, r, tmin, tm1) matches Some(h)
            ==> sphere_hit_spec(center, radius, mat, r, tmin, tmax) == Some(h),
        sphere_hit_spec(center, radius, mat, r, tmin, tm1) is None ==> (sphere_hit_spec(
            center, radius, mat, r, tmin, tmax) is None || (sphere_hit_spec(center, radius,
            mat, r, tmin, tmax) matches Some(h2) && h2.t >= tm1)),
        sphere_hit_spec(center, radius, mat, r, tmin, tmax) matches Some(h3) ==> tmin < h3.t
            < tmax,
{
    let oc = v3_sub(r.o, center);
    let a = dot_spec(r.d, r.d);
    let b = dot_spec(oc, r.d);
    let c = sadd(dot_spec(oc, oc), -fx_mul_spec(radius, radius));
    let disc = sadd(fx_mul_spec(b, b), -fx_mul_spec(a, c));
    if a != 0 && disc > 0 {
        lemma_length2_nonneg(r.d);
        assert(a > 0);
        let sq = sqrt_val(disc * (SCALE as int));
        lemma_sqrt_val(disc * (SCALE as int));
        assert(sq >= 0);
        let n1 = sadd(-(b as int), -sq);
        let n2 = sadd(-(b as int), sq);
        assert(n1 <= n2);
        crate::geometry::numeric::lemma_fx_div_mono(n1, n2, a);
        let t1 = fx_div_spec(n1, a);
        let t2 = fx_div_spec(n2, a);
        assert(t1 <= t2);
    }
}

/// Narrowing and bounds for every primitive: a hit found against a tighter
/// upper bound is found unchanged against a looser one; a miss against the
/// tighter bound means the looser test can only report a parameter at or
/// beyond it; and a reported parameter always lies within the bounds.
/// This is what makes a closest-so-far scan report a true nearest hit.
pub proof fn lemma_hit_narrowing(p: Hitable, r: Ray, tmin: int, tm1: int, tmax: int)
    requires
        hitable_wf(p),
        tm1 <= tmax,
    ensures
        hitable_hit_spec(p, r, tmin, tm1) matches Some(h) ==> hitable_hit_spec(p, r, tmin,
            tmax) == Some(h),
        hitable_hit_spec(p, r, tmin, tm1) is None ==> (hitable_hit_spec(p, r, tmin, tmax)
            is None || (hitable_hit_spec(p, r, tmin, tmax) matches Some(h2) && h2.t >= tm1)),
        hitable_hit_spec(p, r, tmin, tmax) matches Some(h3) ==> tmin <= h3.t <= tmax,
    decreases p,
{
    reveal(hitable_hit_spec);
    match p {
        Hitable::Sphere(sp) => {
            lemma_sphere_narrowing(sp.center, sp.radius as int, sp.mat, r, tmin, tm1, tmax);
        },
        Hitable::MovingSphere(sp) => {
            lemma_sphere_narrowing(moving_center_spec(sp, r.time as int), sp.radius as int,
                sp.mat, r, tmin, tm1, tmax);
        },
        Hitable::XY(rc) => {
            lemma_rect_narrowing(rc.x0 as int, rc.x1 as int, rc.y0 as int, rc.y1 as int,
                rc.k as int, rc.mat, r.o.x as int, r.o.y as int, r.o.z as int, r.d.x as int,
                r.d.y as int, r.d.z as int, r.time as int, tmin, tm1, tmax);
        },
        Hitable::XZ(rc) => {
            lemma_rect_narrowing(rc.x0 as int, rc.x1 as int, rc.z0 as int, rc.z1 as int,
                rc.k as int, rc.mat, r.o.x as int, r.o.z as int, r.o.y as int, r.d.x as int,
                r.d.z as int, r.d.y as int, r.time as int, tmin, tm1, tmax);
        },
        Hitable::YZ(rc) => {
            lemma_rect_narrowing(rc.y0 as int, rc.y1 as int, rc.z0 as int, rc.z1 as int,
                rc.k as int, rc.mat, r.o.y as int, r.o.z as int, r.o.x as int, r.d.y as int,
                r.d.z as int, r.d.x as int, r.time as int, tmin, tm1, tmax);
        },
        Hitable::BoxShape(bx) => {
            lemma_box_narrowing(bx, r, tmin, tm1, tmax);
        },
        Hitable::Flip(f) => {
            match f.ptr {
                Some(inner) => {
                    lemma_hit_narrowing(*inner, r, tmin, tm1, tmax);
                },
                None => {},
            }
        },
        Hitable::Moved(t) => {
            match t.ptr {
                Some(inner) => {
                    let moved = Ray { o: v3_sub(r.o, t.offset), d: r.d, time: r.time };
                    lemma_hit_narrowing(*inner, moved, tmin, tm1, tmax);
                },
                None => {},
            }
        },
    }
}

/// The six walls of a box obey the narrowing discipline, so the box's
/// closest-so-far fold over them does too.
proof fn lemma_box_narrowing(bx: BoxObject, r: Ray, tmin: int, tm1: int, tmax: int)
    requires
        tm1 <= tmax,
    ensures
        box_hit_spec(bx, r, tmin, tm1) matches Some(h) ==> box_hit_spec(bx, r, tmin, tmax)
            == Some(h),
        box_hit_spec(bx, r, tmin, tm1) is None ==> (box_hit_spec(bx, r, tmin, tmax) is None
            || (box_hit_spec(bx, r, tmin, tmax) matches Some(h2) && h2.t >= tm1)),
        box_hit_spec(bx, r, tmin, tmax) matches Some(h3) ==> tmin <= h3.t <= tmax,
{
    reveal(box_hit_spec);
    let w1 = |x: int| xy_rect_hit_spec(box_wall_xy_far(bx), r, tmin, x);
    let w2 = |x: int| flip_rec(xy_rect_hit_spec(box_wall_xy_near(bx), r, tmin, x));
    let w3 = |x: int| xz_rect_hit_spec(box_wall_xz_far(bx), r, tmin, x);
    let w4 = |x: int| flip_rec(xz_rect_hit_spec(box_wall_xz_near(bx), r, tmin, x));
    let w5 = |x: int| yz_rect_hit_spec(box_wall_yz_far(bx), r, tmin, x);
    let w6 = |x: int| flip_rec(yz_rect_hit_spec(box_wall_yz_near(bx), r, tmin, x));
    lemma_wall_ok_xy(box_wall_xy_far(bx), r, tmin, false);
    lemma_wall_ok_xy(box_wall_xy_near(bx), r, tmin, true);
    lemma_wall_ok_xz(box_wall_xz_far(bx), r, tmin, false);
    lemma_wall_ok_xz(box_wall_xz_near(bx), r, tmin, true);
    lemma_wall_ok_yz(box_wall_yz_far(bx), r, tmin, false);
    lemma_wall_ok_yz(box_wall_yz_near(bx), r, tmin, true);
    // walk the six steps of both runs in parallel
    lemma_box_fold(w1, w2, w3, w4, w5, w6, tmin, tm1, tmax);
    lemma_box_fold(w1, w2, w3, w4, w5, w6, tmin, tmax, tmax);
    assert(box_hit_spec(bx, r, tmin, tm1) == box_fold(w1, w2, w3, w4, w5, w6, tmin, tm1));
    assert(box_hit_spec(bx, r, tmin, tmax) == box_fold(w1, w2, w3, w4, w5, w6, tmin, tmax));
}

/// The box's fold, written over its six wall testers.
pub open spec fn box_fold(w1: spec_fn(int) -> Option<HitRecord>, w2: spec_fn(int) -> Option<
    HitRecord>, w3: spec_fn(int) -> Option<HitRecord>, w4: spec_fn(int) -> Option<HitRecord>,
    w5: spec_fn(int) -> Option<HitRecord>, w6: spec_fn(int) -> Option<HitRecord>, tmin: int,
    tmax: int) -> Option<HitRecord> {
    let b1 = step_hit(None, w1(cur_max(None, tmax)));
    let b2 = step_hit(b1, w2(cur_max(b1, tmax)));
    let b3 = step_hit(b2, w3(cur_max(b2, tmax)));
    let b4 = step_hit(b3, w4(cur_max(b3, tmax)));
    let b5 = step_hit(b4, w5(cur_max(b4, tmax)));
    step_hit(b5, w6(cur_max(b5, tmax)))
}

/// Chain the step lemma over the six walls.
proof fn lemma_box_fold(w1: spec_fn(int) -> Option<HitRecord>, w2: spec_fn(int) -> Option<
    HitRecord>, w3: spec_fn(int) -> Option<HitRecord>, w4: spec_fn(int) -> Option<HitRecord>,
    w5: spec_fn(int) -> Option<HitRecord>, w6: spec_fn(int) -> Option<HitRecord>, tmin: int,
    tm1: int, tmax: int)
    requires
        tm1 <= tmax,
        wall_narrowing_ok(w1, tmin),
        wall_narrowing_ok(w2, tmin),
        wall_narrowing_ok(w3, tmin),
        wall_narrowing_ok(w4, tmin),
        wall_narrowing_ok(w5, tmin),
        wall_narrowing_ok(w6, tmin),
    ensures
        wall_rel(tm1, box_fold(w1, w2, w3, w4, w5, w6, tmin, tm1), box_fold(w1, w2, w3, w4,
            w5, w6, tmin, tmax)),
        box_fold(w1, w2, w3, w4, w5, w6, tmin, tm1) matches Some(h) ==> tmin <= h.t <= tm1,
        box_fold(w1, w2, w3, w4, w5, w6, tmin, tmax) matches Some(h) ==> tmin <= h.t <= tmax,
{
    let n0: Option<HitRecord> = None;
    lemma_wall_step(w1, tmin, tm1, tmax, n0, n0);
    let bn1 = step_hit(n0, w1(cur_max(n0, tm1)));
    let bf1 = step_hit(n0, w1(cur_max(n0, tmax)));
    lemma_wall_step(w2, tmin, tm1, tmax, bn1, bf1);
    let bn2 = step_hit(bn1, w2(cur_max(bn1, tm1)));
    let bf2 = step_hit(bf1, w2(cur_max(bf1, tmax)));
    lemma_wall_step(w3, tmin, tm1, tmax, bn2, bf2);
    let bn3 = step_hit(bn2, w3(cur_max(bn2, tm1)));
    let bf3 = step_hit(bf2, w3(cur_max(bf2, tmax)));
    lemma_wall_step(w4, tmin, tm1, tmax, bn3, bf3);
    let bn4 = step_hit(bn3, w4(cur_max(bn3, tm1)));
    let bf4 = step_hit(bf3, w4(cur_max(bf3, tmax)));
    lemma_wall_step(w5, tmin, tm1, tmax, bn4, bf4);
    let bn5 = step_hit(bn4, w5(cur_max(bn4, tm1)));
    let bf5 = step_hit(bf4, w5(cur_max(bf4, tmax)));
    lemma_wall_step(w6, tmin, tm1, tmax, bn5, bf5);
}

/// An xy rectangle tester, flipped or not, obeys the narrowing discipline.
proof fn lemma_wall_ok_xy(rc: XYRect, r: Ray, tmin: int, flipped: bool)
    ensures
        !flipped ==> wall_narrowing_ok(|x: int| xy_rect_hit_spec(rc, r, tmin, x), tmin),
        flipped ==> wall_narrowing_ok(|x: int| flip_rec(xy_rect_hit_spec(rc, r, tmin, x)),
            tmin),
{
    assert forall|x: int, y: int| #![trigger xy_rect_hit_spec(rc, r, tmin, x), xy_rect_hit_spec(rc, r, tmin, y)] x <= y implies (match xy_rect_hit_spec(rc, r, tmin, x) {
        Some(h) => xy_rect_hit_spec(rc, r, tmin, y) == Some(h),
        None => xy_rect_hit_spec(rc, r, tmin, y) is None || (xy_rect_hit_spec(rc, r, tmin, y)
            matches Some(g) && g.t >= x),
    }) by {
        lemma_rect_narrowing(rc.x0 as int, rc.x1 as int, rc.y0 as int, rc.y1 as int,
            rc.k as int, rc.mat, r.o.x as int, r.o.y as int, r.o.z as int, r.d.x as int,
            r.d.y as int, r.d.z as int, r.time as int, tmin, x, y);
    }
    assert forall|x: int| #![trigger xy_rect_hit_spec(rc, r, tmin, x)] (xy_rect_hit_spec(rc, r, tmin, x) matches Some(h) ==> tmin <= h.t
        <= x) by {
        lemma_rect_narrowing(rc.x0 as int, rc.x1 as int, rc.y0 as int, rc.y1 as int,
            rc.k as int, rc.mat, r.o.x as int, r.o.y as int, r.o.z as int, r.d.x as int,
            r.d.y as int, r.d.z as int, r.time as int, tmin, x, x);
    }
}

/// An xz rectangle tester, flipped or not, obeys the narrowing discipline.
proof fn lemma_wall_ok_xz(rc: XZRect, r: Ray, tmin: int, flipped: bool)
    ensures
        !flipped ==> wall_narrowing_ok(|x: int| xz_rect_hit_spec(rc, r, tmin, x), tmin),
        flipped ==> wall_narrowing_ok(|x: int| flip_rec(xz_rect_hit_spec(rc, r, tmin, x)),
            tmin),
{
    assert forall|x: int, y: int| #![trigger xz_rect_hit_spec(rc, r, tmin, x), xz_rect_hit_spec(rc, r, tmin, y)] x <= y implies (match xz_rect_hit_spec(rc, r, tmin, x) {
        Some(h) => xz_rect_hit_spec(rc, r, tmin, y) == Some(h),
        None => xz_rect_hit_spec(rc, r, tmin, y) is None || (xz_rect_hit_spec(rc, r, tmin, y)
            matches Some(g) && g.t >= x),
    }) by {
        lemma_rect_narrowing(rc.x0 as int, rc.x1 as int, rc.z0 as int, rc.z1 as int,
            rc.k as int, rc.mat, r.o.x as int, r.o.z as int, r.o.y as int, r.d.x as int,
            r.d.z as int, r.d.y as int, r.time as int, tmin, x, y);
    }
    assert forall|x: int| #![trigger xz_rect_hit_spec(rc, r, tmin, x)] (xz_rect_hit_spec(rc, r, tmin, x) matches Some(h) ==> tmin <= h.t
        <= x) by {
        lemma_rect_narrowing(rc.x0 as int, rc.x1 as int, rc.z0 as int, rc.z1 as int,
            rc.k as int, rc.mat, r.o.x as int, r.o.z as int, r.o.y as int, r.d.x as int,
            r.d.z as int, r.d.y as int, r.time as int, tmin, x, x);
    }
}

/// A yz rectangle tester, flipped or not, obeys the narrowing discipline.
proof fn lemma_wall_ok_yz(rc: YZRect, r: Ray, tmin: int, flipped: bool)
    ensures
        !flipped ==> wall_narrowing_ok(|x: int| yz_rect_hit_spec(rc, r, tmin, x), tmin),
        flipped ==> wall_narrowing_ok(|x: int| flip_rec(yz_rect_hit_spec(rc, r, tmin, x)),
            tmin),
{
    assert forall|x: int, y: int| #![trigger yz_rect_hit_spec(rc, r, tmin, x), yz_rect_hit_spec(rc, r, tmin, y)] x <= y implies (match yz_rect_hit_spec(rc, r, tmin, x) {
        Some(h) => yz_rect_hit_spec(rc, r, tmin, y) == Some(h),
        None => yz_rect_hit_spec(rc, r, tmin, y) is None || (yz_rect_hit_spec(rc, r, tmin, y)
            matches Some(g) && g.t >= x),
    }) by {
        lemma_rect_narrowing(rc.y0 as int, rc.y1 as int, rc.z0 as int, rc.z1 as int,
            rc.k as int, rc.mat, r.o.y as int, r.o.z as int, r.o.x as int, r.d.y as int,
            r.d.z as int, r.d.x as int, r.time as int, tmin, x, y);
    }
    assert forall|x: int| #![trigger yz_rect_hit_spec(rc, r, tmin, x)] (yz_rect_hit_spec(rc, r, tmin, x) matches Some(h) ==> tmin <= h.t
        <= x) by {
        lemma_rect_narrowing(rc.y0 as int, rc.y1 as int, rc.z0 as int, rc.z1 as int,
            rc.k as int, rc.mat, r.o.y as int, r.o.z as int, r.o.x as int, r.d.y as int,
            r.d.z as int, r.d.x as int, r.time as int, tmin, x, x);
    }
}

/// One step of the linear scan: testing the next primitive against the
/// best parameter so far extends a nearest hit of the prefix to a nearest
/// hit of the prefix including it.
#[verifier::rlimit(80)]
#[verifier::spinoff_prover]
proof fn lemma_scan_step(s: Seq<Hitable>, r: Ray, tmin: int, tmax: int, i: int, best: Option<
    HitRecord>, cand: Option<HitRecord>)
    requires
        0 <= i < s.len(),
        hitable_wf(s[i]),
        crate::tracer::bvh::is_nearest_hit(s.take(i), r, tmin, tmax, best),
        best matches Some(b) ==> tmin <= b.t <= tmax,
        cand == hitable_hit_spec(s[i], r, tmin, cur_max(best, tmax)),
    ensures
        crate::tracer::bvh::is_nearest_hit(s.take(i + 1), r, tmin, tmax, step_hit(best,
            cand)),
        step_hit(best, cand) matches Some(b2) ==> tmin <= b2.t <= tmax,
{
    let cur = cur_max(best, tmax);
    assert(cur <= tmax);
    lemma_hit_narrowing(s[i], r, tmin, cur, tmax);
    // the bound of the candidate itself: its parameter stays within the
    // narrowed range
    lemma_hit_narrowing(s[i], r, tmin, cur, cur);
    assert(cand matches Some(h) ==> tmin <= h.t <= cur);
    let full_i = hitable_hit_spec(s[i], r, tmin, tmax);
    let newb = step_hit(best, cand);
    assert(s.take(i + 1).drop_last() =~= s.take(i));
    assert(s.take(i + 1).last() == s[i]);
    assert forall|j: int| 0 <= j < i + 1 implies ((#[trigger] hitable_hit_spec(s.take(i
        + 1)[j], r, tmin, tmax)) matches Some(g) ==> g.t >= crate::tracer::bvh::cur_best_t(
        newb)) by {
        assert(s.take(i + 1)[j] == s[j]);
        if j < i {
            assert(s.take(i)[j] == s[j]);
            assert(hitable_hit_spec(s.take(i)[j], r, tmin, tmax) == hitable_hit_spec(
                s.take(i + 1)[j], r, tmin, tmax));
        }
    }
    match newb {
        Some(b) => {
            if cand == Some(b) {
                assert(full_i == Some(b));
                assert(s.take(i + 1)[i] == s[i]);
            } else {
                let jj = choose|jj: int| 0 <= jj < i && hitable_hit_spec(s.take(i)[jj], r,
                    tmin, tmax) == Some(b);
                assert(s.take(i + 1)[jj] == s.take(i)[jj]);
                assert(hitable_hit_spec(s.take(i + 1)[jj], r, tmin, tmax) == Some(b));
            }
        },
        None => {
            assert forall|j: int| 0 <= j < i + 1 implies (#[trigger] hitable_hit_spec(s.take(i
                + 1)[j], r, tmin, tmax)) is None by {
                assert(s.take(i + 1)[j] == s[j]);
                if j < i {
                    assert(s.take(i)[j] == s[j]);
                    assert(hitable_hit_spec(s.take(i)[j], r, tmin, tmax) == hitable_hit_spec(
                        s.take(i + 1)[j], r, tmin, tmax));
                }
            }
        },
    }
}

} // verus!
