use vstd::prelude::*;
use crate::geometry::numeric::{fx_mul, fx_div, fx_mul_spec, fx_div_spec, sin_fx, cos_fx,
    sin_fx_spec, cos_fx_spec, sat_add, sat_sub, tz, SCALE, PI_FX};
use crate::geometry::vector::{Vec3, v3_add, v3_sub, v3_scale, v3_div, cross_spec, sadd,
    length2_spec, length_spec, cross, normalize};
use crate::geometry::ray::Ray;
use crate::common::random::{random_in_unit_disk, rand_fixed};

verus! {

/// The camera: an origin, an image-plane frame, a lens radius for depth of
/// field, and the shutter interval rays sample their time from.
#[derive(Clone, Copy, PartialEq, Eq, Structural, Debug)]
pub struct Camera {
    pub origin: Vec3,
    pub lower_left_corner: Vec3,
    pub horizontal: Vec3,
    pub vertical: Vec3,
    pub u: Vec3,
    pub v: Vec3,
    pub lens_radius: i64,
    pub time0: i64,
    pub time1: i64,
}

/// Scaling by zero gives zero, also after the fixed-point rescale.
proof fn lemma_fx_mul_zero(a: int)
    ensures
        fx_mul_spec(a, 0) == 0,
{
    assert(a * 0 == 0);
    assert(tz(0, SCALE as int) == 0);
}

/// Normalize, falling back to the given axis for a vector too short to
/// scale, so a degenerate viewing frame yields a default frame rather
/// than a division by zero.
pub open spec fn safe_unit_spec(a: Vec3, fallback: Vec3) -> Vec3 {
    if length2_spec(a) >= 1 {
        v3_div(a, length_spec(a))
    } else {
        fallback
    }
}

fn safe_unit(a: Vec3, fallback: Vec3) -> (r: Vec3)
    ensures
        r == safe_unit_spec(a, fallback),
{
    if a.length2() >= 1 {
        normalize(a)
    } else {
        fallback
    }
}

/// What `build` computes, step for step: the viewing basis from look-from,
/// look-at and up; the image plane from the field of view, aspect ratio
/// and focus distance; the lens radius as half the aperture.
pub open spec fn camera_build_spec(look_from: Vec3, look_at: Vec3, v_up: Vec3, v_fov: int,
    aspect: int, aperture: int, focus_dist: int, time0: i64, time1: i64) -> Camera {
    let theta = tz(fx_mul_spec(v_fov, PI_FX as int), 180);
    let half_theta = tz(theta, 2);
    let c = cos_fx_spec(half_theta);
    let half_height = if c != 0 {
        fx_div_spec(sin_fx_spec(half_theta), c)
    } else {
        i64::MAX as int
    };
    let half_width = fx_mul_spec(aspect, half_height);
    let w = safe_unit_spec(v3_sub(look_from, look_at), Vec3 { x: 0, y: 0, z: SCALE });
    let u = safe_unit_spec(cross_spec(v_up, w), Vec3 { x: SCALE, y: 0, z: 0 });
    let v = cross_spec(w, u);
    let hwd = fx_mul_spec(half_width, focus_dist);
    let hhd = fx_mul_spec(half_height, focus_dist);
    Camera {
        origin: look_from,
        u,
        v,
        lens_radius: tz(aperture, 2) as i64,
        lower_left_corner: v3_sub(
            v3_sub(v3_sub(look_from, v3_scale(u, hwd)), v3_scale(v, hhd)),
            v3_scale(w, focus_dist),
        ),
        horizontal: v3_scale(u, fx_mul_spec(2 * SCALE as int, hwd)),
        vertical: v3_scale(v, fx_mul_spec(2 * SCALE as int, hhd)),
        time0,
        time1,
    }
}

/// The ray that the camera emits for image coordinates `(s, t)`, a lens
/// sample `q` and a shutter draw `tv`.
pub open spec fn camera_ray_spec(c: Camera, s: int, t: int, q: Vec3, tv: int) -> Ray {
    let rd = v3_scale(q, c.lens_radius as int);
    let offset = v3_add(v3_scale(c.u, rd.x as int), v3_scale(c.v, rd.y as int));
    let time = sadd(c.time0 as int, fx_mul_spec(sadd(c.time1 as int, -(c.time0 as int)), tv));
    Ray {
        o: v3_add(c.origin, offset),
        d: v3_sub(
            v3_sub(
                v3_add(v3_add(c.lower_left_corner, v3_scale(c.horizontal, s)),
                    v3_scale(c.vertical, t)),
                c.origin,
            ),
            offset,
        ),
        time: time as i64,
    }
}

impl Camera {
    /// A default camera: a thin lens aimed at the cluster of spheres of
    /// the classic sample scene.
    pub fn new() -> (r: Camera)
        ensures
            r.lens_radius == tz(30_000, 2),
    {
        let lookfrom = Vec3::new(12_000_000, 1_200_000, 4_000_000);
        let lookat = Vec3::new(2_000_000, 1_000_000, 0);
        let dist_to_focus = lookfrom.sub(lookat).length();
        let aperture: i64 = 30_000;
        Camera::build(lookfrom, lookat, Vec3::new(0, SCALE, 0), 30_000_000, SCALE, aperture,
            dist_to_focus, 0, SCALE)
    }

    /// Derive the viewing frame and image plane from the configuration.
    pub fn build(look_from: Vec3, look_at: Vec3, v_up: Vec3, v_fov: i64, aspect: i64,
        aperture: i64, focus_dist: i64, time0: i64, time1: i64) -> (r: Camera)
        ensures
            r == camera_build_spec(look_from, look_at, v_up, v_fov as int, aspect as int,
                aperture as int, focus_dist as int, time0, time1),
            r.origin == look_from,
            r.lens_radius == tz(aperture as int, 2),
    {
        let lens_radius = aperture / 2;
        let theta = fx_mul(v_fov, PI_FX) / 180;
        let half_theta = theta / 2;
        let c = cos_fx(half_theta);
        let half_height = if c != 0 {
            fx_div(sin_fx(half_theta), c)
        } else {
            i64::MAX
        };
        let half_width = fx_mul(aspect, half_height);
        let origin = look_from;
        let w = safe_unit(look_from.sub(look_at), Vec3::new(0, 0, SCALE));
        let u = safe_unit(cross(&v_up, &w), Vec3::new(SCALE, 0, 0));
        let v = cross(&w, &u);
        let hwd = fx_mul(half_width, focus_dist);
        let hhd = fx_mul(half_height, focus_dist);
        Camera {
            origin,
            u,
            v,
            lens_radius,
            lower_left_corner: origin.sub(u.scale(hwd)).sub(v.scale(hhd)).sub(
                w.scale(focus_dist)),
            horizontal: u.scale(fx_mul(2 * SCALE, hwd)),
            vertical: v.scale(fx_mul(2 * SCALE, hhd)),
            time0,
            time1,
        }
    }

    /// Emit a sampled ray for normalized image coordinates `(s, t)`: the
    /// origin is offset by a random point on the lens disk and the time is
    /// drawn uniformly from the shutter interval.  With a zero lens radius
    /// the camera is a pinhole: the ray starts exactly at the origin.
    pub fn ray(&self, s: i64, t: i64) -> (r: Ray)
        ensures
            exists|q: Vec3, tv: int| (length2_spec(q) < SCALE && q.z == 0 && 0 <= tv < SCALE)
                && r == camera_ray_spec(*self, s as int, t as int, q, tv),
            self.lens_radius == 0 ==> r.o == self.origin,
    {
        let q = random_in_unit_disk();
        let rd = q.scale(self.lens_radius);
        let offset = self.u.scale(rd.x).add(self.v.scale(rd.y));
        let tv = rand_fixed();
        let time = sat_add(self.time0, fx_mul(sat_sub(self.time1, self.time0), tv));
        let r = Ray::new(
            self.origin.add(offset),
            self.lower_left_corner.add(self.horizontal.scale(s)).add(self.vertical.scale(
                t)).sub(self.origin).sub(offset),
            time,
        );
        proof {
            assert(r == camera_ray_spec(*self, s as int, t as int, q, tv as int));
            if self.lens_radius == 0 {
                lemma_fx_mul_zero(q.x as int);
                lemma_fx_mul_zero(q.y as int);
                lemma_fx_mul_zero(q.z as int);
                assert(rd == (Vec3 { x: 0, y: 0, z: 0 }));
                lemma_fx_mul_zero(self.u.x as int);
                lemma_fx_mul_zero(self.u.y as int);
                lemma_fx_mul_zero(self.u.z as int);
                lemma_fx_mul_zero(self.v.x as int);
                lemma_fx_mul_zero(self.v.y as int);
                lemma_fx_mul_zero(self.v.z as int);
                assert(offset == (Vec3 { x: 0, y: 0, z: 0 }));
                assert(r.o == self.origin);
            }
        }
        r
    }
}

} // verus!
