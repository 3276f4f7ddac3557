use vstd::prelude::*;
use crate::geometry::numeric::{fx_mul, fx_div, fx_mul_spec, fx_div_spec, sat_add, sat_sub,
    SCALE};
use crate::geometry::vector::{Vec3, v3_add, v3_sub, v3_neg, v3_scale, dot_spec, sadd,
    length2_spec, length_spec, dot, reflect, reflect_spec, refract, refract_spec, normalize,
    v3_div};
use crate::geometry::ray::Ray;
use crate::tracer::hitable::HitRecord;
use crate::tracer::texture::{Texture, textures_wf, texture_value, texture_value_spec};
use crate::common::random::{Perlin, random_in_unit_sphere, rand_fixed};

verus! {

/// A diffuse material; `albedo` names its texture in the scene's arena.
#[derive(Clone, Copy, PartialEq, Eq, Structural, Debug)]
pub struct Lambertian {
    pub albedo: Option<usize>,
}

impl Lambertian {
    pub fn new(albedo: Option<usize>) -> (r: Self)
        ensures
            r == (Lambertian { albedo }),
    {
        Self { albedo }
    }
}

/// A specular material with a fuzz radius in `[0, 1]`.
#[derive(Clone, Copy, PartialEq, Eq, Structural, Debug)]
pub struct Metal {
    pub albedo: Vec3,
    pub fuzz: i64,
}

impl Metal {
    /// A fuzz of one or more is clamped to one.
    pub fn new(albedo: Vec3, fuzz: i64) -> (r: Self)
        ensures
            r == (Metal { albedo, fuzz: if fuzz < SCALE { fuzz } else { SCALE as i64 } }),
    {
        let f = if fuzz < SCALE {
            fuzz
        } else {
            SCALE
        };
        Self { albedo, fuzz: f }
    }
}

/// A clear refractive material with the given index of refraction.
#[derive(Clone, Copy, PartialEq, Eq, Structural, Debug)]
pub struct Dielectric {
    pub ref_idx: i64,
}

impl Dielectric {
    pub fn new(ref_idx: i64) -> (r: Self)
        ensures
            r == (Dielectric { ref_idx }),
    {
        Self { ref_idx }
    }
}

/// An emissive material that never scatters; `emit` names its texture.
#[derive(Clone, Copy, PartialEq, Eq, Structural, Debug)]
pub struct DiffuseLight {
    pub emit: Option<usize>,
}

/// The closed set of materials.
#[derive(Clone, Copy, PartialEq, Eq, Structural, Debug)]
pub enum Material {
    Lambertian(Lambertian),
    Metal(Metal),
    Dielectric(Dielectric),
    DiffuseLight(DiffuseLight),
}

/// A material is sound when the texture it names exists and the dielectric
/// index is positive.
pub open spec fn material_wf(m: Material, n_textures: int) -> bool {
    match m {
        Material::Lambertian(l) => l.albedo matches Some(a) && a < n_textures,
        Material::Metal(mt) => true,
        Material::Dielectric(d) => d.ref_idx > 0,
        Material::DiffuseLight(dl) => dl.emit matches Some(e) && e < n_textures,
    }
}

/// Schlick's approximation of the Fresnel reflectance:
/// `r0 + (1 - r0) (1 - cosine)^5` with `r0 = ((1-n)/(1+n))^2`.
pub open spec fn schlick_spec(cosine: int, ref_idx: int) -> int {
    let r0 = fx_mul_spec(
        fx_div_spec(sadd(SCALE as int, -ref_idx), sadd(SCALE as int, ref_idx)),
        fx_div_spec(sadd(SCALE as int, -ref_idx), sadd(SCALE as int, ref_idx)),
    );
    let omc = sadd(SCALE as int, -cosine);
    let p5 = fx_mul_spec(fx_mul_spec(fx_mul_spec(fx_mul_spec(omc, omc), omc), omc), omc);
    sadd(r0, fx_mul_spec(sadd(SCALE as int, -r0), p5))
}

/// Schlick's approximation of the Fresnel reflectance.
pub fn schlick(cosine: i64, ref_idx: i64) -> (r: i64)
    requires
        ref_idx > 0,
    ensures
        r == schlick_spec(cosine as int, ref_idx as int),
{
    let q = fx_div(sat_sub(SCALE, ref_idx), sat_add(SCALE, ref_idx));
    let r0 = fx_mul(q, q);
    let omc = sat_sub(SCALE, cosine);
    let p5 = fx_mul(fx_mul(fx_mul(fx_mul(omc, omc), omc), omc), omc);
    sat_add(r0, fx_mul(sat_sub(SCALE, r0), p5))
}

/// At normal incidence the `(1 - cosine)` term vanishes, so the
/// reflectance is exactly `((1-n)/(1+n))^2`, which equals `((n-1)/(n+1))^2`.
pub proof fn lemma_schlick_normal_incidence(ref_idx: int)
    requires
        0 < ref_idx < i64::MAX,
    ensures
        schlick_spec(SCALE as int, ref_idx) == fx_mul_spec(
            fx_div_spec(sadd(SCALE as int, -ref_idx), sadd(SCALE as int, ref_idx)),
            fx_div_spec(sadd(SCALE as int, -ref_idx), sadd(SCALE as int, ref_idx)),
        ),
{
    let r0 = fx_mul_spec(
        fx_div_spec(sadd(SCALE as int, -ref_idx), sadd(SCALE as int, ref_idx)),
        fx_div_spec(sadd(SCALE as int, -ref_idx), sadd(SCALE as int, ref_idx)),
    );
    assert(sadd(SCALE as int, -(SCALE as int)) == 0);
    assert(fx_mul_spec(0, 0) == 0);
    assert(fx_mul_spec(fx_mul_spec(fx_mul_spec(fx_mul_spec(0, 0), 0), 0), 0) == 0);
    assert(fx_mul_spec(sadd(SCALE as int, -r0), 0) == 0) by {
        assert(sadd(SCALE as int, -r0) * 0 == 0);
    }
    assert(-0x8000_0000_0000_0000 <= r0 <= 0x7FFF_FFFF_FFFF_FFFF);
    assert(sadd(r0, 0) == r0);
}

/// The direction a dielectric scatters toward, once the uniform draw `rv`
/// is fixed: refraction by Snell's law where it is possible and the draw
/// exceeds the reflectance, else mirror reflection.
pub open spec fn dielectric_dir_spec(d: Dielectric, r_in: Ray, rec: HitRecord, rv: int) -> Vec3 {
    let reflected = reflect_spec(r_in.d, rec.normal);
    let dn = dot_spec(r_in.d, rec.normal);
    let outward = if dn > 0 {
        v3_neg(rec.normal)
    } else {
        rec.normal
    };
    let ni_over_nt = if dn > 0 {
        d.ref_idx as int
    } else {
        fx_div_spec(SCALE as int, d.ref_idx as int)
    };
    let cosine = if dn > 0 {
        fx_mul_spec(d.ref_idx as int, fx_div_spec(dn, length_spec(r_in.d)))
    } else {
        crate::geometry::numeric::sat64(-fx_div_spec(dn, length_spec(r_in.d)))
    };
    match refract_spec(r_in.d, outward, ni_over_nt) {
        Some(refracted) => if rv < schlick_spec(cosine, d.ref_idx as int) {
            reflected
        } else {
            refracted
        },
        None => reflected,
    }
}

/// The direction a metal scatters toward for a fuzz sample `q`: the
/// mirrored unit incoming direction, perturbed by `q` scaled by the fuzz.
pub open spec fn metal_dir_spec(mt: Metal, r_in: Ray, rec: HitRecord, q: Vec3) -> Vec3 {
    v3_add(reflect_spec(v3_div(r_in.d, length_spec(r_in.d)), rec.normal), v3_scale(q,
        mt.fuzz as int))
}

/// What a metal's scatter reports once the fuzz sample `q` is fixed: the
/// perturbed reflection, kept only when it leaves the surface.
pub open spec fn metal_scatter_ok(mt: Metal, r_in: Ray, rec: HitRecord, q: Vec3, res: Option<
    (Vec3, Ray)>) -> bool {
    let dir = metal_dir_spec(mt, r_in, rec, q);
    if dot_spec(dir, rec.normal) > 0 {
        res == Some((mt.albedo, Ray { o: rec.p, d: dir, time: r_in.time }))
    } else {
        res is None
    }
}

/// What a material's emission is at a point: only the diffuse light emits.
pub open spec fn emitted_spec(m: Material, ts: Seq<Texture>, perlins: Seq<Perlin>, u: int,
    v: int, p: Vec3) -> Vec3 {
    match m {
        Material::DiffuseLight(dl) => texture_value_spec(ts, perlins, dl.emit->0 as int, u, v,
            p),
        _ => Vec3 { x: 0, y: 0, z: 0 },
    }
}

impl Material {
    /// The emitted radiance at texture coordinates `(u, v)` and point `p`.
    pub fn emitted(&self, u: i64, v: i64, p: &Vec3, ts: &Vec<Texture>, perlins: &Vec<
        Perlin>) -> (r: Vec3)
        requires
            textures_wf(ts@, perlins@),
            material_wf(*self, ts@.len() as int),
        ensures
            r == emitted_spec(*self, ts@, perlins@, u as int, v as int, *p),
    {
        match self {
            Material::DiffuseLight(dl) => {
                let e = match dl.emit {
                    Some(e) => e,
                    None => {
                        proof {
                            assert(false);
                        }
                        0
                    },
                };
                texture_value(ts, perlins, e, u, v, p)
            },
            _ => Vec3::new(0, 0, 0),
        }
    }

    /// Scatter the incoming ray at a hit: the result is the attenuation
    /// and the scattered ray, or nothing where the ray is absorbed.
    /// Scattered rays always start at the hit point and carry the incoming
    /// ray's time; the random part of each rule is named by an existential
    /// witness.
    pub fn scatter(&self, r_in: &Ray, rec: &HitRecord, ts: &Vec<Texture>, perlins: &Vec<
        Perlin>) -> (res: Option<(Vec3, Ray)>)
        requires
            textures_wf(ts@, perlins@),
            material_wf(*self, ts@.len() as int),
        ensures
            *self matches Material::Lambertian(l) ==> res matches Some(ar) && (exists|q: Vec3|
                length2_spec(q) < SCALE && ar == (
                (texture_value_spec(ts@, perlins@, l.albedo->0 as int, 0, 0, rec.p), Ray {
                    o: rec.p,
                    d: v3_sub(v3_add(v3_add(rec.p, rec.normal), q), rec.p),
                    time: r_in.time,
                }))),
            *self matches Material::Metal(mt) ==> (length2_spec(r_in.d) < 1 ==> res is None),
            *self matches Material::Metal(mt) ==> (length2_spec(r_in.d) >= 1 ==> (exists|
                q: Vec3| length2_spec(q) < SCALE && metal_scatter_ok(mt, *r_in, *rec, q,
                res))),
            *self matches Material::Dielectric(d) ==> (length2_spec(r_in.d) < 1 ==> res
                is None),
            *self matches Material::Dielectric(d) ==> (length2_spec(r_in.d) >= 1 ==> (res
                matches Some(ar) && (exists|rv: int|
                0 <= rv < SCALE && ar == (
                (Vec3 { x: SCALE, y: SCALE, z: SCALE }, Ray {
                    o: rec.p,
                    d: dielectric_dir_spec(d, *r_in, *rec, rv),
                    time: r_in.time,
                }))))),
            *self matches Material::DiffuseLight(dl) ==> res is None,
    {
        match self {
            Material::Lambertian(l) => {
                let a = match l.albedo {
                    Some(a) => a,
                    None => {
                        proof {
                            assert(false);
                        }
                        0
                    },
                };
                let q = random_in_unit_sphere();
                let target = rec.p.add(rec.normal).add(q);
                let scattered = Ray::new(rec.p, target.sub(rec.p), r_in.time);
                let attenuation = texture_value(ts, perlins, a, 0, 0, &rec.p);
                Some((attenuation, scattered))
            },
            Material::Metal(mt) => {
                if r_in.d.length2() < 1 {
                    // a degenerate incoming direction cannot be normalized;
                    // treat it as absorbed
                    return None;
                }
                let v = normalize(r_in.d);
                let reflected = reflect(&v, &rec.normal);
                let q = random_in_unit_sphere();
                let dir = reflected.add(q.scale(mt.fuzz));
                let scattered = Ray::new(rec.p, dir, r_in.time);
                let res: Option<(Vec3, Ray)> = if dot(&scattered.d, &rec.normal) > 0 {
                    Some((mt.albedo, scattered))
                } else {
                    None
                };
                proof {
                    assert(metal_scatter_ok(*mt, *r_in, *rec, q, res));
                }
                res
            },
            Material::Dielectric(d) => {
                if r_in.d.length2() < 1 {
                    // a degenerate incoming direction cannot be refracted;
                    // treat it as absorbed
                    return None;
                }
                let reflected = reflect(&r_in.d, &rec.normal);
                let dn = dot(&r_in.d, &rec.normal);
                let len = r_in.d.length();
                proof {
                    crate::geometry::vector::lemma_sqrt_val(length2_spec(r_in.d) * (
                    SCALE as int));
                    assert(length_spec(r_in.d) >= 1) by (nonlinear_arith)
                        requires
                            crate::geometry::numeric::isqrt_spec(length2_spec(r_in.d) * (
                            SCALE as int), length_spec(r_in.d)),
                            length2_spec(r_in.d) >= 1,
                            SCALE == 1_000_000,
                    ;
                }
                let (outward, ni_over_nt, cosine): (Vec3, i64, i64) = if dn > 0 {
                    (rec.normal.neg(), d.ref_idx, fx_mul(d.ref_idx, fx_div(dn, len)))
                } else {
                    (rec.normal, fx_div(SCALE, d.ref_idx),
                        crate::geometry::numeric::sat_neg(fx_div(dn, len)))
                };
                let mut refracted = Vec3::new(SCALE, 0, 0);
                let reflect_prob: i64 = if refract(&r_in.d, &outward, ni_over_nt,
                    &mut refracted) {
                    schlick(cosine, d.ref_idx)
                } else {
                    SCALE
                };
                let rv = rand_fixed();
                let dir = if rv < reflect_prob {
                    reflected
                } else {
                    refracted
                };
                proof {
                    if !(rv < reflect_prob) {
                        assert(refract_spec(r_in.d, outward, ni_over_nt as int) is Some);
                    }
                    assert(dir == dielectric_dir_spec(*d, *r_in, *rec, rv as int));
                }
                let scattered = Ray::new(rec.p, dir, r_in.time);
                Some((Vec3::new(SCALE, SCALE, SCALE), scattered))
            },
            Material::DiffuseLight(dl) => None,
        }
    }
}

} // verus!
