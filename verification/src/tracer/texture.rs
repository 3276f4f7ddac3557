use vstd::prelude::*;
use crate::geometry::numeric::{fx_mul, fx_mul_spec, sin_fx, sin_fx_spec, sat_add,
    SCALE};
use crate::geometry::vector::{Vec3, sadd, v3_scale};
use crate::common::random::{Perlin, perlin_wf, turb_spec};

verus! {

/// A texture that returns one fixed color everywhere.
#[derive(Clone, Copy, PartialEq, Eq, Structural, Debug)]
pub struct ConstantTexture {
    pub color: Vec3,
}

/// A three-dimensional checker: the sign of `sin(10x) sin(10y) sin(10z)`
/// picks one of two sub-textures, named by their indices in the arena.
#[derive(Clone, Copy, PartialEq, Eq, Structural, Debug)]
pub struct CheckerTexture {
    pub odd: Option<usize>,
    pub even: Option<usize>,
}

/// A marbled texture driven by turbulence; `noise` names a table set in
/// the scene's arena, so any number of textures can share one.
#[derive(Clone, Copy, PartialEq, Eq, Structural, Debug)]
pub struct NoiseTexture {
    pub noise: Option<usize>,
    pub scale: i64,
}

/// The closed set of textures.
#[derive(Clone, Copy, PartialEq, Eq, Structural, Debug)]
pub enum Texture {
    Constant(ConstantTexture),
    Checker(CheckerTexture),
    Noise(NoiseTexture),
}

/// A texture arena is sound when a checker's sub-textures name strictly
/// earlier entries (so evaluation terminates) and a noise texture names an
/// actual table set.
pub open spec fn texture_wf(t: Texture, i: int, perlins: Seq<Perlin>) -> bool {
    match t {
        Texture::Constant(c) => true,
        Texture::Checker(ck) => (ck.odd matches Some(o) && o < i) && (ck.even matches Some(e)
            && e < i),
        Texture::Noise(nt) => (nt.noise matches Some(n) && n < perlins.len() && perlin_wf(
            perlins[n as int])),
    }
}

pub open spec fn textures_wf(ts: Seq<Texture>, perlins: Seq<Perlin>) -> bool {
    forall|i: int| 0 <= i < ts.len() ==> texture_wf(#[trigger] ts[i], i, perlins)
}

/// The checker's sign term `sin(10x) sin(10y) sin(10z)`.
pub open spec fn checker_sines_spec(p: Vec3) -> int {
    fx_mul_spec(
        fx_mul_spec(
            sin_fx_spec(fx_mul_spec(10 * SCALE as int, p.x as int)),
            sin_fx_spec(fx_mul_spec(10 * SCALE as int, p.y as int)),
        ),
        sin_fx_spec(fx_mul_spec(10 * SCALE as int, p.z as int)),
    )
}

/// The marble value `0.5 * (1 + sin(scale * z + 10 * turb(scale * p, 7)))`
/// spread over the white color.
pub open spec fn noise_value_spec(nt: NoiseTexture, p: Vec3, perlins: Seq<Perlin>) -> Vec3 {
    let pl = perlins[nt.noise->0 as int];
    let tb = turb_spec(pl, v3_scale(p, nt.scale as int), 7);
    let arg = sadd(fx_mul_spec(nt.scale as int, p.z as int), fx_mul_spec(10 * SCALE as int,
        tb));
    let s = fx_mul_spec(500_000, sadd(SCALE as int, sin_fx_spec(arg)));
    v3_scale(Vec3 { x: SCALE, y: SCALE, z: SCALE }, s)
}

/// What the texture named `ti` answers for `(u, v, p)`.
pub open spec fn texture_value_spec(ts: Seq<Texture>, perlins: Seq<Perlin>, ti: int, u: int,
    v: int, p: Vec3) -> Vec3
    decreases ti,
{
    match ts[ti] {
        Texture::Constant(c) => c.color,
        Texture::Checker(ck) => {
            let next = if checker_sines_spec(p) < 0 {
                ck.odd->0 as int
            } else {
                ck.even->0 as int
            };
            // a sound arena names strictly earlier entries, so this guard
            // is never taken there
            if 0 <= next < ti {
                texture_value_spec(ts, perlins, next, u, v, p)
            } else {
                Vec3 { x: 0, y: 0, z: 0 }
            }
        },
        Texture::Noise(nt) => noise_value_spec(nt, p, perlins),
    }
}

/// Evaluate the texture named `ti` of the arena at `(u, v, p)`.
pub fn texture_value(ts: &Vec<Texture>, perlins: &Vec<Perlin>, ti: usize, u: i64, v: i64,
    p: &Vec3) -> (r: Vec3)
    requires
        textures_wf(ts@, perlins@),
        ti < ts@.len(),
    ensures
        r == texture_value_spec(ts@, perlins@, ti as int, u as int, v as int, *p),
    decreases ti,
{
    let t = ts[ti];
    match t {
        Texture::Constant(c) => c.color,
        Texture::Checker(ck) => {
            let sx = sin_fx(fx_mul(10 * SCALE, p.x));
            let sy = sin_fx(fx_mul(10 * SCALE, p.y));
            let sz = sin_fx(fx_mul(10 * SCALE, p.z));
            let sines = fx_mul(fx_mul(sx, sy), sz);
            if sines < 0 {
                let o = match ck.odd {
                    Some(o) => o,
                    None => {
                        proof {
                            assert(false);
                        }
                        0
                    },
                };
                texture_value(ts, perlins, o, u, v, p)
            } else {
                let e = match ck.even {
                    Some(e) => e,
                    None => {
                        proof {
                            assert(false);
                        }
                        0
                    },
                };
                texture_value(ts, perlins, e, u, v, p)
            }
        },
        Texture::Noise(nt) => {
            let n = match nt.noise {
                Some(n) => n,
                None => {
                    proof {
                        assert(false);
                    }
                    0
                },
            };
            let pl = &perlins[n];
            let tb = pl.turb(p.scale(nt.scale), 7);
            let arg = sat_add(fx_mul(nt.scale, p.z), fx_mul(10 * SCALE, tb));
            let s = fx_mul(500_000, sat_add(SCALE, sin_fx(arg)));
            Vec3::new(SCALE, SCALE, SCALE).scale(s)
        },
    }
}

} // verus!
