pub mod common;
pub mod geometry;
pub mod life;
pub mod tracer;

use vstd::prelude::*;
use crate::common::random::Perlin;
use crate::geometry::numeric::{fx_mul, fx_mul_spec, tz, SCALE};
use crate::geometry::ray::Ray;
use crate::geometry::vector::Vec3;
use crate::tracer::hitable::{HitList, list_wf, list_hit_spec, T_EPS};
use crate::tracer::materials::{Material, material_wf, emitted_spec};
use crate::tracer::texture::{Texture, textures_wf};

verus! {

/// The immutable part of a scene that primitives refer to by index: the
/// noise tables, the textures, and the materials.  It is built once before
/// rendering; textures and materials are shared by any number of owners
/// through their indices.
pub struct Scene {
    pub perlins: Vec<Perlin>,
    pub textures: Vec<Texture>,
    pub materials: Vec<Material>,
}

/// Every texture and material of the arena is sound.
pub open spec fn scene_wf(sc: Scene) -> bool {
    textures_wf(sc.textures@, sc.perlins@) && (forall|i: int| 0 <= i < sc.materials@.len()
        ==> material_wf(#[trigger] sc.materials@[i], sc.textures@.len() as int))
}

/// The recursion bound of the integrator.
pub const MAX_DEPTH: u32 = 50;

/// The recursive radiance of a ray: on a miss, or a hit without a usable
/// material, black; on a hit, the material's emission, plus, while the
/// depth bound allows and the material scatters, the attenuated radiance
/// of the scattered ray.  At the depth bound, and for a material that
/// never scatters, the result is exactly the emission.
pub fn color(r: &Ray, world: &HitList, scene: &Scene, depth: u32) -> (res: Vec3)
    requires
        list_wf(world.list@),
        scene_wf(*scene),
    ensures
        ({
            let h = list_hit_spec(world.list@, *r, T_EPS as int, i64::MAX as int);
            match h {
                None => res == (Vec3 { x: 0, y: 0, z: 0 }),
                Some(rec) => match rec.mat {
                    None => res == (Vec3 { x: 0, y: 0, z: 0 }),
                    Some(m) => if m < scene.materials@.len() {
                        let em = emitted_spec(scene.materials@[m as int], scene.textures@,
                            scene.perlins@, rec.u as int, rec.v as int, rec.p);
                        &&& depth >= MAX_DEPTH ==> res == em
                        &&& scene.materials@[m as int] matches Material::DiffuseLight(_)
                            ==> res == em
                    } else {
                        res == (Vec3 { x: 0, y: 0, z: 0 })
                    },
                },
            }
        }),
    decreases MAX_DEPTH - depth,
{
    match world.hit(r, T_EPS, i64::MAX) {
        None => Vec3::new(0, 0, 0),
        Some(rec) => match rec.mat {
            None => Vec3::new(0, 0, 0),
            Some(m) => {
                if m >= scene.materials.len() {
                    // a record built from this arena always names a
                    // material inside it
                    return Vec3::new(0, 0, 0);
                }
                let mat = scene.materials[m];
                let emitted = mat.emitted(rec.u, rec.v, &rec.p, &scene.textures,
                    &scene.perlins);
                if depth < MAX_DEPTH {
                    match mat.scatter(r, &rec, &scene.textures, &scene.perlins) {
                        Some((attenuation, scattered)) => emitted.add(attenuation.mul(
                            color(&scattered, world, scene, depth + 1))),
                        None => emitted,
                    }
                } else {
                    emitted
                }
            },
        },
    }
}

/// The channel scaling of the plain-text image stream: a color channel in
/// `[0, 1]` becomes the integer part of `255.99` times it.
pub open spec fn channel_spec(c: int) -> int {
    tz(fx_mul_spec(255_990_000, c), SCALE as int)
}

/// Turn an averaged color into the three integers of one image row entry.
pub fn to_rgb(col: &Vec3) -> (r: (i64, i64, i64))
    ensures
        r.0 == channel_spec(col.x as int),
        r.1 == channel_spec(col.y as int),
        r.2 == channel_spec(col.z as int),
{
    let ir = fx_mul(255_990_000, col.x) / SCALE;
    let ig = fx_mul(255_990_000, col.y) / SCALE;
    let ib = fx_mul(255_990_000, col.z) / SCALE;
    (ir, ig, ib)
}

} // verus!
