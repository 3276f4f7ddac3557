use ray_tracer::color;
use ray_tracer::to_rgb;
use ray_tracer::Scene;
use ray_tracer::geometry::ray::Ray;
use ray_tracer::geometry::vector::Vec3;
use ray_tracer::tracer::aabb::{AABB, surrounding_box};
use ray_tracer::tracer::bvh::BVHNode;
use ray_tracer::tracer::camera::Camera;
use ray_tracer::tracer::hitable::{HitList, Hitable, SphereObject, MovingSphereObject, XYRect,
    BoxObject, FlipNormals, Translate};
use ray_tracer::tracer::materials::{Material, Lambertian, Metal, Dielectric, DiffuseLight,
    schlick};
use ray_tracer::tracer::texture::{Texture, ConstantTexture};

fn unit_sphere_at(x: i64, y: i64, z: i64, r: i64) -> Hitable {
    Hitable::Sphere(SphereObject { center: Vec3::new(x, y, z), radius: r, mat: None })
}

#[test]
fn sphere_axial_hit() {
    // a ray from the origin toward (0,0,-1) against a sphere of radius one
    // half centered at (0,0,-1): t = 0.5, point (0,0,-0.5), normal (0,0,1)
    let s = SphereObject { center: Vec3::new(0, 0, -1_000_000), radius: 500_000, mat: None };
    let ray = Ray::new(Vec3::new(0, 0, 0), Vec3::new(0, 0, -1_000_000), 0);
    let rec = s.hit(&ray, 0, i64::MAX).expect("must hit");
    assert_eq!(rec.t, 500_000);
    assert_eq!(rec.p, Vec3::new(0, 0, -500_000));
    assert_eq!(rec.normal, Vec3::new(0, 0, 1_000_000));
}

#[test]
fn sphere_miss() {
    let s = SphereObject { center: Vec3::new(0, 0, -1_000_000), radius: 500_000, mat: None };
    let ray = Ray::new(Vec3::new(0, 2_000_000, 0), Vec3::new(0, 0, -1_000_000), 0);
    assert!(s.hit(&ray, 0, i64::MAX).is_none());
}

#[test]
fn moving_sphere_center() {
    let s = MovingSphereObject {
        center0: Vec3::new(0, 0, 0),
        center1: Vec3::new(2_000_000, 0, 0),
        time0: 0,
        time1: 1_000_000,
        radius: 500_000,
        mat: None,
    };
    assert_eq!(s.center(500_000), Vec3::new(1_000_000, 0, 0));
}

#[test]
fn rect_hit_and_box() {
    let rc = XYRect { x0: -1_000_000, x1: 1_000_000, y0: -1_000_000, y1: 1_000_000,
        k: -2_000_000, mat: None };
    let ray = Ray::new(Vec3::new(0, 0, 0), Vec3::new(0, 0, -1_000_000), 0);
    let rec = rc.hit(&ray, 0, i64::MAX).expect("must hit");
    assert_eq!(rec.t, 2_000_000);
    assert_eq!(rec.normal, Vec3::new(0, 0, 1_000_000));
    let bb = rc.bounding_box(0, 0).unwrap();
    assert_eq!(bb.lower.z, -2_000_100);
    assert_eq!(bb.upper.z, -1_999_900);
}

#[test]
fn surrounding_box_contains_both() {
    let b0 = AABB {
        lower: Vec3::new(-1_000_000, 0, 0),
        upper: Vec3::new(1_000_000, 2_000_000, 500_000),
    };
    let b1 = AABB {
        lower: Vec3::new(-2_000_000, 500_000, -1_000_000),
        upper: Vec3::new(0, 1_000_000, 1_500_000),
    };
    let u = surrounding_box(&b0, &b1);
    for b in [b0, b1] {
        assert!(u.lower.x <= b.lower.x && b.upper.x <= u.upper.x);
        assert!(u.lower.y <= b.lower.y && b.upper.y <= u.upper.y);
        assert!(u.lower.z <= b.lower.z && b.upper.z <= u.upper.z);
    }
}

#[test]
fn aabb_slab_hit() {
    let bb = AABB {
        lower: Vec3::new(-1_000_000, -1_000_000, -3_000_000),
        upper: Vec3::new(1_000_000, 1_000_000, -2_000_000),
    };
    let toward = Ray::new(Vec3::new(0, 0, 0), Vec3::new(0, 0, -1_000_000), 0);
    let away = Ray::new(Vec3::new(0, 0, 0), Vec3::new(0, 0, 1_000_000), 0);
    assert!(bb.hit(&toward, 1_000, i64::MAX));
    assert!(!bb.hit(&away, 1_000, i64::MAX));
}

#[test]
fn bvh_tree() {
    let mut world = HitList::new();
    world.list.push(unit_sphere_at(0, 1_000_000, 0, 300_000));
    world.list.push(unit_sphere_at(0, 2_000_000, 0, 300_000));
    world.list.push(unit_sphere_at(0, 3_000_000, 0, 300_000));
    let bvh = BVHNode::new(&mut world.list, 0, 0);
    {
        let ray = Ray::new(Vec3::new(1_000_000, 1_000_000, 0), Vec3::new(-1_000_000, 0, 0), 0);
        assert_eq!(bvh.hit(&ray, 0, 10_000_000).is_some(), true);
    }
    {
        let ray = Ray::new(Vec3::new(1_000_000, 2_000_000, 0), Vec3::new(-1_000_000, 0, 0), 0);
        assert_eq!(bvh.hit(&ray, 0, 10_000_000).is_some(), true);
    }
    {
        let ray = Ray::new(Vec3::new(1_000_000, 3_000_000, 0), Vec3::new(-1_000_000, 0, 0), 0);
        assert_eq!(bvh.hit(&ray, 0, 10_000_000).is_some(), true);
    }
}

#[test]
fn bvh_matches_linear_scan() {
    // the nearest hit through the hierarchy equals the linear scan's
    let mut world = HitList::new();
    world.list.push(unit_sphere_at(0, 0, -2_000_000, 500_000));
    world.list.push(unit_sphere_at(0, 0, -4_000_000, 500_000));
    world.list.push(unit_sphere_at(0, 2_000_000, -3_000_000, 500_000));
    world.list.push(unit_sphere_at(1_000_000, 0, -3_000_000, 400_000));
    let mut copy = HitList::new();
    for p in world.list.iter() {
        copy.list.push(p.clone());
    }
    let bvh = BVHNode::new(&mut copy.list, 0, 0);
    let rays = [
        Ray::new(Vec3::new(0, 0, 0), Vec3::new(0, 0, -1_000_000), 0),
        Ray::new(Vec3::new(0, 0, 0), Vec3::new(0, 500_000, -1_000_000), 0),
        Ray::new(Vec3::new(0, 0, 0), Vec3::new(0, 1_000_000, 0), 0),
        Ray::new(Vec3::new(1_000_000, 0, 0), Vec3::new(0, 0, -1_000_000), 0),
    ];
    for ray in rays.iter() {
        let a = world.hit(ray, 1_000, i64::MAX);
        let b = bvh.hit(ray, 1_000, i64::MAX);
        assert_eq!(a.is_some(), b.is_some());
        if let (Some(ra), Some(rb)) = (a, b) {
            assert_eq!(ra.t, rb.t);
            assert_eq!(ra.normal, rb.normal);
            assert_eq!(ra.mat, rb.mat);
        }
    }
}

#[test]
fn box_object_hit() {
    let b = BoxObject::create(Vec3::new(-1_000_000, -1_000_000, -3_000_000),
        Vec3::new(1_000_000, 1_000_000, -2_000_000), 0);
    let ray = Ray::new(Vec3::new(0, 0, 0), Vec3::new(0, 0, -1_000_000), 0);
    let rec = b.hit(&ray, 1_000, i64::MAX).expect("must hit");
    assert_eq!(rec.t, 2_000_000);
    // the wall nearest the origin faces it after its flip
    assert_eq!(rec.normal, Vec3::new(0, 0, 1_000_000));
}

#[test]
fn decorators_flip_and_translate() {
    let inner = Hitable::Sphere(SphereObject {
        center: Vec3::new(0, 0, -2_000_000),
        radius: 500_000,
        mat: None,
    });
    let flipped = Hitable::Flip(FlipNormals { ptr: Some(Box::new(inner.clone())) });
    let moved = Hitable::Moved(Translate {
        ptr: Some(Box::new(inner)),
        offset: Vec3::new(0, 1_000_000, 0),
    });
    let ray = Ray::new(Vec3::new(0, 0, 0), Vec3::new(0, 0, -1_000_000), 0);
    let rec = flipped.hit(&ray, 0, i64::MAX).expect("must hit");
    assert_eq!(rec.normal, Vec3::new(0, 0, -1_000_000));
    let ray_up = Ray::new(Vec3::new(0, 1_000_000, 0), Vec3::new(0, 0, -1_000_000), 0);
    let rec2 = moved.hit(&ray_up, 0, i64::MAX).expect("must hit");
    assert_eq!(rec2.p, Vec3::new(0, 1_000_000, -1_500_000));
}

#[test]
fn dielectric_reflectance_normal_incidence() {
    // at cosine one the reflectance is ((n-1)/(n+1))^2 exactly: 0.04 for n=1.5
    assert_eq!(schlick(1_000_000, 1_500_000), 40_000);
}

#[test]
fn integrator_depth_cutoff() {
    // at the depth cap the integrator returns the emission alone, even for
    // a material that always scatters
    let scene = Scene {
        perlins: Vec::new(),
        textures: vec![
            Texture::Constant(ConstantTexture { color: Vec3::new(900_000, 800_000, 700_000) }),
        ],
        materials: vec![Material::Lambertian(Lambertian::new(Some(0)))],
    };
    let mut world = HitList::new();
    world.list.push(Hitable::Sphere(SphereObject {
        center: Vec3::new(0, 0, -2_000_000),
        radius: 500_000,
        mat: Some(0),
    }));
    let ray = Ray::new(Vec3::new(0, 0, 0), Vec3::new(0, 0, -1_000_000), 0);
    let at_cap = color(&ray, &world, &scene, 50);
    assert_eq!(at_cap, Vec3::new(0, 0, 0));
}

#[test]
fn integrator_emission() {
    // a diffuse light returns its emission at every depth
    let scene = Scene {
        perlins: Vec::new(),
        textures: vec![
            Texture::Constant(ConstantTexture {
                color: Vec3::new(4_000_000, 4_000_000, 4_000_000),
            }),
        ],
        materials: vec![Material::DiffuseLight(DiffuseLight { emit: Some(0) })],
    };
    let mut world = HitList::new();
    world.list.push(Hitable::Sphere(SphereObject {
        center: Vec3::new(0, 0, -2_000_000),
        radius: 500_000,
        mat: Some(0),
    }));
    let ray = Ray::new(Vec3::new(0, 0, 0), Vec3::new(0, 0, -1_000_000), 0);
    assert_eq!(color(&ray, &world, &scene, 0),
        Vec3::new(4_000_000, 4_000_000, 4_000_000));
    assert_eq!(color(&ray, &world, &scene, 50),
        Vec3::new(4_000_000, 4_000_000, 4_000_000));
}

#[test]
fn integrator_miss_is_black() {
    let scene = Scene { perlins: Vec::new(), textures: Vec::new(), materials: Vec::new() };
    let world = HitList::new();
    let ray = Ray::new(Vec3::new(0, 0, 0), Vec3::new(0, 0, -1_000_000), 0);
    assert_eq!(color(&ray, &world, &scene, 0), Vec3::new(0, 0, 0));
}

#[test]
fn metal_absorbs_into_surface() {
    // a metal scatter never reports a direction into the surface
    let scene = Scene {
        perlins: Vec::new(),
        textures: Vec::new(),
        materials: vec![
            Material::Metal(Metal::new(Vec3::new(700_000, 600_000, 500_000), 0)),
        ],
    };
    let m = &scene.materials[0];
    let rec = ray_tracer::tracer::hitable::HitRecord {
        p: Vec3::new(0, 0, -2_000_000),
        normal: Vec3::new(0, 0, 1_000_000),
        t: 2_000_000,
        mat: Some(0),
        u: 0,
        v: 0,
    };
    let r_in = Ray::new(Vec3::new(0, 0, 0), Vec3::new(0, 0, -1_000_000), 0);
    for _ in 0..8 {
        if let Some((att, scattered)) = m.scatter(&r_in, &rec,
            &scene.textures, &scene.perlins) {
            assert_eq!(att, Vec3::new(700_000, 600_000, 500_000));
            assert_eq!(scattered.o, rec.p);
            // the scattered direction leaves the surface
            assert!(ray_tracer::geometry::vector::dot(&scattered.d, &rec.normal) > 0);
        }
    }
}

#[test]
fn dielectric_always_scatters_clear() {
    let scene = Scene {
        perlins: Vec::new(),
        textures: Vec::new(),
        materials: vec![Material::Dielectric(Dielectric::new(1_500_000))],
    };
    let m = &scene.materials[0];
    let rec = ray_tracer::tracer::hitable::HitRecord {
        p: Vec3::new(0, 0, -2_000_000),
        normal: Vec3::new(0, 0, 1_000_000),
        t: 2_000_000,
        mat: Some(0),
        u: 0,
        v: 0,
    };
    let r_in = Ray::new(Vec3::new(0, 0, 0), Vec3::new(0, 0, -1_000_000), 0);
    for _ in 0..8 {
        let (att, scattered) = m.scatter(&r_in, &rec, &scene.textures, &scene.perlins)
            .expect("a dielectric always scatters");
        assert_eq!(att, Vec3::new(1_000_000, 1_000_000, 1_000_000));
        assert_eq!(scattered.o, rec.p);
    }
}

#[test]
fn pinhole_camera_ray_origin() {
    // with a zero aperture the generated ray starts exactly at the origin
    let lookfrom = Vec3::new(13_000_000, 2_000_000, 3_000_000);
    let cam = Camera::build(lookfrom, Vec3::new(0, 0, 0), Vec3::new(0, 1_000_000, 0),
        20_000_000, 1_000_000, 0, 10_000_000, 0, 1_000_000);
    for (s, t) in [(0i64, 0i64), (500_000, 500_000), (1_000_000, 0), (250_000, 750_000)] {
        let r = cam.ray(s, t);
        assert_eq!(r.o, lookfrom);
    }
}

#[test]
fn lens_camera_ray_time_in_shutter() {
    let cam = Camera::build(Vec3::new(0, 0, 0), Vec3::new(0, 0, -1_000_000),
        Vec3::new(0, 1_000_000, 0), 90_000_000, 1_000_000, 30_000, 1_000_000, 0, 1_000_000);
    for _ in 0..8 {
        let r = cam.ray(500_000, 500_000);
        assert!(0 <= r.time && r.time < 1_000_000);
    }
}

#[test]
fn two_sphere_render_bounded() {
    // a small render of the two-sphere scene: every channel stays in [0, 1]
    let scene = Scene {
        perlins: Vec::new(),
        textures: vec![
            Texture::Constant(ConstantTexture { color: Vec3::new(500_000, 500_000, 500_000) }),
        ],
        materials: vec![Material::Lambertian(Lambertian::new(Some(0)))],
    };
    let mut world = HitList::new();
    world.list.push(Hitable::Sphere(SphereObject {
        center: Vec3::new(0, -100_500_000, -1_000_000),
        radius: 100_000_000,
        mat: Some(0),
    }));
    world.list.push(Hitable::Sphere(SphereObject {
        center: Vec3::new(0, 0, -1_000_000),
        radius: 500_000,
        mat: Some(0),
    }));
    let cam = Camera::build(Vec3::new(0, 0, 0), Vec3::new(0, 0, -1_000_000),
        Vec3::new(0, 1_000_000, 0), 90_000_000, 1_000_000, 0, 1_000_000, 0, 0);
    let n = 4i64;
    for j in 0..n {
        for i in 0..n {
            let s = i * 1_000_000 / n;
            let t = j * 1_000_000 / n;
            let r = cam.ray(s, t);
            let c = color(&r, &world, &scene, 0);
            for ch in [c.x, c.y, c.z] {
                assert!(0 <= ch && ch <= 1_000_000, "channel {}", ch);
            }
        }
    }
}

#[test]
fn rgb_scaling() {
    assert_eq!(to_rgb(&Vec3::new(1_000_000, 0, 500_000)), (255, 0, 127));
    assert_eq!(to_rgb(&Vec3::new(250_000, 750_000, 1_000_000)), (63, 191, 255));
}
