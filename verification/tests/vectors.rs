use ray_tracer::geometry::numeric::{fmax, fmin, fx_mul, fx_div, fx_sqrt, sin_fx, SCALE,
    HALF_PI_FX, PI_FX};
use ray_tracer::geometry::ray::Ray;
use ray_tracer::geometry::vector::{Vec3, cross, dot, normalize, reflect, refract};

#[test]
fn vec3_add() {
    assert_eq!(
        Vec3 { x: 1_000_000, y: 0, z: 0 }.add(Vec3 { x: 2_000_000, y: 3_000_000, z: -1_000_000 }),
        Vec3 { x: 3_000_000, y: 3_000_000, z: -1_000_000 }
    );
}

#[test]
fn vec3_idx() {
    let mut v = Vec3::new(1_000_000, 2_000_000, 3_000_000);
    assert_eq!(v.get(0), 1_000_000);
    assert_eq!(v.get(1), 2_000_000);
    assert_eq!(v.get(2), 3_000_000);
    let a = v.get(0);
    v.set(0, -a);
    let b = v.get(1);
    v.set(1, -b);
    let c = v.get(2);
    v.set(2, -c);
    assert_eq!(v.get(0), -1_000_000);
    assert_eq!(v.get(1), -2_000_000);
    assert_eq!(v.get(2), -3_000_000);
}

#[test]
fn add_commutes() {
    let a = Vec3::new(123_456, -654_321, 42);
    let b = Vec3::new(-7, 1_000_000, 999_999);
    assert_eq!(a.add(b), b.add(a));
}

#[test]
fn cross_antisymmetric() {
    let a = Vec3::new(1_000_000, 2_000_000, -500_000);
    let b = Vec3::new(-250_000, 750_000, 3_000_000);
    assert_eq!(cross(&a, &b), cross(&b, &a).neg());
}

#[test]
fn dot_symmetric() {
    let a = Vec3::new(1_000_000, 2_000_000, -500_000);
    let b = Vec3::new(-250_000, 750_000, 3_000_000);
    assert_eq!(dot(&a, &b), dot(&b, &a));
}

#[test]
fn normalize_axis_exact() {
    // a vector along one axis normalizes to exactly the unit axis
    let v = Vec3::new(0, 0, -5_000_000);
    let n = normalize(v);
    assert_eq!(n, Vec3::new(0, 0, -1_000_000));
    assert_eq!(n.length(), 1_000_000);
}

#[test]
fn normalize_near_unit_length() {
    // normalization of a general vector lands within rounding of length one
    let v = Vec3::new(3_000_000, 4_000_000, 12_000_000);
    let n = normalize(v);
    let l = n.length();
    assert!(999_000 <= l && l <= 1_000_000, "length {}", l);
}

#[test]
fn reflect_axis() {
    // reflecting a downward ray about the y axis flips its y component
    let v = Vec3::new(1_000_000, -1_000_000, 0);
    let n = Vec3::new(0, 1_000_000, 0);
    assert_eq!(reflect(&v, &n), Vec3::new(1_000_000, 1_000_000, 0));
}

#[test]
fn refract_straight_through() {
    // with an index ratio of one, a perpendicular ray refracts straight on
    let v = Vec3::new(0, 0, -1_000_000);
    let n = Vec3::new(0, 0, 1_000_000);
    let mut out = Vec3::new(0, 0, 0);
    let ok = refract(&v, &n, 1_000_000, &mut out);
    assert!(ok);
    assert_eq!(out, Vec3::new(0, 0, -1_000_000));
}

#[test]
fn fmin_fmax_plain() {
    assert_eq!(fmax(3, 7), 7);
    assert_eq!(fmax(7, 3), 7);
    assert_eq!(fmin(3, 7), 3);
    assert_eq!(fmin(-3, -7), -7);
}

#[test]
fn fixed_point_arithmetic() {
    // 2.5 * 4 = 10, and 1 / 3 truncates at the sixth decimal
    assert_eq!(fx_mul(2_500_000, 4_000_000), 10_000_000);
    assert_eq!(fx_div(1_000_000, 3_000_000), 333_333);
    assert_eq!(fx_sqrt(250_000), 500_000);
    assert_eq!(fx_sqrt(4_000_000), 2_000_000);
}

#[test]
fn sine_values() {
    assert_eq!(sin_fx(0), 0);
    let s1 = sin_fx(HALF_PI_FX);
    assert!(999_000 <= s1 && s1 <= 1_000_000, "sin(pi/2) {}", s1);
    let s2 = sin_fx(PI_FX);
    assert!(-1_000 <= s2 && s2 <= 1_000, "sin(pi) {}", s2);
    let s3 = sin_fx(-HALF_PI_FX);
    assert_eq!(s3, -s1);
}

#[test]
fn ray_points() {
    let r = Ray::new(Vec3::new(1_000_000, 0, 0), Vec3::new(0, 2_000_000, 0), 0);
    assert_eq!(r.point_at_parameter(500_000), Vec3::new(1_000_000, 1_000_000, 0));
}
