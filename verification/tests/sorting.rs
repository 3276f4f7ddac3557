use rand::Rng;
use ray_tracer::common::random::{perlin_generate_perm, rand_fixed, random_in_unit_disk,
    random_in_unit_sphere, Perlin};
use ray_tracer::geometry::vector::Vec3;

fn rand() -> f32 {
    rand::thread_rng().gen()
}

trait ObjectTrait {
    fn method(&self) -> i32;
}

struct Object {
    pub x: i32,
    pub y: i32,
}

impl ObjectTrait for Object {
    fn method(&self) -> i32 {
        self.x
    }
}

#[test]
fn sort_polymorphism() {
    let mut list: Vec<Box<dyn ObjectTrait>> = vec![];
    for i in 0..10 {
        list.push(Box::new(Object {
            x: (rand() * 100.0) as i32,
            y: i,
        }));
    }
    list.sort_by(|a, b| a.method().cmp(&b.method()));
    assert_eq!(list.len(), 10);
    for i in 0..9 {
        assert_eq!(list[i].method() <= list[i + 1].method(), true);
    }
}

#[test]
fn sort_slices() {
    let mut list: Vec<Box<dyn ObjectTrait>> = vec![];
    for i in 0..10 {
        list.push(Box::new(Object {
            x: (rand() * 100.0) as i32,
            y: i,
        }));
    }
    let left = &mut list[0..6];
    left.sort_by(|a, b| a.method().cmp(&b.method()));
    let right = &mut list[6..10];
    right.sort_by(|a, b| a.method().cmp(&b.method()));
    for i in 0..5 {
        assert_eq!(list[i].method() <= list[i + 1].method(), true);
    }
    for i in 6..9 {
        assert_eq!(list[i].method() <= list[i + 1].method(), true);
    }
}

#[test]
fn permutation_table_is_complete() {
    let mut p: Vec<usize> = Vec::new();
    perlin_generate_perm(&mut p);
    assert_eq!(p.len(), 256);
    let mut sorted = p.clone();
    sorted.sort();
    for (i, v) in sorted.iter().enumerate() {
        assert_eq!(*v, i);
    }
}

#[test]
fn random_draws_in_range() {
    for _ in 0..64 {
        let u = rand_fixed();
        assert!(0 <= u && u < 1_000_000);
        let p = random_in_unit_sphere();
        assert!(p.length2() < 1_000_000);
        let q = random_in_unit_disk();
        assert!(q.length2() < 1_000_000);
        assert_eq!(q.z, 0);
    }
}

#[test]
fn noise_is_deterministic() {
    let pl = Perlin::new();
    let p = Vec3::new(1_234_567, -2_345_678, 3_456_789);
    assert_eq!(pl.noise(p), pl.noise(p));
    assert_eq!(pl.turb(p, 7), pl.turb(p, 7));
}

#[test]
fn turbulence_is_nonnegative() {
    let pl = Perlin::new();
    for k in 0..8i64 {
        let p = Vec3::new(k * 700_001, -k * 300_007, k * 110_003);
        assert!(pl.turb(p, 7) >= 0);
    }
}
