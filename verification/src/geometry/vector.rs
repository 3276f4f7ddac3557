use vstd::prelude::*;
use crate::geometry::numeric::{fx_mul, fx_div, fx_sqrt, fx_mul_spec, fx_div_spec, isqrt_spec,
    sat64, SCALE};

verus! {

/// A three-component vector of fixed-point scalars.
#[derive(Clone, Copy, PartialEq, Eq, Structural, Debug)]
pub struct Vec3 {
    pub x: i64,
    pub y: i64,
    pub z: i64,
}

/// Saturating sum of two scalars.
pub open spec fn sadd(a: int, b: int) -> int {
    sat64(a + b)
}

pub open spec fn v3_add(a: Vec3, b: Vec3) -> Vec3 {
    Vec3 {
        x: sadd(a.x as int, b.x as int) as i64,
        y: sadd(a.y as int, b.y as int) as i64,
        z: sadd(a.z as int, b.z as int) as i64,
    }
}

pub open spec fn v3_sub(a: Vec3, b: Vec3) -> Vec3 {
    Vec3 {
        x: sadd(a.x as int, -(b.x as int)) as i64,
        y: sadd(a.y as int, -(b.y as int)) as i64,
        z: sadd(a.z as int, -(b.z as int)) as i64,
    }
}

pub open spec fn v3_neg(a: Vec3) -> Vec3 {
    Vec3 {
        x: sat64(-(a.x as int)) as i64,
        y: sat64(-(a.y as int)) as i64,
        z: sat64(-(a.z as int)) as i64,
    }
}

/// Multiply every component by the scalar `k`.
pub open spec fn v3_scale(a: Vec3, k: int) -> Vec3 {
    Vec3 {
        x: fx_mul_spec(a.x as int, k) as i64,
        y: fx_mul_spec(a.y as int, k) as i64,
        z: fx_mul_spec(a.z as int, k) as i64,
    }
}

/// Component-wise product.
pub open spec fn v3_mul(a: Vec3, b: Vec3) -> Vec3 {
    Vec3 {
        x: fx_mul_spec(a.x as int, b.x as int) as i64,
        y: fx_mul_spec(a.y as int, b.y as int) as i64,
        z: fx_mul_spec(a.z as int, b.z as int) as i64,
    }
}

/// Divide every component by the scalar `k`.
pub open spec fn v3_div(a: Vec3, k: int) -> Vec3
    recommends
        k != 0,
{
    Vec3 {
        x: fx_div_spec(a.x as int, k) as i64,
        y: fx_div_spec(a.y as int, k) as i64,
        z: fx_div_spec(a.z as int, k) as i64,
    }
}

pub open spec fn dot_spec(a: Vec3, b: Vec3) -> int {
    sadd(
        sadd(fx_mul_spec(a.x as int, b.x as int), fx_mul_spec(a.y as int, b.y as int)),
        fx_mul_spec(a.z as int, b.z as int),
    )
}

pub open spec fn cross_spec(a: Vec3, b: Vec3) -> Vec3 {
    Vec3 {
        x: sadd(fx_mul_spec(a.y as int, b.z as int), -fx_mul_spec(a.z as int, b.y as int)) as i64,
        y: sadd(fx_mul_spec(a.z as int, b.x as int), -fx_mul_spec(a.x as int, b.z as int)) as i64,
        z: sadd(fx_mul_spec(a.x as int, b.y as int), -fx_mul_spec(a.y as int, b.x as int)) as i64,
    }
}

pub open spec fn length2_spec(a: Vec3) -> int {
    dot_spec(a, a)
}

/// The floor square root, as a function: for non-negative `x` it is the
/// unique `r` with `r*r <= x < (r+1)*(r+1)`.
pub open spec fn sqrt_val(x: int) -> int {
    choose|r: int| #[trigger] isqrt_spec(x, r)
}

/// The length of a vector: the fixed-point square root of its squared length.
pub open spec fn length_spec(a: Vec3) -> int {
    sqrt_val(length2_spec(a) * (SCALE as int))
}

pub proof fn lemma_isqrt_exists(x: int)
    requires
        x >= 0,
    ensures
        exists|r: int| #[trigger] isqrt_spec(x, r),
    decreases x,
{
    if x == 0 {
        assert(isqrt_spec(0, 0));
    } else {
        lemma_isqrt_exists(x - 1);
        let r = choose|r: int| #[trigger] isqrt_spec(x - 1, r);
        if (r + 1) * (r + 1) <= x {
            assert(isqrt_spec(x, r + 1)) by (nonlinear_arith)
                requires
                    isqrt_spec(x - 1, r),
                    (r + 1) * (r + 1) <= x,
            ;
        } else {
            assert(isqrt_spec(x, r));
        }
    }
}

pub proof fn lemma_isqrt_unique(x: int, r1: int, r2: int)
    by (nonlinear_arith)
    requires
        isqrt_spec(x, r1),
        isqrt_spec(x, r2),
    ensures
        r1 == r2,
{
}

/// For non-negative `x`, `sqrt_val` is exactly the floor square root.
pub proof fn lemma_sqrt_val(x: int)
    requires
        x >= 0,
    ensures
        isqrt_spec(x, sqrt_val(x)),
{
    lemma_isqrt_exists(x);
}

/// Squares are non-negative, so a squared length is non-negative.
pub proof fn lemma_length2_nonneg(a: Vec3)
    ensures
        0 <= length2_spec(a),
{
    assert(a.x as int * a.x as int >= 0) by (nonlinear_arith);
    assert(a.y as int * a.y as int >= 0) by (nonlinear_arith);
    assert(a.z as int * a.z as int >= 0) by (nonlinear_arith);
}

/// Vector addition is commutative.
pub proof fn lemma_add_comm(a: Vec3, b: Vec3)
    ensures
        v3_add(a, b) == v3_add(b, a),
{
}

/// The cross product is antisymmetric: `cross(a, b) == -cross(b, a)`,
/// wherever no component difference saturates.
pub proof fn lemma_cross_antisym(a: Vec3, b: Vec3)
    requires
        -0x7FFF_FFFF_FFFF_FFFF <= fx_mul_spec(a.y as int, b.z as int) - fx_mul_spec(
            a.z as int, b.y as int) <= 0x7FFF_FFFF_FFFF_FFFF,
        -0x7FFF_FFFF_FFFF_FFFF <= fx_mul_spec(a.z as int, b.x as int) - fx_mul_spec(
            a.x as int, b.z as int) <= 0x7FFF_FFFF_FFFF_FFFF,
        -0x7FFF_FFFF_FFFF_FFFF <= fx_mul_spec(a.x as int, b.y as int) - fx_mul_spec(
            a.y as int, b.x as int) <= 0x7FFF_FFFF_FFFF_FFFF,
    ensures
        cross_spec(a, b) == v3_neg(cross_spec(b, a)),
{
    assert(a.y as int * b.z as int == b.z as int * a.y as int);
    assert(a.z as int * b.y as int == b.y as int * a.z as int);
    assert(a.z as int * b.x as int == b.x as int * a.z as int);
    assert(a.x as int * b.z as int == b.z as int * a.x as int);
    assert(a.x as int * b.y as int == b.y as int * a.x as int);
    assert(a.y as int * b.x as int == b.x as int * a.y as int);
}

/// The dot product is symmetric.
pub proof fn lemma_dot_comm(a: Vec3, b: Vec3)
    ensures
        dot_spec(a, b) == dot_spec(b, a),
{
    assert(a.x as int * b.x as int == b.x as int * a.x as int);
    assert(a.y as int * b.y as int == b.y as int * a.y as int);
    assert(a.z as int * b.z as int == b.z as int * a.z as int);
}

impl Vec3 {
    pub fn new(x: i64, y: i64, z: i64) -> (r: Self)
        ensures
            r == (Vec3 { x, y, z }),
    {
        Self { x, y, z }
    }

    /// The squared length of the vector.
    pub fn length2(&self) -> (r: i64)
        ensures
            r == length2_spec(*self),
            r >= 0,
    {
        proof {
            lemma_length2_nonneg(*self);
        }
        let a = fx_mul(self.x, self.x);
        let b = fx_mul(self.y, self.y);
        let c = fx_mul(self.z, self.z);
        let ab = crate::geometry::numeric::sat_add(a, b);
        crate::geometry::numeric::sat_add(ab, c)
    }

    /// The length of the vector.
    pub fn length(&self) -> (r: i64)
        ensures
            r == length_spec(*self),
            r >= 0,
    {
        let l2 = self.length2();
        let r = fx_sqrt(l2);
        proof {
            lemma_sqrt_val(l2 as int * (SCALE as int));
            lemma_isqrt_unique(l2 as int * (SCALE as int), r as int,
                sqrt_val(l2 as int * (SCALE as int)));
        }
        r
    }

    /// The component selected by `i`: `x`, `y`, `z` for 0, 1, 2.
    pub fn get(&self, i: usize) -> (r: i64)
        requires
            i < 3,
        ensures
            i == 0 ==> r == self.x,
            i == 1 ==> r == self.y,
            i == 2 ==> r == self.z,
    {
        if i == 0 {
            self.x
        } else if i == 1 {
            self.y
        } else {
            self.z
        }
    }

    /// Replace the component selected by `i`.
    pub fn set(&mut self, i: usize, v: i64)
        requires
            i < 3,
        ensures
            i == 0 ==> *final(self) == (Vec3 { x: v, ..*old(self) }),
            i == 1 ==> *final(self) == (Vec3 { y: v, ..*old(self) }),
            i == 2 ==> *final(self) == (Vec3 { z: v, ..*old(self) }),
    {
        if i == 0 {
            self.x = v;
        } else if i == 1 {
            self.y = v;
        } else {
            self.z = v;
        }
    }

    pub fn add(self, other: Self) -> (r: Self)
        ensures
            r == v3_add(self, other),
    {
        Self {
            x: crate::geometry::numeric::sat_add(self.x, other.x),
            y: crate::geometry::numeric::sat_add(self.y, other.y),
            z: crate::geometry::numeric::sat_add(self.z, other.z),
        }
    }

    pub fn sub(self, other: Self) -> (r: Self)
        ensures
            r == v3_sub(self, other),
    {
        Self {
            x: crate::geometry::numeric::sat_sub(self.x, other.x),
            y: crate::geometry::numeric::sat_sub(self.y, other.y),
            z: crate::geometry::numeric::sat_sub(self.z, other.z),
        }
    }

    pub fn neg(self) -> (r: Self)
        ensures
            r == v3_neg(self),
    {
        Self {
            x: crate::geometry::numeric::sat_neg(self.x),
            y: crate::geometry::numeric::sat_neg(self.y),
            z: crate::geometry::numeric::sat_neg(self.z),
        }
    }

    /// Multiply every component by the scalar `k`.
    pub fn scale(self, k: i64) -> (r: Self)
        ensures
            r == v3_scale(self, k as int),
    {
        Self { x: fx_mul(self.x, k), y: fx_mul(self.y, k), z: fx_mul(self.z, k) }
    }

    /// Component-wise product.
    pub fn mul(self, other: Self) -> (r: Self)
        ensures
            r == v3_mul(self, other),
    {
        Self {
            x: fx_mul(self.x, other.x),
            y: fx_mul(self.y, other.y),
            z: fx_mul(self.z, other.z),
        }
    }

    /// Divide every component by the scalar `k`, which must not be zero.
    pub fn div(self, k: i64) -> (r: Self)
        requires
            k != 0,
        ensures
            r == v3_div(self, k as int),
    {
        Self { x: fx_div(self.x, k), y: fx_div(self.y, k), z: fx_div(self.z, k) }
    }
}

/// Scale a vector to unit length; the argument must have a non-zero length.
pub fn normalize(a: Vec3) -> (r: Vec3)
    requires
        length2_spec(a) >= 1,
    ensures
        r == v3_div(a, length_spec(a)),
        length_spec(a) >= 1,
{
    let l = a.length();
    proof {
        lemma_sqrt_val(length2_spec(a) * (SCALE as int));
        assert(length_spec(a) >= 1) by (nonlinear_arith)
            requires
                isqrt_spec(length2_spec(a) * (SCALE as int), length_spec(a)),
                length2_spec(a) >= 1,
                SCALE == 1_000_000,
        ;
    }
    a.div(l)
}

pub fn dot(a: &Vec3, b: &Vec3) -> (r: i64)
    ensures
        r == dot_spec(*a, *b),
{
    let p = fx_mul(a.x, b.x);
    let q = fx_mul(a.y, b.y);
    let s = fx_mul(a.z, b.z);
    crate::geometry::numeric::sat_add(crate::geometry::numeric::sat_add(p, q), s)
}

pub fn cross(a: &Vec3, b: &Vec3) -> (r: Vec3)
    ensures
        r == cross_spec(*a, *b),
{
    Vec3 {
        x: crate::geometry::numeric::sat_sub(fx_mul(a.y, b.z), fx_mul(a.z, b.y)),
        y: crate::geometry::numeric::sat_sub(fx_mul(a.z, b.x), fx_mul(a.x, b.z)),
        z: crate::geometry::numeric::sat_sub(fx_mul(a.x, b.y), fx_mul(a.y, b.x)),
    }
}

pub open spec fn reflect_spec(v: Vec3, n: Vec3) -> Vec3 {
    v3_sub(v, v3_scale(n, fx_mul_spec(2 * SCALE as int, dot_spec(v, n))))
}

/// Mirror `v` about the plane with normal `n`.
pub fn reflect(v: &Vec3, n: &Vec3) -> (r: Vec3)
    ensures
        r == reflect_spec(*v, *n),
{
    let k = fx_mul(2_000_000, dot(v, n));
    v.sub(n.scale(k))
}

/// The refracted direction through a surface with normal `n` and index
/// ratio `ni_over_nt`, when Snell's law admits one.
pub open spec fn refract_spec(v: Vec3, n: Vec3, ni_over_nt: int) -> Option<Vec3> {
    let uv = v3_div(v, length_spec(v));
    let dt = dot_spec(uv, n);
    let disc = sadd(
        SCALE as int,
        -fx_mul_spec(fx_mul_spec(ni_over_nt, ni_over_nt), sadd(SCALE as int, -fx_mul_spec(dt, dt))),
    );
    if disc > 0 {
        Some(
            v3_sub(
                v3_scale(v3_sub(uv, v3_scale(n, dt)), ni_over_nt),
                v3_scale(n, sqrt_val(disc * (SCALE as int))),
            ),
        )
    } else {
        None
    }
}

/// Attempt refraction; on success write the refracted direction and return
/// true, otherwise leave `refracted` unchanged and return false.
pub fn refract(v: &Vec3, n: &Vec3, ni_over_nt: i64, refracted: &mut Vec3) -> (r: bool)
    requires
        length2_spec(*v) >= 1,
    ensures
        r == refract_spec(*v, *n, ni_over_nt as int).is_some(),
        r ==> *final(refracted) == refract_spec(*v, *n, ni_over_nt as int).unwrap(),
        !r ==> *final(refracted) == *old(refracted),
{
    let uv = normalize(*v);
    let dt = dot(&uv, n);
    let a = fx_mul(ni_over_nt, ni_over_nt);
    let b = crate::geometry::numeric::sat_sub(1_000_000, fx_mul(dt, dt));
    let disc = crate::geometry::numeric::sat_sub(1_000_000, fx_mul(a, b));
    if disc > 0 {
        let sq = fx_sqrt(disc);
        proof {
            lemma_sqrt_val(disc as int * (SCALE as int));
            lemma_isqrt_unique(disc as int * (SCALE as int), sq as int,
                sqrt_val(disc as int * (SCALE as int)));
        }
        *refracted = uv.sub(n.scale(dt)).scale(ni_over_nt).sub(n.scale(sq));
        true
    } else {
        false
    }
}

} // verus!
