use vstd::prelude::*;

verus! {

/// Scalars are fixed-point numbers: an `i64` raw value counts micro-units,
/// so `SCALE` is the representation of one.
pub const SCALE: i64 = 1_000_000;

/// Clamp a mathematical integer into the `i64` range.
pub open spec fn sat64(x: int) -> int {
    if x > i64::MAX {
        i64::MAX as int
    } else if x < i64::MIN {
        i64::MIN as int
    } else {
        x
    }
}

/// Division truncated toward zero, for a positive divisor.
pub open spec fn tz(a: int, b: int) -> int
    recommends
        b > 0,
{
    if a >= 0 {
        a / b
    } else {
        -((-a) / b)
    }
}

/// Division truncated toward zero, for any nonzero divisor.
pub open spec fn tzs(a: int, b: int) -> int
    recommends
        b != 0,
{
    if b > 0 {
        tz(a, b)
    } else {
        tz(-a, -b)
    }
}

/// The fixed-point product: truncate `a * b / SCALE`, saturating on overflow.
pub open spec fn fx_mul_spec(a: int, b: int) -> int {
    sat64(tz(a * b, SCALE as int))
}

/// The fixed-point quotient: truncate `a * SCALE / b`, saturating on overflow.
pub open spec fn fx_div_spec(a: int, b: int) -> int
    recommends
        b != 0,
{
    sat64(tzs(a * (SCALE as int), b))
}

/// Largest `r` with `r * r <= x`, for `x >= 0`.
pub open spec fn isqrt_spec(x: int, r: int) -> bool {
    0 <= r && r * r <= x && x < (r + 1) * (r + 1)
}

/// The fixed-point square root: `isqrt(x * SCALE)`, so that the result is
/// again in micro-units.
pub open spec fn fx_sqrt_spec(x: int, r: int) -> bool {
    isqrt_spec(x * (SCALE as int), r)
}

/// The product of two `i64` values fits comfortably in `i128`.
proof fn lemma_i64_prod_fits(a: int, b: int)
    by (nonlinear_arith)
    requires
        -0x8000_0000_0000_0000 <= a < 0x8000_0000_0000_0000,
        -0x8000_0000_0000_0000 <= b < 0x8000_0000_0000_0000,
    ensures
        -0x4000_0000_0000_0000_0000_0000_0000_0000 <= a * b
            <= 0x4000_0000_0000_0000_0000_0000_0000_0000,
{
}

pub fn fx_mul(a: i64, b: i64) -> (r: i64)
    ensures
        r == fx_mul_spec(a as int, b as int),
{
    proof {
        lemma_i64_prod_fits(a as int, b as int);
    }
    let p: i128 = (a as i128) * (b as i128);
    let q: i128 = p / 1_000_000;
    assert(q == tz(a as int * b as int, SCALE as int)) by {
        assert(p == a as int * b as int);
    };
    if q > i64::MAX as i128 {
        i64::MAX
    } else if q < i64::MIN as i128 {
        i64::MIN
    } else {
        q as i64
    }
}

pub fn fx_div(a: i64, b: i64) -> (r: i64)
    requires
        b != 0,
    ensures
        r == fx_div_spec(a as int, b as int),
{
    let p: i128 = (a as i128) * 1_000_000;
    let bb: i128 = b as i128;
    let q: i128 = if bb > 0 {
        p / bb
    } else {
        (-p) / (-bb)
    };
    assert(q == tzs(a as int * (SCALE as int), b as int)) by {
        assert(p == a as int * (SCALE as int));
    };
    if q > i64::MAX as i128 {
        i64::MAX
    } else if q < i64::MIN as i128 {
        i64::MIN
    } else {
        q as i64
    }
}

/// Integer square root by bisection.
pub fn isqrt(x: u128) -> (r: u128)
    requires
        x < 0x1_0000_0000_0000_0000_0000_0000_0000,  // 2^112
    ensures
        isqrt_spec(x as int, r as int),
{
    let mut lo: u128 = 0;
    let mut hi: u128 = 0x100_0000_0000_0000;  // 2^56: squares stay within range
    // invariant: lo*lo <= x < hi*hi
    assert(hi * hi > x) by {
        assert(0x100_0000_0000_0000int * 0x100_0000_0000_0000int
            == 0x1_0000_0000_0000_0000_0000_0000_0000int);
    };
    while lo + 1 < hi
        invariant
            lo < hi,
            lo * lo <= x,
            x < hi * hi,
            hi <= 0x100_0000_0000_0000,
        decreases hi - lo,
    {
        let mid: u128 = lo + (hi - lo) / 2;
        assert(mid * mid <= 0x1_0000_0000_0000_0000_0000_0000_0000) by (nonlinear_arith)
            requires
                mid <= 0x100_0000_0000_0000u128,
        ;
        if mid * mid <= x {
            lo = mid;
        } else {
            hi = mid;
        }
    }
    lo
}

pub fn fx_sqrt(x: i64) -> (r: i64)
    requires
        x >= 0,
    ensures
        r >= 0,
        fx_sqrt_spec(x as int, r as int),
{
    let n: u128 = (x as u128) * 1_000_000;
    let r = isqrt(n);
    assert(r * r <= n < 0x8000_0000_0000_0000u128 * 0x8000_0000_0000_0000u128) by {
        assert(n < 0x8000_0000_0000_0000u128 * 0x8000_0000_0000_0000u128);
        assert((0x8000_0000_0000_0000int) * (0x8000_0000_0000_0000int)
            == 0x4000_0000_0000_0000_0000_0000_0000_0000int);
    };
    assert(r < 0x8000_0000_0000_0000u128) by (nonlinear_arith)
        requires
            r * r <= n,
            n < 0x8000_0000_0000_0000u128 * 0x8000_0000_0000_0000u128,
    ;
    r as i64
}

/// Truncating division is monotone in the dividend, for a positive divisor.
pub proof fn lemma_tz_mono(a: int, b: int, k: int)
    requires
        a <= b,
        k > 0,
    ensures
        tz(a, k) <= tz(b, k),
{
    if a >= 0 {
        vstd::arithmetic::div_mod::lemma_div_is_ordered(a, b, k);
    } else if b >= 0 {
        vstd::arithmetic::div_mod::lemma_div_is_ordered(0, -a, k);
        vstd::arithmetic::div_mod::lemma_div_is_ordered(0, b, k);
    } else {
        vstd::arithmetic::div_mod::lemma_div_is_ordered(-b, -a, k);
    }
}

/// The fixed-point quotient is monotone in the dividend, for a positive
/// divisor.
pub proof fn lemma_fx_div_mono(a: int, b: int, k: int)
    requires
        a <= b,
        k > 0,
    ensures
        fx_div_spec(a, k) <= fx_div_spec(b, k),
{
    assert(a * (SCALE as int) <= b * (SCALE as int)) by (nonlinear_arith)
        requires
            a <= b,
    ;
    lemma_tz_mono(a * (SCALE as int), b * (SCALE as int), k);
}

/// Fixed-point pi and its multiples, in micro-units.
pub const PI_FX: i64 = 3_141_593;

pub const TWO_PI_FX: i64 = 6_283_185;

pub const HALF_PI_FX: i64 = 1_570_796;

/// The remainder of `x` in `[0, 2*pi)`, folding whole turns away.
pub open spec fn angle_mod_spec(x: int) -> int {
    let m = x - TWO_PI_FX * tz(x, TWO_PI_FX as int);
    if m < 0 {
        m + TWO_PI_FX
    } else {
        m
    }
}

/// A polynomial sine on the first quadrant:
/// `x - x^3/6 + x^5/120 - x^7/5040` in fixed point.
pub open spec fn sin_poly_spec(r: int) -> int {
    let t2 = fx_mul_spec(r, r);
    let t3 = fx_mul_spec(t2, r);
    let t5 = fx_mul_spec(t3, t2);
    let t7 = fx_mul_spec(t5, t2);
    sat64(sat64(sat64(r - tz(t3, 6)) + tz(t5, 120)) - tz(t7, 5040))
}

/// The fixed-point sine: fold the angle into `[0, 2*pi)`, then by symmetry
/// into the first quadrant, and evaluate the polynomial there.
pub open spec fn sin_fx_spec(x: int) -> int {
    let m = angle_mod_spec(x);
    let (sign, f) = if m >= PI_FX {
        (-1int, m - PI_FX)
    } else {
        (1int, m)
    };
    let q = if f > HALF_PI_FX {
        PI_FX - f
    } else {
        f
    };
    sign * sin_poly_spec(q)
}

/// The fixed-point cosine, as the sine shifted by a quarter turn.
pub open spec fn cos_fx_spec(x: int) -> int {
    sin_fx_spec(sadd_sp(x, HALF_PI_FX as int))
}

/// Saturating sum, for spec use.
pub open spec fn sadd_sp(a: int, b: int) -> int {
    sat64(a + b)
}

pub fn sin_fx(x: i64) -> (r: i64)
    ensures
        r == sin_fx_spec(x as int),
{
    let xw: i128 = x as i128;
    let q: i128 = xw / (TWO_PI_FX as i128);
    let m0: i128 = xw - q * (TWO_PI_FX as i128);
    let m: i64 = if m0 < 0 {
        (m0 + TWO_PI_FX as i128) as i64
    } else {
        m0 as i64
    };
    proof {
        assert(m == angle_mod_spec(x as int));
    }
    let (neg, f): (bool, i64) = if m >= PI_FX {
        (true, m - PI_FX)
    } else {
        (false, m)
    };
    let qd: i64 = if f > HALF_PI_FX {
        PI_FX - f
    } else {
        f
    };
    let t2 = fx_mul(qd, qd);
    let t3 = fx_mul(t2, qd);
    let t5 = fx_mul(t3, t2);
    let t7 = fx_mul(t5, t2);
    let s = sat_sub(sat_add(sat_sub(qd, t3 / 6), t5 / 120), t7 / 5040);
    proof {
        assert(t3 / 6 == tz(t3 as int, 6));
        assert(t5 / 120 == tz(t5 as int, 120));
        assert(t7 / 5040 == tz(t7 as int, 5040));
    }
    if neg {
        sat_neg(s)
    } else {
        s
    }
}

pub fn cos_fx(x: i64) -> (r: i64)
    ensures
        r == cos_fx_spec(x as int),
{
    sin_fx(sat_add(x, HALF_PI_FX))
}

/// Saturating addition of two scalars.
pub fn sat_add(a: i64, b: i64) -> (r: i64)
    ensures
        r == sat64(a + b),
{
    let s: i128 = (a as i128) + (b as i128);
    if s > i64::MAX as i128 {
        i64::MAX
    } else if s < i64::MIN as i128 {
        i64::MIN
    } else {
        s as i64
    }
}

/// Saturating subtraction of two scalars.
pub fn sat_sub(a: i64, b: i64) -> (r: i64)
    ensures
        r == sat64(a - b),
{
    let s: i128 = (a as i128) - (b as i128);
    if s > i64::MAX as i128 {
        i64::MAX
    } else if s < i64::MIN as i128 {
        i64::MIN
    } else {
        s as i64
    }
}

/// Saturating negated sum: `-a - b`.
pub fn sat_nsub(a: i64, b: i64) -> (r: i64)
    ensures
        r == sat64(-a - b),
{
    let s: i128 = -(a as i128) - (b as i128);
    if s > i64::MAX as i128 {
        i64::MAX
    } else if s < i64::MIN as i128 {
        i64::MIN
    } else {
        s as i64
    }
}

/// Saturating negation of a scalar.
pub fn sat_neg(a: i64) -> (r: i64)
    ensures
        r == sat64(-a),
{
    if a == i64::MIN {
        i64::MAX
    } else {
        -a
    }
}

/// One corner's weight in a trilinear blend: `t` for the far corner and
/// `1 - t` for the near one.
pub open spec fn lerp_w(sel: int, t: int) -> int {
    if sel == 1 {
        t
    } else {
        sat64((SCALE as int) - t)
    }
}

/// One corner's contribution to a trilinear blend of scalars.
pub open spec fn tri_term(c: int, u: int, v: int, w: int, i: int, j: int, k: int) -> int {
    fx_mul_spec(fx_mul_spec(fx_mul_spec(lerp_w(i, u), lerp_w(j, v)), lerp_w(k, w)), c)
}

/// The trilinear blend of the eight corner scalars with weights `u`, `v`,
/// `w`.
pub open spec fn trilinear_spec(c: [[[i64; 2]; 2]; 2], u: int, v: int, w: int) -> int {
    sadd_sp(
        sadd_sp(
            sadd_sp(
                sadd_sp(
                    sadd_sp(
                        sadd_sp(
                            sadd_sp(tri_term(c[0][0][0] as int, u, v, w, 0, 0, 0),
                                tri_term(c[0][0][1] as int, u, v, w, 0, 0, 1)),
                            tri_term(c[0][1][0] as int, u, v, w, 0, 1, 0),
                        ),
                        tri_term(c[0][1][1] as int, u, v, w, 0, 1, 1),
                    ),
                    tri_term(c[1][0][0] as int, u, v, w, 1, 0, 0),
                ),
                tri_term(c[1][0][1] as int, u, v, w, 1, 0, 1),
            ),
            tri_term(c[1][1][0] as int, u, v, w, 1, 1, 0),
        ),
        tri_term(c[1][1][1] as int, u, v, w, 1, 1, 1),
    )
}

/// One corner's contribution to a trilinear blend of scalars.
fn tri_corner(c: i64, u: i64, v: i64, w: i64, i: i64, j: i64, k: i64) -> (r: i64)
    requires
        i == 0 || i == 1,
        j == 0 || j == 1,
        k == 0 || k == 1,
    ensures
        r == tri_term(c as int, u as int, v as int, w as int, i as int, j as int, k as int),
{
    let wu = if i == 1 {
        u
    } else {
        sat_sub(SCALE, u)
    };
    let wv = if j == 1 {
        v
    } else {
        sat_sub(SCALE, v)
    };
    let ww = if k == 1 {
        w
    } else {
        sat_sub(SCALE, w)
    };
    fx_mul(fx_mul(fx_mul(wu, wv), ww), c)
}

/// Blend the eight corner scalars of a lattice cell trilinearly.
pub fn trilinear_interp(c: &[[[i64; 2]; 2]; 2], u: i64, v: i64, w: i64) -> (r: i64)
    ensures
        r == trilinear_spec(*c, u as int, v as int, w as int),
{
    let mut accum = tri_corner(c[0][0][0], u, v, w, 0, 0, 0);
    accum = sat_add(accum, tri_corner(c[0][0][1], u, v, w, 0, 0, 1));
    accum = sat_add(accum, tri_corner(c[0][1][0], u, v, w, 0, 1, 0));
    accum = sat_add(accum, tri_corner(c[0][1][1], u, v, w, 0, 1, 1));
    accum = sat_add(accum, tri_corner(c[1][0][0], u, v, w, 1, 0, 0));
    accum = sat_add(accum, tri_corner(c[1][0][1], u, v, w, 1, 0, 1));
    accum = sat_add(accum, tri_corner(c[1][1][0], u, v, w, 1, 1, 0));
    accum = sat_add(accum, tri_corner(c[1][1][1], u, v, w, 1, 1, 1));
    accum
}

/// The larger of two scalars.
pub fn fmax(a: i64, b: i64) -> (r: i64)
    ensures
        r == if b <= a { a as int } else { b as int },
{
    if b <= a {
        a
    } else {
        b
    }
}

/// The smaller of two scalars.
pub fn fmin(a: i64, b: i64) -> (r: i64)
    ensures
        r == if b >= a { a as int } else { b as int },
{
    if b >= a {
        a
    } else {
        b
    }
}

} // verus!
