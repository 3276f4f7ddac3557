use vstd::prelude::*;
use vstd::seq_lib::group_to_multiset_ensures;
use rand::Rng;
use crate::geometry::numeric::{SCALE, sat64, fx_mul_spec};
use crate::geometry::vector::{Vec3, length2_spec, dot_spec, sadd};

verus! {

/// Relies on rand::Rng::gen_range over `0..n`: a draw from a non-empty
/// range lies in that range.
#[verifier::external_body]
pub fn rand_below(n: u64) -> (r: u64)
    requires
        n > 0,
    ensures
        r < n,
{
    rand::thread_rng().gen_range(0..n)
}

/// A random scalar in `[0, 1)`, in fixed-point micro-units.
pub fn rand_fixed() -> (r: i64)
    ensures
        0 <= r < SCALE,
{
    rand_below(1_000_000) as i64
}

/// A random component in `[-1, 1)`, in micro-units.
fn rand_component() -> (r: i64)
    ensures
        -SCALE <= r < SCALE,
{
    let u = rand_fixed();
    2 * u - SCALE
}

/// A random point strictly inside the unit sphere, found by rejection;
/// after a bounded number of draws the center is returned, which is inside.
pub fn random_in_unit_sphere() -> (r: Vec3)
    ensures
        length2_spec(r) < SCALE,
{
    let mut tries: u32 = 0;
    while tries < 64
        invariant
            tries <= 64,
        decreases 64 - tries,
    {
        let p = Vec3::new(rand_component(), rand_component(), rand_component());
        if p.length2() < SCALE {
            return p;
        }
        tries = tries + 1;
    }
    let origin = Vec3::new(0, 0, 0);
    proof {
        assert(length2_spec(origin) == 0);
    }
    origin
}

/// A random point strictly inside the unit disk of the xy-plane.
pub fn random_in_unit_disk() -> (r: Vec3)
    ensures
        length2_spec(r) < SCALE,
        r.z == 0,
{
    let mut tries: u32 = 0;
    while tries < 64
        invariant
            tries <= 64,
        decreases 64 - tries,
    {
        let p = Vec3::new(rand_component(), rand_component(), 0);
        if p.length2() < SCALE {
            return p;
        }
        tries = tries + 1;
    }
    let origin = Vec3::new(0, 0, 0);
    proof {
        assert(length2_spec(origin) == 0);
    }
    origin
}

/// The lattice cell that `x` falls in: the floor of `x` in whole units.
pub open spec fn lat_i(x: int) -> int {
    let q = crate::geometry::numeric::tz(x, SCALE as int);
    if x - q * (SCALE as int) < 0 {
        q - 1
    } else {
        q
    }
}

/// The fractional offset of `x` within its lattice cell, in `[0, SCALE)`.
pub open spec fn lat_f(x: int) -> int {
    x - lat_i(x) * (SCALE as int)
}

/// Split a coordinate into its lattice cell and fractional offset.
fn lattice(x: i64) -> (r: (i64, i64))
    ensures
        r.0 == lat_i(x as int),
        r.1 == lat_f(x as int),
        0 <= r.1 < SCALE,
{
    let q = x / SCALE;
    let rem = x - q * SCALE;
    if rem < 0 {
        (q - 1, rem + SCALE)
    } else {
        (q, rem)
    }
}

/// The 256-entry tables of the noise generator: three shuffled index
/// tables, a table of unit-length gradient vectors, and a table of plain
/// random scalars.
pub struct Perlin {
    pub ranvec: Vec<Vec3>,
    pub ranfloat: Vec<i64>,
    pub perm_x: Vec<usize>,
    pub perm_y: Vec<usize>,
    pub perm_z: Vec<usize>,
}

/// All five tables have 256 entries and the index tables stay below 256.
pub open spec fn perlin_wf(pl: Perlin) -> bool {
    pl.ranvec@.len() == 256 && pl.ranfloat@.len() == 256 && pl.perm_x@.len() == 256
        && pl.perm_y@.len() == 256 && pl.perm_z@.len() == 256
        && (forall|i: int| 0 <= i < 256 ==> (#[trigger] pl.perm_x@[i]) < 256)
        && (forall|i: int| 0 <= i < 256 ==> (#[trigger] pl.perm_y@[i]) < 256)
        && (forall|i: int| 0 <= i < 256 ==> (#[trigger] pl.perm_z@[i]) < 256)
}

/// The gradient vector of the lattice corner `(i+di, j+dj, k+dk)`: one
/// shuffled index table per axis, folded together by exclusive or.
pub open spec fn corner_vec_spec(pl: Perlin, i: int, j: int, k: int, di: int, dj: int,
    dk: int) -> Vec3 {
    let xi = ((i + di) as i64 & 255) as int;
    let yi = ((j + dj) as i64 & 255) as int;
    let zi = ((k + dk) as i64 & 255) as int;
    let gi = (pl.perm_x@[xi] as u64 ^ pl.perm_y@[yi] as u64 ^ pl.perm_z@[zi] as u64) as int;
    pl.ranvec@[gi]
}

/// One corner's contribution to the trilinear Hermite blend: the product
/// of the per-axis weights and the dot product of the corner's gradient
/// with the offset to that corner.
pub open spec fn corner_term_spec(c: Vec3, uf: int, vf: int, wf: int, uu: int, vv: int,
    ww: int, di: int, dj: int, dk: int) -> int {
    let wx = if di == 1 {
        uu
    } else {
        sat64((SCALE as int) - uu)
    };
    let wy = if dj == 1 {
        vv
    } else {
        sat64((SCALE as int) - vv)
    };
    let wz = if dk == 1 {
        ww
    } else {
        sat64((SCALE as int) - ww)
    };
    let weight = Vec3 {
        x: (uf - di * (SCALE as int)) as i64,
        y: (vf - dj * (SCALE as int)) as i64,
        z: (wf - dk * (SCALE as int)) as i64,
    };
    fx_mul_spec(fx_mul_spec(fx_mul_spec(wx, wy), wz), dot_spec(c, weight))
}

/// The Hermite smoothing weight `t*t*(3 - 2*t)`.
pub open spec fn hermite_spec(t: int) -> int {
    fx_mul_spec(fx_mul_spec(t, t), sat64(3 * (SCALE as int) - fx_mul_spec(2 * (SCALE as int),
        t)))
}

/// The noise value at `p`: the eight corners of `p`'s lattice cell are
/// blended with Hermite weights of the fractional offsets.
pub open spec fn perlin_noise_spec(pl: Perlin, p: Vec3) -> int {
    let i = lat_i(p.x as int);
    let j = lat_i(p.y as int);
    let k = lat_i(p.z as int);
    let uf = lat_f(p.x as int);
    let vf = lat_f(p.y as int);
    let wf = lat_f(p.z as int);
    let uu = hermite_spec(uf);
    let vv = hermite_spec(vf);
    let ww = hermite_spec(wf);
    let t0 = corner_term_spec(corner_vec_spec(pl, i, j, k, 0, 0, 0), uf, vf, wf, uu, vv, ww, 0,
        0, 0);
    let t1 = corner_term_spec(corner_vec_spec(pl, i, j, k, 0, 0, 1), uf, vf, wf, uu, vv, ww, 0,
        0, 1);
    let t2 = corner_term_spec(corner_vec_spec(pl, i, j, k, 0, 1, 0), uf, vf, wf, uu, vv, ww, 0,
        1, 0);
    let t3 = corner_term_spec(corner_vec_spec(pl, i, j, k, 0, 1, 1), uf, vf, wf, uu, vv, ww, 0,
        1, 1);
    let t4 = corner_term_spec(corner_vec_spec(pl, i, j, k, 1, 0, 0), uf, vf, wf, uu, vv, ww, 1,
        0, 0);
    let t5 = corner_term_spec(corner_vec_spec(pl, i, j, k, 1, 0, 1), uf, vf, wf, uu, vv, ww, 1,
        0, 1);
    let t6 = corner_term_spec(corner_vec_spec(pl, i, j, k, 1, 1, 0), uf, vf, wf, uu, vv, ww, 1,
        1, 0);
    let t7 = corner_term_spec(corner_vec_spec(pl, i, j, k, 1, 1, 1), uf, vf, wf, uu, vv, ww, 1,
        1, 1);
    sadd(sadd(sadd(sadd(sadd(sadd(sadd(t0, t1), t2), t3), t4), t5), t6), t7)
}

/// The running state of the turbulence sum after `n` octaves: the sum so
/// far, the weight of the next octave, and the next sample point.
pub open spec fn turb_state(pl: Perlin, p0: Vec3, n: int) -> (int, int, Vec3)
    decreases n,
{
    if n <= 0 {
        (0, SCALE as int, p0)
    } else {
        let (a, w, q) = turb_state(pl, p0, n - 1);
        (sadd(a, fx_mul_spec(w, perlin_noise_spec(pl, q))), fx_mul_spec(w, 500_000),
            crate::geometry::vector::v3_scale(q, 2 * SCALE as int))
    }
}

/// The turbulence at `p`: the absolute value of `depth` octaves of noise,
/// each at twice the frequency and half the weight of the last.
pub open spec fn turb_spec(pl: Perlin, p: Vec3, depth: int) -> int {
    let a = turb_state(pl, p, depth).0;
    if a < 0 {
        sat64(-a)
    } else {
        a
    }
}

fn corner_term(c: Vec3, uf: i64, vf: i64, wf: i64, uu: i64, vv: i64, ww: i64, di: i64,
    dj: i64, dk: i64) -> (r: i64)
    requires
        di == 0 || di == 1,
        dj == 0 || dj == 1,
        dk == 0 || dk == 1,
        0 <= uf < SCALE,
        0 <= vf < SCALE,
        0 <= wf < SCALE,
    ensures
        r == corner_term_spec(c, uf as int, vf as int, wf as int, uu as int, vv as int,
            ww as int, di as int, dj as int, dk as int),
{
    let wx = if di == 1 {
        uu
    } else {
        crate::geometry::numeric::sat_sub(SCALE, uu)
    };
    let wy = if dj == 1 {
        vv
    } else {
        crate::geometry::numeric::sat_sub(SCALE, vv)
    };
    let wz = if dk == 1 {
        ww
    } else {
        crate::geometry::numeric::sat_sub(SCALE, ww)
    };
    let weight = Vec3::new(uf - di * SCALE, vf - dj * SCALE, wf - dk * SCALE);
    crate::geometry::numeric::fx_mul(crate::geometry::numeric::fx_mul(
        crate::geometry::numeric::fx_mul(wx, wy), wz), crate::geometry::vector::dot(&c,
        &weight))
}

/// The Hermite smoothing weight `t*t*(3 - 2*t)`.
fn hermite(t: i64) -> (r: i64)
    ensures
        r == hermite_spec(t as int),
{
    let a = crate::geometry::numeric::fx_mul(t, t);
    let b = crate::geometry::numeric::sat_sub(3 * SCALE, crate::geometry::numeric::fx_mul(
        2 * SCALE, t));
    crate::geometry::numeric::fx_mul(a, b)
}

impl Perlin {
    /// Generate all five tables once; they are immutable afterwards.
    pub fn new() -> (r: Self)
        ensures
            perlin_wf(r),
    {
        let mut ranfloat: Vec<i64> = Vec::new();
        let mut ranvec: Vec<Vec3> = Vec::new();
        let mut perm_x: Vec<usize> = Vec::new();
        let mut perm_y: Vec<usize> = Vec::new();
        let mut perm_z: Vec<usize> = Vec::new();
        perlin_generate_f(&mut ranfloat);
        perlin_generate_v(&mut ranvec);
        perlin_generate_perm(&mut perm_x);
        perlin_generate_perm(&mut perm_y);
        perlin_generate_perm(&mut perm_z);
        Self { ranvec, ranfloat, perm_x, perm_y, perm_z }
    }

    /// The smoothed gradient noise at `p`.
    pub fn noise(&self, p: Vec3) -> (r: i64)
        requires
            perlin_wf(*self),
        ensures
            r == perlin_noise_spec(*self, p),
    {
        let (i, uf) = lattice(p.x);
        let (j, vf) = lattice(p.y);
        let (k, wf) = lattice(p.z);
        let uu = hermite(uf);
        let vv = hermite(vf);
        let ww = hermite(wf);
        let mut accum: i64 = 0;
        let mut t: i64 = 0;
        t = corner_term(self.corner(i, j, k, 0, 0, 0), uf, vf, wf, uu, vv, ww, 0, 0, 0);
        accum = t;
        t = corner_term(self.corner(i, j, k, 0, 0, 1), uf, vf, wf, uu, vv, ww, 0, 0, 1);
        accum = crate::geometry::numeric::sat_add(accum, t);
        t = corner_term(self.corner(i, j, k, 0, 1, 0), uf, vf, wf, uu, vv, ww, 0, 1, 0);
        accum = crate::geometry::numeric::sat_add(accum, t);
        t = corner_term(self.corner(i, j, k, 0, 1, 1), uf, vf, wf, uu, vv, ww, 0, 1, 1);
        accum = crate::geometry::numeric::sat_add(accum, t);
        t = corner_term(self.corner(i, j, k, 1, 0, 0), uf, vf, wf, uu, vv, ww, 1, 0, 0);
        accum = crate::geometry::numeric::sat_add(accum, t);
        t = corner_term(self.corner(i, j, k, 1, 0, 1), uf, vf, wf, uu, vv, ww, 1, 0, 1);
        accum = crate::geometry::numeric::sat_add(accum, t);
        t = corner_term(self.corner(i, j, k, 1, 1, 0), uf, vf, wf, uu, vv, ww, 1, 1, 0);
        accum = crate::geometry::numeric::sat_add(accum, t);
        t = corner_term(self.corner(i, j, k, 1, 1, 1), uf, vf, wf, uu, vv, ww, 1, 1, 1);
        accum = crate::geometry::numeric::sat_add(accum, t);
        accum
    }

    /// Fetch the gradient vector of one lattice corner.
    fn corner(&self, i: i64, j: i64, k: i64, di: i64, dj: i64, dk: i64) -> (r: Vec3)
        requires
            perlin_wf(*self),
            -0x7FFF_FFFF_FFFF_FFFE <= i < 0x7FFF_FFFF_FFFF_FFFE,
            -0x7FFF_FFFF_FFFF_FFFE <= j < 0x7FFF_FFFF_FFFF_FFFE,
            -0x7FFF_FFFF_FFFF_FFFE <= k < 0x7FFF_FFFF_FFFF_FFFE,
            di == 0 || di == 1,
            dj == 0 || dj == 1,
            dk == 0 || dk == 1,
        ensures
            r == corner_vec_spec(*self, i as int, j as int, k as int, di as int, dj as int,
                dk as int),
    {
        let si = i + di;
        let sj = j + dj;
        let sk = k + dk;
        proof {
            assert(0 <= (si & 255) < 256) by (bit_vector);
            assert(0 <= (sj & 255) < 256) by (bit_vector);
            assert(0 <= (sk & 255) < 256) by (bit_vector);
        }
        let xi = (si & 255) as usize;
        let yi = (sj & 255) as usize;
        let zi = (sk & 255) as usize;
        let gx = self.perm_x[xi] as u64;
        let gy = self.perm_y[yi] as u64;
        let gz = self.perm_z[zi] as u64;
        let gi = gx ^ gy ^ gz;
        proof {
            assert(gx < 256 && gy < 256 && gz < 256 ==> (gx ^ gy ^ gz) < 256) by (bit_vector);
        }
        self.ranvec[gi as usize]
    }

    /// The turbulence at `p`: `depth` octaves of noise summed with halving
    /// weights and doubling frequency, then taken absolute.
    pub fn turb(&self, p: Vec3, depth: i32) -> (r: i64)
        requires
            perlin_wf(*self),
        ensures
            r == turb_spec(*self, p, depth as int),
    {
        let mut accum: i64 = 0;
        let mut temp_p = p;
        let mut weight: i64 = SCALE;
        let mut i: i32 = 0;
        if depth <= 0 {
            return 0;
        }
        while i < depth
            invariant
                0 <= i <= depth,
                (accum as int, weight as int, temp_p) == turb_state(*self, p, i as int),
                perlin_wf(*self),
            decreases depth - i,
        {
            accum = crate::geometry::numeric::sat_add(accum, crate::geometry::numeric::fx_mul(
                weight, self.noise(temp_p)));
            weight = crate::geometry::numeric::fx_mul(weight, 500_000);
            temp_p = temp_p.scale(2 * SCALE);
            i = i + 1;
        }
        if accum < 0 {
            crate::geometry::numeric::sat_neg(accum)
        } else {
            accum
        }
    }
}

/// Fill the table with 256 random scalars.
fn perlin_generate_f(p: &mut Vec<i64>)
    requires
        old(p).len() == 0,
    ensures
        final(p).len() == 256,
{
    for i in 0..256usize
        invariant
            p.len() == i,
    {
        let v = rand_fixed();
        p.push(v);
    }
}

/// Fill the table with 256 random directions of unit length; a draw too
/// close to the origin to normalize falls back to the x axis.
fn perlin_generate_v(p: &mut Vec<Vec3>)
    requires
        old(p).len() == 0,
    ensures
        final(p).len() == 256,
{
    for i in 0..256usize
        invariant
            p.len() == i,
    {
        let c = Vec3::new(rand_component(), rand_component(), rand_component());
        let v = if c.length2() >= 1 {
            crate::geometry::vector::normalize(c)
        } else {
            Vec3::new(SCALE, 0, 0)
        };
        p.push(v);
    }
}

/// Swapping two positions of a sequence keeps its multiset of elements.
pub proof fn lemma_swap_to_multiset<A>(s: Seq<A>, i: int, j: int)
    requires
        0 <= i < s.len(),
        0 <= j < s.len(),
        i != j,
    ensures
        s.update(i, s[j]).update(j, s[i]).to_multiset() == s.to_multiset(),
{
    broadcast use group_to_multiset_ensures;
    broadcast use vstd::multiset::group_multiset_axioms;

    let s1 = s.update(i, s[j]);
    assert(s.contains(s[i]));
    assert(s1.contains(s1[j]));
    assert(s1[j] == s[j]);
    assert(s1.to_multiset() == s.to_multiset().insert(s[j]).remove(s[i]));
    assert(s1.update(j, s[i]).to_multiset() == s1.to_multiset().insert(s[i]).remove(s[j]));
    assert(s.to_multiset().count(s[i]) > 0);
    assert(s1.update(j, s[i]).to_multiset() =~= s.to_multiset());
}

/// A Fisher-Yates walk from the top of the table: each entry below the last
/// is swapped with a random entry at or below it.  The table afterwards
/// holds exactly the elements it held before.
pub fn permute(p: &mut Vec<usize>)
    requires
        old(p).len() >= 2,
    ensures
        final(p).len() == old(p).len(),
        final(p)@.to_multiset() == old(p)@.to_multiset(),
{
    let mut i: usize = p.len() - 2;
    while i >= 1
        invariant
            p.len() == old(p).len(),
            old(p).len() >= 2,
            i <= old(p).len() - 2,
            p@.to_multiset() == old(p)@.to_multiset(),
        decreases i,
    {
        let target = rand_below((i + 1) as u64) as usize;
        let tmp = p[i];
        let tmp2 = p[target];
        if target != i {
            proof {
                lemma_swap_to_multiset(p@, i as int, target as int);
            }
            p[i] = tmp2;
            p[target] = tmp;
        }
        i = i - 1;
    }
}

/// The identity table of size `n`.
pub open spec fn identity_table(n: int) -> Seq<usize> {
    Seq::new(n as nat, |i: int| i as usize)
}

/// Fill the empty table with 0 through 255 and shuffle it: the result is a
/// permutation of those values, so every entry is below 256.
pub fn perlin_generate_perm(p: &mut Vec<usize>)
    requires
        old(p).len() == 0,
    ensures
        final(p).len() == 256,
        final(p)@.to_multiset() == identity_table(256).to_multiset(),
        forall|i: int| 0 <= i < 256 ==> final(p)@[i] < 256,
{
    broadcast use group_to_multiset_ensures;

    for i in 0..256usize
        invariant
            p@.len() == i,
            p@ =~= identity_table(i as int),
    {
        proof {
            assert(identity_table(i + 1).drop_last() =~= identity_table(i as int));
        }
        p.push(i);
        proof {
            assert(p@ =~= identity_table(i + 1));
        }
    }
    permute(p);
    proof {
        assert forall|i: int| 0 <= i < 256 implies p@[i] < 256 by {
            assert(p@.contains(p@[i]));
            assert(p@.to_multiset().count(p@[i]) > 0);
            assert(identity_table(256).to_multiset().count(p@[i]) > 0);
            assert(identity_table(256).contains(p@[i]));
            let j = choose|j: int| 0 <= j < 256 && identity_table(256)[j] == p@[i];
            assert(p@[i] == j as usize);
        }
    }
}

} // verus!
