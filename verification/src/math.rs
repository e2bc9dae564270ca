//! Fixed-point arithmetic: scalars carry six decimal places in an `i64`.

use vstd::prelude::*;
use vstd::arithmetic::div_mod::{
    lemma_fundamental_div_mod, lemma_fundamental_div_mod_converse, lemma_div_is_ordered,
    lemma_div_is_ordered_by_denominator, lemma_div_pos_is_pos, lemma_div_multiples_vanish,
    lemma_mod_bound,
};
use vstd::arithmetic::mul::{lemma_mul_inequality, lemma_mul_nonnegative};

verus! {

/// One unit (of length, speed or angle) in fixed-point representation.
pub const SCALE: i64 = 1_000_000;

/// Largest magnitude the library's contracts admit for a coordinate,
/// velocity component or impulse component: one million units. Keeping
/// operands inside this bound keeps every intermediate product inside
/// an `i128`.
pub const COORD_LIMIT: i64 = 1_000_000_000_000;

/// Quotient of `a / d` rounded toward zero, the way Rust's integer
/// division rounds (spec-level `/` rounds toward negative infinity).
pub open spec fn trunc_div(a: int, d: int) -> int {
    if a >= 0 {
        a / d
    } else {
        -((-a) / d)
    }
}

/// `a * b / SCALE` rounded toward zero: the product of two fixed-point values.
pub open spec fn mul_fx(a: int, b: int) -> int {
    trunc_div(a * b, SCALE as int)
}

/// Magnitude of an integer.
pub open spec fn abs(a: int) -> int {
    if a >= 0 {
        a
    } else {
        -a
    }
}

/// Linear interpolation from `a` toward `b` by the fixed-point
/// fraction `t` (`t == SCALE` reaches `b` exactly).
pub open spec fn lerp_fx(a: int, b: int, t: int) -> int {
    a + mul_fx(b - a, t)
}

/// `a / d` rounded toward zero, computed on magnitudes so that the
/// executable division only ever sees non-negative operands.
pub fn div_trunc_i128(a: i128, d: i128) -> (r: i128)
    requires
        0 < d,
        i128::MIN < a,
    ensures
        r == trunc_div(a as int, d as int),
        abs(r as int) <= abs(a as int),
        abs(r as int) == abs(a as int) / (d as int),
        a >= 0 ==> r >= 0,
        a <= 0 ==> r <= 0,
{
    if a >= 0 {
        let q: u128 = (a as u128) / (d as u128);
        proof {
            lemma_div_is_ordered_by_denominator(a as int, 1, d as int);
            lemma_div_pos_is_pos(a as int, d as int);
        }
        q as i128
    } else {
        let m: i128 = -a;
        let q: u128 = (m as u128) / (d as u128);
        proof {
            lemma_div_is_ordered_by_denominator(m as int, 1, d as int);
            lemma_div_pos_is_pos(m as int, d as int);
        }
        -(q as i128)
    }
}

/// `a % d` in the mathematical (Euclidean) sense, computed on
/// magnitudes so that the executable remainder only ever sees
/// non-negative operands.
pub fn euclid_mod_i128(a: i128, d: i128) -> (r: i128)
    requires
        0 < d,
        i128::MIN < a,
    ensures
        r == (a as int) % (d as int),
        0 <= r < d,
{
    if a >= 0 {
        let r: u128 = (a as u128) % (d as u128);
        proof {
            lemma_mod_bound(a as int, d as int);
        }
        r as i128
    } else {
        let m: i128 = -a;
        let r0: u128 = (m as u128) % (d as u128);
        proof {
            lemma_mod_bound(m as int, d as int);
            lemma_fundamental_div_mod(m as int, d as int);
            let q = (m as int) / (d as int);
            if r0 == 0 {
                // a is an exact multiple of d.
                assert(a as int == (-q) * (d as int) + 0) by (nonlinear_arith)
                    requires
                        m as int == (d as int) * q + 0,
                        a == -m,
                ;
                lemma_fundamental_div_mod_converse(a as int, d as int, -q, 0);
            } else {
                assert(a as int == (-q - 1) * (d as int) + ((d as int) - r0)) by (nonlinear_arith)
                    requires
                        m as int == (d as int) * q + r0,
                        a == -m,
                ;
                lemma_fundamental_div_mod_converse(
                    a as int,
                    d as int,
                    -q - 1,
                    (d as int) - r0 as int,
                );
            }
        }
        if r0 == 0 {
            0
        } else {
            d - (r0 as i128)
        }
    }
}

/// Scaling by a fraction of at most one never grows a value: the heart
/// of the smoothing step's stability.
pub proof fn lemma_mul_frac_le(x: int, t: int)
    requires
        0 <= t <= SCALE,
    ensures
        abs(mul_fx(x, t)) <= abs(x),
        x >= 0 ==> 0 <= mul_fx(x, t) <= x,
        x <= 0 ==> x <= mul_fx(x, t) <= 0,
        t == SCALE ==> mul_fx(x, t) == x,
{
    let s = SCALE as int;
    if x >= 0 {
        lemma_mul_inequality(t, s, x);
        assert(x * t == t * x) by (nonlinear_arith);
        assert(x * s == s * x) by (nonlinear_arith);
        assert(x * t >= 0) by (nonlinear_arith)
            requires
                x >= 0,
                t >= 0,
        ;
        lemma_div_is_ordered(x * t, x * s, s);
        lemma_div_multiples_vanish(x, s);
        lemma_div_pos_is_pos(x * t, s);
    } else {
        let y = -x;
        lemma_mul_inequality(t, s, y);
        assert(y * t == t * y) by (nonlinear_arith);
        assert(y * s == s * y) by (nonlinear_arith);
        assert(y * t >= 0) by (nonlinear_arith)
            requires
                y >= 0,
                t >= 0,
        ;
        assert(x * t == -(y * t)) by (nonlinear_arith)
            requires
                y == -x,
        ;
        lemma_div_is_ordered(y * t, y * s, s);
        lemma_div_multiples_vanish(y, s);
        lemma_div_pos_is_pos(y * t, s);
    }
}

/// Squares respect order on magnitudes.
pub proof fn lemma_sq_le(a: int, b: int)
    by (nonlinear_arith)
    requires
        0 <= a <= b,
    ensures
        a * a <= b * b,
{
}

/// A fixed-point product of bounded factors is bounded: the truncated
/// quotient times the scale never exceeds the product of the bounds,
/// and non-negative factors give a non-negative product.
pub proof fn lemma_mul_fx_bound(a: int, k: int, ba: int, bk: int)
    requires
        abs(a) <= ba,
        abs(k) <= bk,
    ensures
        abs(mul_fx(a, k)) * SCALE <= ba * bk,
        a >= 0 && k >= 0 ==> mul_fx(a, k) >= 0,
{
    let s = SCALE as int;
    let p = a * k;
    let aa = abs(a);
    let kk = abs(k);
    assert(p == aa * kk || -p == aa * kk) by (nonlinear_arith)
        requires
            p == a * k,
            aa == a || aa == -a,
            kk == k || kk == -k,
    ;
    assert(aa * kk >= 0) by (nonlinear_arith)
        requires
            aa >= 0,
            kk >= 0,
    ;
    assert(aa * kk <= ba * bk) by (nonlinear_arith)
        requires
            0 <= aa <= ba,
            0 <= kk <= bk,
    ;
    if p >= 0 {
        lemma_div_pos_is_pos(p, s);
        lemma_fundamental_div_mod(p, s);
        lemma_mod_bound(p, s);
        assert(s * (p / s) == (p / s) * s) by (nonlinear_arith);
    } else {
        lemma_div_pos_is_pos(-p, s);
        lemma_fundamental_div_mod(-p, s);
        lemma_mod_bound(-p, s);
        assert(s * ((-p) / s) == ((-p) / s) * s) by (nonlinear_arith);
    }
}

/// A three-component fixed-point vector.
#[derive(Clone, Copy, PartialEq, Eq, Structural, Debug)]
pub struct Vec3Fx {
    pub x: i64,
    pub y: i64,
    pub z: i64,
}

/// Squared length of a vector, exact.
pub open spec fn len2(x: int, y: int, z: int) -> int {
    x * x + y * y + z * z
}

/// A vector from spec-level components (which must fit an `i64`).
pub open spec fn vec3_of(x: int, y: int, z: int) -> Vec3Fx {
    Vec3Fx { x: x as i64, y: y as i64, z: z as i64 }
}

/// Every component inside `[-m, m]`.
pub open spec fn vec_bounded(v: Vec3Fx, m: int) -> bool {
    abs(v.x as int) <= m && abs(v.y as int) <= m && abs(v.z as int) <= m
}

impl Vec3Fx {
    /// The zero vector.
    pub fn zero() -> (r: Vec3Fx)
        ensures
            r == (Vec3Fx { x: 0, y: 0, z: 0 }),
    {
        Vec3Fx { x: 0, y: 0, z: 0 }
    }

    pub open spec fn spec_len2(self) -> int {
        len2(self.x as int, self.y as int, self.z as int)
    }

    /// Componentwise sum.
    pub fn plus(self, o: Vec3Fx) -> (r: Vec3Fx)
        requires
            abs(self.x + o.x) <= i64::MAX,
            abs(self.y + o.y) <= i64::MAX,
            abs(self.z + o.z) <= i64::MAX,
        ensures
            r.x == self.x + o.x,
            r.y == self.y + o.y,
            r.z == self.z + o.z,
    {
        Vec3Fx { x: self.x + o.x, y: self.y + o.y, z: self.z + o.z }
    }

    /// Componentwise difference.
    pub fn minus(self, o: Vec3Fx) -> (r: Vec3Fx)
        requires
            abs(self.x - o.x) <= i64::MAX,
            abs(self.y - o.y) <= i64::MAX,
            abs(self.z - o.z) <= i64::MAX,
        ensures
            r.x == self.x - o.x,
            r.y == self.y - o.y,
            r.z == self.z - o.z,
    {
        Vec3Fx { x: self.x - o.x, y: self.y - o.y, z: self.z - o.z }
    }

    /// Componentwise product with a fixed-point scalar.
    pub fn scaled(self, k: i64) -> (r: Vec3Fx)
        requires
            vec_bounded(self, COORD_LIMIT as int),
            abs(k as int) <= COORD_LIMIT,
        ensures
            r.x == mul_fx(self.x as int, k as int),
            r.y == mul_fx(self.y as int, k as int),
            r.z == mul_fx(self.z as int, k as int),
    {
        Vec3Fx {
            x: mul_fx_exec(self.x, k),
            y: mul_fx_exec(self.y, k),
            z: mul_fx_exec(self.z, k),
        }
    }
}

/// Fixed-point product of two bounded scalars.
pub fn mul_fx_exec(a: i64, k: i64) -> (r: i64)
    requires
        abs(a as int) <= COORD_LIMIT,
        abs(k as int) <= COORD_LIMIT,
    ensures
        r == mul_fx(a as int, k as int),
{
    let ai: i128 = a as i128;
    let ki: i128 = k as i128;
    proof {
        assert(abs(ai * ki) <= 1_000_000_000_000_000_000_000_000) by (nonlinear_arith)
            requires
                abs(ai as int) <= 1_000_000_000_000,
                abs(ki as int) <= 1_000_000_000_000,
        ;
    }
    let p: i128 = ai * ki;
    let q: i128 = div_trunc_i128(p, SCALE as i128);
    proof {
        lemma_div_is_ordered(
            abs(p as int),
            1_000_000_000_000_000_000_000_000,
            SCALE as int,
        );
    }
    q as i64
}

/// Componentwise linear interpolation by a fixed-point fraction.
pub fn lerp_vec(a: Vec3Fx, b: Vec3Fx, t: i64) -> (r: Vec3Fx)
    requires
        0 <= t <= SCALE,
        vec_bounded(a, COORD_LIMIT as int),
        vec_bounded(b, COORD_LIMIT as int),
    ensures
        r.x == lerp_fx(a.x as int, b.x as int, t as int),
        r.y == lerp_fx(a.y as int, b.y as int, t as int),
        r.z == lerp_fx(a.z as int, b.z as int, t as int),
        vec_bounded(r, COORD_LIMIT as int),
        abs(r.x as int) <= abs(a.x as int) || abs(r.x as int) <= abs(b.x as int),
        abs(r.y as int) <= abs(a.y as int) || abs(r.y as int) <= abs(b.y as int),
        abs(r.z as int) <= abs(a.z as int) || abs(r.z as int) <= abs(b.z as int),
{
    Vec3Fx {
        x: lerp_comp(a.x, b.x, t),
        y: lerp_comp(a.y, b.y, t),
        z: lerp_comp(a.z, b.z, t),
    }
}

/// One component of the interpolation: `a + (b - a) * t / SCALE`.
fn lerp_comp(a: i64, b: i64, t: i64) -> (r: i64)
    requires
        0 <= t <= SCALE,
        abs(a as int) <= COORD_LIMIT,
        abs(b as int) <= COORD_LIMIT,
    ensures
        r == lerp_fx(a as int, b as int, t as int),
        abs(r as int) <= COORD_LIMIT,
        a <= b ==> a <= r <= b,
        b <= a ==> b <= r <= a,
        abs(r as int) <= abs(a as int) || abs(r as int) <= abs(b as int),
{
    let d: i64 = b - a;
    let di: i128 = d as i128;
    let ti: i128 = t as i128;
    proof {
        assert(abs(di * ti) <= 2_000_000_000_000_000_000) by (nonlinear_arith)
            requires
                abs(di as int) <= 2_000_000_000_000,
                0 <= ti <= 1_000_000,
        ;
    }
    let p: i128 = di * ti;
    let q: i128 = div_trunc_i128(p, SCALE as i128);
    proof {
        lemma_mul_frac_le(d as int, t as int);
        assert(p == (d as int) * (t as int));
    }
    a + (q as i64)
}

/// What it means to be the least integer whose square reaches `n`.
pub open spec fn is_sqrt_up(n: int, s: int) -> bool {
    &&& 0 <= s
    &&& s * s >= n
    &&& (s >= 1 ==> (s - 1) * (s - 1) < n)
}

/// The ceiling square root: the least integer whose square reaches `n`.
pub open spec fn sqrt_up(n: int) -> int {
    choose|s: int| is_sqrt_up(n, s)
}

/// The ceiling square root is unique, so the chosen value is the one
/// any witness exhibits.
pub proof fn lemma_sqrt_up_unique(n: int, a: int, b: int)
    requires
        is_sqrt_up(n, a),
        is_sqrt_up(n, b),
    ensures
        a == b,
{
    if a < b {
        lemma_sq_le(a, b - 1);
        assert(false);
    }
    if b < a {
        lemma_sq_le(b, a - 1);
        assert(false);
    }
}

/// Least integer whose square is at least `n`, by binary search.
pub fn isqrt_up(n: u128) -> (r: u128)
    requires
        n <= 400_000_000_000_000_000_000_000_000,
    ensures
        r * r >= n,
        r >= 1 ==> (r - 1) * (r - 1) < n,
        r <= 20_000_000_000_000,
        r == sqrt_up(n as int),
{
    let mut lo: u128 = 0;
    let mut hi: u128 = 20_000_000_000_000;
    assert(hi * hi >= n);
    while lo < hi
        invariant
            lo <= hi,
            hi <= 20_000_000_000_000,
            hi * hi >= n,
            lo >= 1 ==> (lo - 1) * (lo - 1) < n,
        decreases hi - lo,
    {
        let mid: u128 = lo + (hi - lo) / 2;
        proof {
            assert(mid * mid <= 400_000_000_000_000_000_000_000_000) by (nonlinear_arith)
                requires
                    mid <= 20_000_000_000_000,
            ;
        }
        if mid * mid >= n {
            hi = mid;
        } else {
            lo = mid + 1;
        }
    }
    proof {
        assert(is_sqrt_up(n as int, lo as int));
        assert(is_sqrt_up(n as int, sqrt_up(n as int)));
        lemma_sqrt_up_unique(n as int, lo as int, sqrt_up(n as int));
    }
    lo
}

/// Squared length of a bounded vector, exact and non-negative.
pub fn len2_exec(v: Vec3Fx) -> (r: i128)
    requires
        vec_bounded(v, 2 * COORD_LIMIT),
    ensures
        r == v.spec_len2(),
        0 <= r <= 12_000_000_000_000_000_000_000_000,
{
    let x: i128 = v.x as i128;
    let y: i128 = v.y as i128;
    let z: i128 = v.z as i128;
    proof {
        assert(0 <= x * x <= 4_000_000_000_000_000_000_000_000) by (nonlinear_arith)
            requires
                abs(x as int) <= 2_000_000_000_000,
        ;
        assert(0 <= y * y <= 4_000_000_000_000_000_000_000_000) by (nonlinear_arith)
            requires
                abs(y as int) <= 2_000_000_000_000,
        ;
        assert(0 <= z * z <= 4_000_000_000_000_000_000_000_000) by (nonlinear_arith)
            requires
                abs(z as int) <= 2_000_000_000_000,
        ;
    }
    x * x + y * y + z * z
}

/// A square equals the square of the magnitude, and is never negative.
pub proof fn lemma_abs_sq(a: int)
    ensures
        a * a == abs(a) * abs(a),
        a * a >= 0,
{
    if a >= 0 {
        lemma_mul_nonnegative(a, a);
    } else {
        assert(a * a == (-a) * (-a)) by (nonlinear_arith);
        lemma_mul_nonnegative(-a, -a);
    }
}

/// Scaled components of bounded magnitude stay inside the clamp radius.
proof fn lemma_clamped_len(qx: int, qy: int, qz: int, ax: int, ay: int, az: int, m: int, s: int)
    requires
        s >= 1,
        m >= 0,
        qx >= 0,
        qy >= 0,
        qz >= 0,
        ax >= 0,
        ay >= 0,
        az >= 0,
        qx * s <= ax * m,
        qy * s <= ay * m,
        qz * s <= az * m,
        ax * ax + ay * ay + az * az <= s * s,
    ensures
        qx * qx + qy * qy + qz * qz <= m * m,
{
    lemma_mul_nonnegative(qx, s);
    lemma_mul_nonnegative(qy, s);
    lemma_mul_nonnegative(qz, s);
    lemma_sq_le(qx * s, ax * m);
    lemma_sq_le(qy * s, ay * m);
    lemma_sq_le(qz * s, az * m);
    let s2 = s * s;
    let m2 = m * m;
    assert((qx * s) * (qx * s) == (qx * qx) * s2) by (nonlinear_arith)
        requires
            s2 == s * s,
    ;
    assert((qy * s) * (qy * s) == (qy * qy) * s2) by (nonlinear_arith)
        requires
            s2 == s * s,
    ;
    assert((qz * s) * (qz * s) == (qz * qz) * s2) by (nonlinear_arith)
        requires
            s2 == s * s,
    ;
    assert((ax * m) * (ax * m) == (ax * ax) * m2) by (nonlinear_arith)
        requires
            m2 == m * m,
    ;
    assert((ay * m) * (ay * m) == (ay * ay) * m2) by (nonlinear_arith)
        requires
            m2 == m * m,
    ;
    assert((az * m) * (az * m) == (az * az) * m2) by (nonlinear_arith)
        requires
            m2 == m * m,
    ;
    let qq = qx * qx + qy * qy + qz * qz;
    let aa = ax * ax + ay * ay + az * az;
    assert(qq * s2 <= aa * m2) by (nonlinear_arith)
        requires
            (qx * qx) * s2 <= (ax * ax) * m2,
            (qy * qy) * s2 <= (ay * ay) * m2,
            (qz * qz) * s2 <= (az * az) * m2,
            qq == qx * qx + qy * qy + qz * qz,
            aa == ax * ax + ay * ay + az * az,
    ;
    assert(aa * m2 <= s2 * m2) by (nonlinear_arith)
        requires
            aa <= s2,
            m2 >= 0,
    ;
    assert(s2 >= 1) by (nonlinear_arith)
        requires
            s >= 1,
            s2 == s * s,
    ;
    assert(qq <= m2) by (nonlinear_arith)
        requires
            qq * s2 <= s2 * m2,
            s2 >= 1,
    ;
}

/// Shrink `v` to squared length at most `m * m`, leaving it unchanged
/// when it is already short enough. The clamped vector keeps each
/// component's sign and never grows a component's magnitude.
pub fn clamp_length_max(v: Vec3Fx, m: i64) -> (r: Vec3Fx)
    requires
        0 <= m <= COORD_LIMIT,
        vec_bounded(v, 2 * COORD_LIMIT),
    ensures
        v.spec_len2() <= m * m ==> r == v,
        v.spec_len2() > m * m ==> ({
            let s = sqrt_up(v.spec_len2());
            &&& r.x == trunc_div(v.x * m, s)
            &&& r.y == trunc_div(v.y * m, s)
            &&& r.z == trunc_div(v.z * m, s)
        }),
        r.spec_len2() <= m * m,
        abs(r.x as int) <= abs(v.x as int),
        abs(r.y as int) <= abs(v.y as int),
        abs(r.z as int) <= abs(v.z as int),
        r.x * v.x >= 0,
        r.y * v.y >= 0,
        r.z * v.z >= 0,
{
    let l2: i128 = len2_exec(v);
    let mi: i128 = m as i128;
    proof {
        assert(0 <= mi * mi <= 1_000_000_000_000_000_000_000_000) by (nonlinear_arith)
            requires
                0 <= mi <= 1_000_000_000_000,
        ;
    }
    if l2 <= mi * mi {
        proof {
            lemma_abs_sq(v.x as int);
            lemma_abs_sq(v.y as int);
            lemma_abs_sq(v.z as int);
        }
        v
    } else {
        let s: u128 = isqrt_up(l2 as u128);
        proof {
            if s == 0 {
                assert(s * s == 0) by (nonlinear_arith)
                    requires
                        s == 0,
                ;
                assert(l2 as u128 == 0);
                assert(false);
            }
            // s exceeds m, so each scaled component shrinks.
            if s <= mi {
                lemma_sq_le(s as int, mi as int);
            }
        }
        let si: i128 = s as i128;
        let rx: i128 = scale_to_radius(v.x, m, si);
        let ry: i128 = scale_to_radius(v.y, m, si);
        let rz: i128 = scale_to_radius(v.z, m, si);
        proof {
            lemma_abs_sq(v.x as int);
            lemma_abs_sq(v.y as int);
            lemma_abs_sq(v.z as int);
            lemma_clamped_len(
                abs(rx as int),
                abs(ry as int),
                abs(rz as int),
                abs(v.x as int),
                abs(v.y as int),
                abs(v.z as int),
                m as int,
                si as int,
            );
            lemma_abs_sq(rx as int);
            lemma_abs_sq(ry as int);
            lemma_abs_sq(rz as int);
        }
        Vec3Fx { x: rx as i64, y: ry as i64, z: rz as i64 }
    }
}

/// One component of the clamped vector: `c * m / s`, rounded toward zero.
fn scale_to_radius(c: i64, m: i64, si: i128) -> (r: i128)
    requires
        abs(c as int) <= 2 * COORD_LIMIT,
        0 <= m <= COORD_LIMIT,
        m < si,
    ensures
        r == trunc_div((c as int) * (m as int), si as int),
        abs(r as int) * si <= abs(c as int) * (m as int),
        abs(r as int) <= abs(c as int),
        r * c >= 0,
        abs(r as int) == abs(c as int) * (m as int) / (si as int),
{
    let ci: i128 = c as i128;
    let mi: i128 = m as i128;
    proof {
        assert(abs(ci * mi) <= 2_000_000_000_000_000_000_000_000 && abs(ci * mi) == abs(ci as int)
            * (mi as int)) by (nonlinear_arith)
            requires
                abs(ci as int) <= 2_000_000_000_000,
                0 <= mi <= 1_000_000_000_000,
        ;
    }
    let r: i128 = div_trunc_i128(ci * mi, si);
    proof {
        let a = abs(c as int);
        // The division's quotient times the divisor never exceeds the dividend.
        lemma_fundamental_div_mod(a * (m as int), si as int);
        lemma_mod_bound(a * (m as int), si as int);
        lemma_mul_nonnegative(a * (m as int) / (si as int), si as int);
        assert((si as int) * (a * (m as int) / (si as int)) == (a * (m as int) / (si as int)) * (
        si as int)) by (nonlinear_arith);
        // Dividing by something larger than m shrinks the component.
        lemma_mul_inequality(m as int, si as int, a);
        assert(a * (m as int) == (m as int) * a && a * (si as int) == (si as int) * a)
            by (nonlinear_arith);
        lemma_div_is_ordered(a * (m as int), a * (si as int), si as int);
        lemma_div_multiples_vanish(a, si as int);
        // Sign bookkeeping: the result's sign follows the component's.
        if c >= 0 {
            lemma_mul_nonnegative(ci as int, mi as int);
            lemma_mul_nonnegative(r as int, c as int);
        } else {
            assert(ci * mi <= 0) by (nonlinear_arith)
                requires
                    ci < 0,
                    mi >= 0,
            ;
            assert(r * c >= 0) by (nonlinear_arith)
                requires
                    r <= 0,
                    c < 0,
            ;
        }
    }
    r
}

} // verus!
