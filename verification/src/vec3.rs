//! Fixed-point 3-vectors and the speed-control utilities on them:
//! magnitude, normalization with the zero-input policy, and magnitude
//! clamping. These are the primitives the kinematic integrator relies on,
//! and the clamping bound proved here is what keeps a ship's speed capped.

use crate::fixed::{
    div_trunc, is_sqrt, lemma_mul_div_trunc_bound, lemma_sqrt_of_is_sqrt, lemma_sqrt_unique,
    mul_div_trunc, scale_mul_div, sqrt_of, COMP_MAX, SCALE,
};
use vstd::math::abs;
use vstd::prelude::*;

verus! {

/// A vector of three fixed-point scalars (ticks of `1 / SCALE` world units).
#[derive(Clone, Copy, PartialEq, Eq, Structural, Debug)]
pub struct Vec3 {
    pub x: i64,
    pub y: i64,
    pub z: i64,
}

/// Sum of the squared components: the squared Euclidean length in ticks.
pub open spec fn norm_sq(v: Vec3) -> int {
    v.x * v.x + v.y * v.y + v.z * v.z
}

/// Magnitude of `v` in ticks: the integer square root of `norm_sq`.
pub open spec fn mag_spec(v: Vec3) -> int {
    sqrt_of(norm_sq(v))
}

/// Every component of `v` lies in `[-b, b]`.
pub open spec fn in_bounds(v: Vec3, b: int) -> bool {
    &&& -b <= v.x <= b
    &&& -b <= v.y <= b
    &&& -b <= v.z <= b
}

/// `v` scaled by the ratio `k / m`, componentwise, rounding toward zero.
pub open spec fn scaled_vec(v: Vec3, k: int, m: int) -> Vec3 {
    Vec3 {
        x: mul_div_trunc(v.x as int, k, m) as i64,
        y: mul_div_trunc(v.y as int, k, m) as i64,
        z: mul_div_trunc(v.z as int, k, m) as i64,
    }
}

/// The unit vector of `v`, or the zero vector when the horizontal
/// components are both zero (pure-`z` input counts as no input).
pub open spec fn normalize_or_zero_spec(v: Vec3) -> Vec3 {
    if v.x == 0 && v.y == 0 {
        Vec3 { x: 0, y: 0, z: 0 }
    } else {
        scaled_vec(v, SCALE as int, mag_spec(v))
    }
}

/// `v` unchanged while its magnitude is within `max`; rescaled onto the
/// sphere of radius `max` when strictly above it.
pub open spec fn clamp_spec(v: Vec3, max: int) -> Vec3 {
    if mag_spec(v) <= max {
        v
    } else {
        scaled_vec(v, max, mag_spec(v))
    }
}

impl Vec3 {
    pub fn new(x: i64, y: i64, z: i64) -> (r: Vec3)
        ensures
            r == (Vec3 { x, y, z }),
    {
        Vec3 { x, y, z }
    }

    pub fn zero() -> (r: Vec3)
        ensures
            r == (Vec3 { x: 0i64, y: 0i64, z: 0i64 }),
    {
        Vec3 { x: 0, y: 0, z: 0 }
    }

    /// Componentwise sum.
    pub fn plus(self, o: Vec3) -> (r: Vec3)
        requires
            -0x7fff_ffff_ffff_ffff <= self.x + o.x <= 0x7fff_ffff_ffff_ffff,
            -0x7fff_ffff_ffff_ffff <= self.y + o.y <= 0x7fff_ffff_ffff_ffff,
            -0x7fff_ffff_ffff_ffff <= self.z + o.z <= 0x7fff_ffff_ffff_ffff,
        ensures
            r.x == self.x + o.x,
            r.y == self.y + o.y,
            r.z == self.z + o.z,
    {
        Vec3 { x: self.x + o.x, y: self.y + o.y, z: self.z + o.z }
    }

    /// Componentwise difference.
    pub fn minus(self, o: Vec3) -> (r: Vec3)
        requires
            -0x7fff_ffff_ffff_ffff <= self.x - o.x <= 0x7fff_ffff_ffff_ffff,
            -0x7fff_ffff_ffff_ffff <= self.y - o.y <= 0x7fff_ffff_ffff_ffff,
            -0x7fff_ffff_ffff_ffff <= self.z - o.z <= 0x7fff_ffff_ffff_ffff,
        ensures
            r.x == self.x - o.x,
            r.y == self.y - o.y,
            r.z == self.z - o.z,
    {
        Vec3 { x: self.x - o.x, y: self.y - o.y, z: self.z - o.z }
    }

    /// Magnitude in ticks.
    pub fn mag(self) -> (m: i64)
        requires
            in_bounds(self, COMP_MAX as int),
        ensures
            m == mag_spec(self),
            is_sqrt(norm_sq(self), m as int),
            0 <= m <= 2_000_000_000,
    {
        proof {
            lemma_square_bounded(self.x as int);
            lemma_square_bounded(self.y as int);
            lemma_square_bounded(self.z as int);
        }
        let s: i64 = self.x * self.x + self.y * self.y + self.z * self.z;
        let m: i64 = crate::fixed::isqrt(s);
        proof {
            assert(m * m <= s);
            assert(m <= 2_000_000_000) by (nonlinear_arith)
                requires
                    0 <= m,
                    m * m <= 3_000_000_000_000_000_000,
            ;
        }
        m
    }
}

/// The square of a scalar in `[-COMP_MAX, COMP_MAX]` stays within a third
/// of the `i64` range, so a sum of three squares cannot overflow.
proof fn lemma_square_bounded(a: int)
    requires
        -1_000_000_000 <= a <= 1_000_000_000,
    ensures
        0 <= a * a <= 1_000_000_000_000_000_000,
{
    assert(0 <= a * a <= 1_000_000_000_000_000_000) by (nonlinear_arith)
        requires
            -1_000_000_000 <= a <= 1_000_000_000,
    ;
}

/// Bound on a product from bounds on its factors.
pub proof fn lemma_mul_range(a: int, k: int, b1: int, b2: int)
    requires
        -b1 <= a <= b1,
        0 <= k <= b2,
        0 <= b1,
    ensures
        -(b1 * b2) <= a * k <= b1 * b2,
{
    assert(-(b1 * b2) <= a * k <= b1 * b2) by (nonlinear_arith)
        requires
            -b1 <= a <= b1,
            0 <= k <= b2,
            0 <= b1,
    ;
}

/// Bound on a product of two signed factors from bounds on both.
pub proof fn lemma_mul_range_signed(a: int, b: int, b1: int, b2: int)
    requires
        -b1 <= a <= b1,
        -b2 <= b <= b2,
        0 <= b1,
        0 <= b2,
    ensures
        -(b1 * b2) <= a * b <= b1 * b2,
{
    assert(-(b1 * b2) <= a * b <= b1 * b2) by (nonlinear_arith)
        requires
            -b1 <= a <= b1,
            -b2 <= b <= b2,
            0 <= b1,
            0 <= b2,
    ;
}

/// Scaling a scalar no longer than `m` by the ratio `k / m` keeps it
/// within `[-k, k]`.
proof fn lemma_scaled_component(a: int, k: int, m: int)
    requires
        1 <= m,
        0 <= k,
        abs(a) <= m,
    ensures
        abs(mul_div_trunc(a, k, m)) <= k,
{
    crate::fixed::lemma_mul_div_trunc_le(a, k, m);
}

/// Componentwise scaling of a vector by `k / m` keeps every component in
/// `[-k, k]`; in particular the scaled components fit their machine words
/// and `scaled_vec` reads back componentwise.
pub proof fn lemma_scaled_in_bounds(v: Vec3, k: int, m: int)
    requires
        is_sqrt(norm_sq(v), m),
        1 <= m,
        0 <= k <= 0x7fff_ffff_ffff_ffff,
    ensures
        in_bounds(scaled_vec(v, k, m), k),
        scaled_vec(v, k, m).x == mul_div_trunc(v.x as int, k, m),
        scaled_vec(v, k, m).y == mul_div_trunc(v.y as int, k, m),
        scaled_vec(v, k, m).z == mul_div_trunc(v.z as int, k, m),
{
    lemma_norm_sq_nonneg(v);
    lemma_sqrt_unique(norm_sq(v), m);
    lemma_component_le_mag(v);
    lemma_scaled_component(v.x as int, k, m);
    lemma_scaled_component(v.y as int, k, m);
    lemma_scaled_component(v.z as int, k, m);
}

/// Squared form of the component bound: `(a*k/m)^2 * m^2 <= a^2 * k^2`.
proof fn lemma_scaled_sq(a: int, k: int, m: int)
    requires
        1 <= m,
        0 <= k,
    ensures
        mul_div_trunc(a, k, m) * mul_div_trunc(a, k, m) * (m * m) <= (a * a) * (k * k),
{
    lemma_mul_div_trunc_bound(a, k, m);
    let q: int = mul_div_trunc(a, k, m);
    let aq: int = abs(q) as int;
    let aa: int = abs(a) as int;
    assert(aq * aq == q * q) by (nonlinear_arith)
        requires
            aq == (if q >= 0 { q } else { -q }),
    ;
    assert(aa * aa == a * a) by (nonlinear_arith)
        requires
            aa == (if a >= 0 { a } else { -a }),
    ;
    assert(q * q * (m * m) <= (a * a) * (k * k)) by (nonlinear_arith)
        requires
            aq * m <= aa * k,
            aq >= 0,
            aa >= 0,
            m >= 0,
            k >= 0,
            aq * aq == q * q,
            aa * aa == a * a,
    ;
}

/// The heart of the speed cap: scaling a vector of magnitude `m` by the
/// ratio `k / m` (with `k <= m`) yields a vector of magnitude at most `k`,
/// the rounding notwithstanding.
pub proof fn lemma_scaled_mag_le(v: Vec3, k: int, m: int)
    requires
        is_sqrt(norm_sq(v), m),
        1 <= m,
        0 <= k <= m,
        k <= 0x7fff_ffff_ffff_ffff,
    ensures
        norm_sq(scaled_vec(v, k, m)) <= k * k + 2 * k,
        mag_spec(scaled_vec(v, k, m)) <= k,
{
    let q: Vec3 = scaled_vec(v, k, m);
    lemma_scaled_in_bounds(v, k, m);
    lemma_scaled_sq(v.x as int, k, m);
    lemma_scaled_sq(v.y as int, k, m);
    lemma_scaled_sq(v.z as int, k, m);
    let nq: int = norm_sq(q);
    let nv: int = norm_sq(v);
    assert(nq * (m * m) <= nv * (k * k)) by (nonlinear_arith)
        requires
            nq == q.x * q.x + q.y * q.y + q.z * q.z,
            nv == v.x * v.x + v.y * v.y + v.z * v.z,
            q.x * q.x * (m * m) <= (v.x * v.x) * (k * k),
            q.y * q.y * (m * m) <= (v.y * v.y) * (k * k),
            q.z * q.z * (m * m) <= (v.z * v.z) * (k * k),
    ;
    assert(nq <= k * k + 2 * k) by (nonlinear_arith)
        requires
            nq * (m * m) <= nv * (k * k),
            nv < (m + 1) * (m + 1),
            nv >= 0,
            0 <= k <= m,
            1 <= m,
    ;
    lemma_norm_sq_nonneg(q);
    lemma_sqrt_of_is_sqrt(nq);
    let s: int = sqrt_of(nq);
    assert(s <= k) by (nonlinear_arith)
        requires
            s >= 0,
            s * s <= nq,
            nq <= k * k + 2 * k,
            k >= 0,
    ;
}

/// Lower counterpart of the squared component bound: the truncation loses
/// less than one tick per component, so `(a*k/m)^2 * m^2` is within one
/// `m^2` of `(|a|*k - m)^2`.
proof fn lemma_scaled_sq_lower(a: int, k: int, m: int)
    requires
        1 <= m,
        0 <= k,
    ensures
        mul_div_trunc(a, k, m) * mul_div_trunc(a, k, m) * (m * m) >= (abs(a) * k - m) * (abs(a)
            * k - m) - m * m,
{
    let aa: int = abs(a) as int;
    let q: int = mul_div_trunc(a, k, m);
    let qq: int = (aa * k) / m;
    if a >= 0 {
        assert(q == qq);
    } else {
        assert(q == -qq);
    }
    assert(q * q == qq * qq) by (nonlinear_arith)
        requires
            q == qq || q == -qq,
    ;
    assert(aa * k >= 0) by (nonlinear_arith)
        requires
            aa >= 0,
            k >= 0,
    ;
    vstd::arithmetic::div_mod::lemma_fundamental_div_mod(aa * k, m);
    vstd::arithmetic::div_mod::lemma_mod_bound(aa * k, m);
    vstd::arithmetic::div_mod::lemma_div_pos_is_pos(aa * k, m);
    let r: int = (aa * k) % m;
    assert(m * qq == aa * k - r);
    if aa * k >= m {
        assert(qq * qq * (m * m) >= (aa * k - m) * (aa * k - m)) by (nonlinear_arith)
            requires
                m * qq == aa * k - r,
                0 <= r < m,
                aa * k >= m,
                qq >= 0,
                m >= 1,
        ;
    } else {
        assert((aa * k - m) * (aa * k - m) - m * m <= 0) by (nonlinear_arith)
            requires
                0 <= aa * k < m,
        ;
        assert(qq * qq * (m * m) >= 0) by (nonlinear_arith)
            requires
                m >= 1,
        ;
    }
}

/// The componentwise absolute sum of a vector is at most `2 m + 1` for a
/// vector of magnitude `m` (a weakening of the Cauchy-Schwarz bound).
proof fn lemma_abs_sum_bound(v: Vec3, m: int)
    requires
        is_sqrt(norm_sq(v), m),
    ensures
        abs(v.x as int) + abs(v.y as int) + abs(v.z as int) <= 2 * m + 1,
{
    let ax: int = abs(v.x as int) as int;
    let ay: int = abs(v.y as int) as int;
    let az: int = abs(v.z as int) as int;
    let s: int = ax + ay + az;
    assert(s * s <= 3 * norm_sq(v)) by (nonlinear_arith)
        requires
            ax == (if v.x >= 0 { v.x as int } else { -(v.x as int) }),
            ay == (if v.y >= 0 { v.y as int } else { -(v.y as int) }),
            az == (if v.z >= 0 { v.z as int } else { -(v.z as int) }),
            s == ax + ay + az,
            norm_sq(v) == v.x * v.x + v.y * v.y + v.z * v.z,
    ;
    assert(s <= 2 * m + 1) by (nonlinear_arith)
        requires
            s >= 0,
            s * s <= 3 * norm_sq(v),
            norm_sq(v) < (m + 1) * (m + 1),
            m >= 0,
    ;
}

/// Lower counterpart of the scaling bound: scaling a vector of magnitude
/// `m` by `k / m` loses at most three ticks of magnitude to rounding.
pub proof fn lemma_scaled_mag_ge(v: Vec3, k: int, m: int)
    requires
        is_sqrt(norm_sq(v), m),
        1 <= m,
        6 <= k <= m,
        k <= 0x7fff_ffff_ffff_ffff,
    ensures
        norm_sq(scaled_vec(v, k, m)) >= k * k - 4 * k - 2,
        mag_spec(scaled_vec(v, k, m)) >= k - 3,
{
    let q: Vec3 = scaled_vec(v, k, m);
    lemma_scaled_in_bounds(v, k, m);
    lemma_scaled_sq_lower(v.x as int, k, m);
    lemma_scaled_sq_lower(v.y as int, k, m);
    lemma_scaled_sq_lower(v.z as int, k, m);
    lemma_abs_sum_bound(v, m);
    let ax: int = abs(v.x as int) as int;
    let ay: int = abs(v.y as int) as int;
    let az: int = abs(v.z as int) as int;
    let nq: int = norm_sq(q);
    let nv: int = norm_sq(v);
    assert(ax * ax == v.x * v.x) by (nonlinear_arith)
        requires
            ax == (if v.x >= 0 { v.x as int } else { -(v.x as int) }),
    ;
    assert(ay * ay == v.y * v.y) by (nonlinear_arith)
        requires
            ay == (if v.y >= 0 { v.y as int } else { -(v.y as int) }),
    ;
    assert(az * az == v.z * v.z) by (nonlinear_arith)
        requires
            az == (if v.z >= 0 { v.z as int } else { -(v.z as int) }),
    ;
    assert(q.x * q.x * (m * m) >= (v.x * v.x) * (k * k) - 2 * k * m * ax) by (nonlinear_arith)
        requires
            q.x * q.x * (m * m) >= (ax * k - m) * (ax * k - m) - m * m,
            ax * ax == v.x * v.x,
    ;
    assert(q.y * q.y * (m * m) >= (v.y * v.y) * (k * k) - 2 * k * m * ay) by (nonlinear_arith)
        requires
            q.y * q.y * (m * m) >= (ay * k - m) * (ay * k - m) - m * m,
            ay * ay == v.y * v.y,
    ;
    assert(q.z * q.z * (m * m) >= (v.z * v.z) * (k * k) - 2 * k * m * az) by (nonlinear_arith)
        requires
            q.z * q.z * (m * m) >= (az * k - m) * (az * k - m) - m * m,
            az * az == v.z * v.z,
    ;
    assert(nq * (m * m) >= (k * k) * nv - 2 * k * m * (ax + ay + az)) by (nonlinear_arith)
        requires
            nq == q.x * q.x + q.y * q.y + q.z * q.z,
            nv == v.x * v.x + v.y * v.y + v.z * v.z,
            q.x * q.x * (m * m) >= (v.x * v.x) * (k * k) - 2 * k * m * ax,
            q.y * q.y * (m * m) >= (v.y * v.y) * (k * k) - 2 * k * m * ay,
            q.z * q.z * (m * m) >= (v.z * v.z) * (k * k) - 2 * k * m * az,
    ;
    assert(nq >= k * k - 4 * k - 2) by (nonlinear_arith)
        requires
            nq * (m * m) >= (k * k) * nv - 2 * k * m * (ax + ay + az),
            nv >= m * m,
            ax + ay + az <= 2 * m + 1,
            6 <= k <= m,
            1 <= m,
    ;
    lemma_norm_sq_nonneg(q);
    lemma_sqrt_of_is_sqrt(nq);
    let s: int = sqrt_of(nq);
    assert(s >= k - 3) by (nonlinear_arith)
        requires
            nq < (s + 1) * (s + 1),
            nq >= k * k - 4 * k - 2,
            s >= 0,
            k >= 6,
    ;
}

/// A sum of squares is never negative.
/// A sum of squares is never negative.
pub proof fn lemma_norm_sq_nonneg(v: Vec3)
    ensures
        norm_sq(v) >= 0,
{
    assert(v.x * v.x + v.y * v.y + v.z * v.z >= 0) by (nonlinear_arith);
}

/// A scalar whose square is at most `n` is bounded by the integer square
/// root of `n`.
pub proof fn lemma_abs_le_sqrt(a: int, n: int, m: int)
    requires
        a * a <= n,
        is_sqrt(n, m),
    ensures
        abs(a) <= m,
{
    let aa: int = abs(a) as int;
    assert(aa <= m) by (nonlinear_arith)
        requires
            a * a <= n,
            0 <= m,
            n < (m + 1) * (m + 1),
            aa == (if a >= 0 { a } else { -a }),
    ;
}

/// No component exceeds the magnitude of its vector.
pub proof fn lemma_component_le_mag(v: Vec3)
    ensures
        abs(v.x as int) <= mag_spec(v),
        abs(v.y as int) <= mag_spec(v),
        abs(v.z as int) <= mag_spec(v),
{
    lemma_norm_sq_nonneg(v);
    lemma_sqrt_of_is_sqrt(norm_sq(v));
    let n: int = norm_sq(v);
    let m: int = mag_spec(v);
    assert(v.x * v.x <= n && v.y * v.y <= n && v.z * v.z <= n) by (nonlinear_arith)
        requires
            n == v.x * v.x + v.y * v.y + v.z * v.z,
    ;
    lemma_abs_le_sqrt(v.x as int, n, m);
    lemma_abs_le_sqrt(v.y as int, n, m);
    lemma_abs_le_sqrt(v.z as int, n, m);
}


/// The unit vector of `v`, or the zero vector when the horizontal
/// components are both zero. Diagonal key input runs through this, so a
/// diagonal never outruns an axis press.
pub fn normalize_or_zero(v: Vec3) -> (r: Vec3)
    requires
        in_bounds(v, COMP_MAX as int),
    ensures
        r == normalize_or_zero_spec(v),
        in_bounds(r, SCALE as int),
        v.x == 0 && v.y == 0 ==> r == (Vec3 { x: 0i64, y: 0i64, z: 0i64 }),
{
    if v.x == 0 && v.y == 0 {
        Vec3::zero()
    } else {
        let m: i64 = v.mag();
        proof {
            assert(norm_sq(v) >= 1) by (nonlinear_arith)
                requires
                    norm_sq(v) == v.x * v.x + v.y * v.y + v.z * v.z,
                    v.x != 0 || v.y != 0,
            ;
            assert(m >= 1) by (nonlinear_arith)
                requires
                    norm_sq(v) >= 1,
                    0 <= m,
                    norm_sq(v) < (m + 1) * (m + 1),
            ;
            lemma_scaled_in_bounds(v, SCALE as int, m as int);
            lemma_mul_range(v.x as int, SCALE as int, COMP_MAX as int, SCALE as int);
            lemma_mul_range(v.y as int, SCALE as int, COMP_MAX as int, SCALE as int);
            lemma_mul_range(v.z as int, SCALE as int, COMP_MAX as int, SCALE as int);
        }
        let rx: i64 = scale_mul_div(v.x, SCALE, m);
        let ry: i64 = scale_mul_div(v.y, SCALE, m);
        let rz: i64 = scale_mul_div(v.z, SCALE, m);
        Vec3 { x: rx, y: ry, z: rz }
    }
}

/// `v` unchanged while its magnitude is within `max`; rescaled onto the
/// sphere of radius `max` when strictly above it. The returned vector
/// never has magnitude above `max`.
pub fn clamp_magnitude(v: Vec3, max: i64) -> (r: Vec3)
    requires
        in_bounds(v, COMP_MAX as int),
        0 <= max <= COMP_MAX,
    ensures
        r == clamp_spec(v, max as int),
        mag_spec(r) <= max,
        in_bounds(r, max as int),
        mag_spec(v) <= max ==> r == v,
{
    let m: i64 = v.mag();
    if m <= max {
        proof {
            lemma_component_le_mag(v);
        }
        v
    } else {
        proof {
            lemma_scaled_in_bounds(v, max as int, m as int);
            lemma_scaled_mag_le(v, max as int, m as int);
            lemma_mul_range(v.x as int, max as int, COMP_MAX as int, COMP_MAX as int);
            lemma_mul_range(v.y as int, max as int, COMP_MAX as int, COMP_MAX as int);
            lemma_mul_range(v.z as int, max as int, COMP_MAX as int, COMP_MAX as int);
        }
        let rx: i64 = scale_mul_div(v.x, max, m);
        let ry: i64 = scale_mul_div(v.y, max, m);
        let rz: i64 = scale_mul_div(v.z, max, m);
        Vec3 { x: rx, y: ry, z: rz }
    }
}

/// The unit vector pointing from `pos` toward `target`, or `None` when the
/// two coincide and no direction exists.
pub fn target_direction(pos: Vec3, target: Vec3) -> (r: Option<Vec3>)
    requires
        in_bounds(pos, (COMP_MAX / 2) as int),
        in_bounds(target, (COMP_MAX / 2) as int),
    ensures
        target == pos <==> r is None,
        target != pos ==> r == Some(scaled_vec(
            Vec3 {
                x: (target.x - pos.x) as i64,
                y: (target.y - pos.y) as i64,
                z: (target.z - pos.z) as i64,
            },
            SCALE as int,
            mag_spec(Vec3 {
                x: (target.x - pos.x) as i64,
                y: (target.y - pos.y) as i64,
                z: (target.z - pos.z) as i64,
            }),
        )),
        r is Some ==> in_bounds(r->Some_0, SCALE as int),
{
    if target.x == pos.x && target.y == pos.y && target.z == pos.z {
        None
    } else {
        let d: Vec3 = target.minus(pos);
        let m: i64 = d.mag();
        proof {
            assert(norm_sq(d) >= 1) by (nonlinear_arith)
                requires
                    norm_sq(d) == d.x * d.x + d.y * d.y + d.z * d.z,
                    d.x != 0 || d.y != 0 || d.z != 0,
            ;
            assert(m >= 1) by (nonlinear_arith)
                requires
                    norm_sq(d) >= 1,
                    0 <= m,
                    norm_sq(d) < (m + 1) * (m + 1),
            ;
            lemma_scaled_in_bounds(d, SCALE as int, m as int);
            lemma_mul_range(d.x as int, SCALE as int, COMP_MAX as int, SCALE as int);
            lemma_mul_range(d.y as int, SCALE as int, COMP_MAX as int, SCALE as int);
            lemma_mul_range(d.z as int, SCALE as int, COMP_MAX as int, SCALE as int);
        }
        let rx: i64 = scale_mul_div(d.x, SCALE, m);
        let ry: i64 = scale_mul_div(d.y, SCALE, m);
        let rz: i64 = scale_mul_div(d.z, SCALE, m);
        Some(Vec3 { x: rx, y: ry, z: rz })
    }
}

/// Componentwise difference as machine words (components assumed in
/// range).
pub open spec fn vec_diff(a: Vec3, b: Vec3) -> Vec3 {
    Vec3 { x: (a.x - b.x) as i64, y: (a.y - b.y) as i64, z: (a.z - b.z) as i64 }
}

/// Fixed-point dot product: the products carry two scale factors, so the
/// sum is divided by `SCALE` once.
pub open spec fn dot_spec(a: Vec3, b: Vec3) -> int {
    div_trunc(a.x * b.x + a.y * b.y + a.z * b.z, SCALE as int)
}

/// Fixed-point cross product, each component scaled back down by `SCALE`.
pub open spec fn cross_spec(a: Vec3, b: Vec3) -> Vec3 {
    Vec3 {
        x: div_trunc(a.y * b.z - a.z * b.y, SCALE as int) as i64,
        y: div_trunc(a.z * b.x - a.x * b.z, SCALE as int) as i64,
        z: div_trunc(a.x * b.y - a.y * b.x, SCALE as int) as i64,
    }
}

/// Fixed-point dot product of a direction (unit-scale) vector with an
/// arbitrary bounded vector.
pub fn dot(a: Vec3, b: Vec3) -> (r: i64)
    requires
        in_bounds(a, 2 * SCALE as int),
        in_bounds(b, COMP_MAX as int),
    ensures
        r == dot_spec(a, b),
        -6_000_000_000_000_000 <= r <= 6_000_000_000_000_000,
{
    proof {
        lemma_mul_range_signed(a.x as int, b.x as int, 2 * SCALE as int, COMP_MAX as int);
        lemma_mul_range_signed(a.y as int, b.y as int, 2 * SCALE as int, COMP_MAX as int);
        lemma_mul_range_signed(a.z as int, b.z as int, 2 * SCALE as int, COMP_MAX as int);
    }
    let p: i64 = a.x * b.x + a.y * b.y + a.z * b.z;
    proof {
        lemma_mul_div_trunc_bound(p as int, 1, SCALE as int);
        assert(abs(p as int) * 1 == abs(p as int));
    }
    crate::fixed::scale_div(p, SCALE)
}

/// Fixed-point cross product of a direction (unit-scale) vector with an
/// arbitrary bounded vector.
pub fn cross(a: Vec3, b: Vec3) -> (r: Vec3)
    requires
        in_bounds(a, 2 * SCALE as int),
        in_bounds(b, COMP_MAX as int),
    ensures
        r == cross_spec(a, b),
        in_bounds(r, 4_000_000_000_000int),
{
    proof {
        lemma_mul_range_signed(a.x as int, b.x as int, 2 * SCALE as int, COMP_MAX as int);
        lemma_mul_range_signed(a.x as int, b.y as int, 2 * SCALE as int, COMP_MAX as int);
        lemma_mul_range_signed(a.x as int, b.z as int, 2 * SCALE as int, COMP_MAX as int);
        lemma_mul_range_signed(a.y as int, b.x as int, 2 * SCALE as int, COMP_MAX as int);
        lemma_mul_range_signed(a.y as int, b.y as int, 2 * SCALE as int, COMP_MAX as int);
        lemma_mul_range_signed(a.y as int, b.z as int, 2 * SCALE as int, COMP_MAX as int);
        lemma_mul_range_signed(a.z as int, b.x as int, 2 * SCALE as int, COMP_MAX as int);
        lemma_mul_range_signed(a.z as int, b.y as int, 2 * SCALE as int, COMP_MAX as int);
        lemma_mul_range_signed(a.z as int, b.z as int, 2 * SCALE as int, COMP_MAX as int);
    }
    let tx: i64 = a.y * b.z - a.z * b.y;
    let ty: i64 = a.z * b.x - a.x * b.z;
    let tz: i64 = a.x * b.y - a.y * b.x;
    proof {
        lemma_mul_div_trunc_bound(tx as int, 1, SCALE as int);
        lemma_mul_div_trunc_bound(ty as int, 1, SCALE as int);
        lemma_mul_div_trunc_bound(tz as int, 1, SCALE as int);
        assert(abs(tx as int) * 1 == abs(tx as int));
        assert(abs(ty as int) * 1 == abs(ty as int));
        assert(abs(tz as int) * 1 == abs(tz as int));
    }
    let rx: i64 = crate::fixed::scale_div(tx, SCALE);
    let ry: i64 = crate::fixed::scale_div(ty, SCALE);
    let rz: i64 = crate::fixed::scale_div(tz, SCALE);
    Vec3 { x: rx, y: ry, z: rz }
}

/// Law: clamping never leaves a magnitude above the cap, whichever branch
/// is taken.
pub proof fn lemma_clamp_caps_magnitude(v: Vec3, max: int)
    requires
        0 <= max <= 0x7fff_ffff_ffff_ffff,
    ensures
        mag_spec(clamp_spec(v, max)) <= max,
{
    if mag_spec(v) <= max {
    } else {
        lemma_norm_sq_nonneg(v);
        lemma_sqrt_of_is_sqrt(norm_sq(v));
        lemma_scaled_mag_le(v, max, mag_spec(v));
    }
}

/// Law: a vector already within the cap is returned exactly as it was.
pub proof fn lemma_clamp_identity_below_cap(v: Vec3, max: int)
    requires
        mag_spec(v) <= max,
    ensures
        clamp_spec(v, max) == v,
{
}

/// Law: an input with no horizontal component normalizes to the zero
/// vector, whatever its `z`.
pub proof fn lemma_normalize_vertical_is_zero(v: Vec3)
    requires
        v.x == 0,
        v.y == 0,
    ensures
        normalize_or_zero_spec(v) == (Vec3 { x: 0i64, y: 0i64, z: 0i64 }),
{
}

/// Law: normalizing a vector with horizontal input and at least unit
/// length yields a unit vector: its magnitude lands within three ticks
/// under `SCALE` and never over it.
pub proof fn lemma_normalize_unit_magnitude(v: Vec3)
    requires
        SCALE <= mag_spec(v),
        !(v.x == 0 && v.y == 0),
    ensures
        SCALE - 3 <= mag_spec(normalize_or_zero_spec(v)) <= SCALE,
{
    lemma_norm_sq_nonneg(v);
    lemma_sqrt_of_is_sqrt(norm_sq(v));
    lemma_scaled_mag_le(v, SCALE as int, mag_spec(v));
    lemma_scaled_mag_ge(v, SCALE as int, mag_spec(v));
}

/// Law: a vector strictly above the cap is brought onto the cap: the
/// clamped magnitude lands within three ticks under `max` and never over
/// it.
pub proof fn lemma_clamp_reaches_cap(v: Vec3, max: int)
    requires
        mag_spec(v) > max,
        6 <= max <= 0x7fff_ffff_ffff_ffff,
    ensures
        max - 3 <= mag_spec(clamp_spec(v, max)) <= max,
{
    lemma_norm_sq_nonneg(v);
    lemma_sqrt_of_is_sqrt(norm_sq(v));
    lemma_scaled_mag_le(v, max, mag_spec(v));
    lemma_scaled_mag_ge(v, max, mag_spec(v));
}

} // verus!
