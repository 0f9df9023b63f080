//! Fixed-point 4x4 matrices, stored as four columns (column-major,
//! column-vector convention — the wire format the render boundary
//! expects). Three constructions: the orthographic projection, the
//! look-at view matrix, and the model matrix that places an object by
//! rotating it in the screen plane and then translating it.

use crate::fixed::{mul_div_trunc, scale_mul_div, SCALE, COMP_MAX};
use crate::vec3::{
    cross, cross_spec, dot, dot_spec, in_bounds, lemma_mul_range, mag_spec, norm_sq,
    scaled_vec, vec_diff, Vec3,
};
use vstd::prelude::*;

verus! {

/// One column of a matrix: four fixed-point scalars.
#[derive(Clone, Copy, PartialEq, Eq, Structural, Debug)]
pub struct Vec4 {
    pub x: i64,
    pub y: i64,
    pub z: i64,
    pub w: i64,
}

/// A 4x4 fixed-point matrix as four columns.
#[derive(Clone, Copy, PartialEq, Eq, Structural, Debug)]
pub struct Mat4 {
    pub c0: Vec4,
    pub c1: Vec4,
    pub c2: Vec4,
    pub c3: Vec4,
}

/// The orthographic projection onto the box `[left, right] x [bottom,
/// top] x [near, far]`, depth mapped the way OpenGL clips expect it.
pub open spec fn ortho_spec(left: int, right: int, bottom: int, top: int, near: int, far: int) -> Mat4 {
    Mat4 {
        c0: Vec4 {
            x: mul_div_trunc(2 * SCALE as int, SCALE as int, right - left) as i64,
            y: 0,
            z: 0,
            w: 0,
        },
        c1: Vec4 {
            x: 0,
            y: mul_div_trunc(2 * SCALE as int, SCALE as int, top - bottom) as i64,
            z: 0,
            w: 0,
        },
        c2: Vec4 {
            x: 0,
            y: 0,
            z: (-mul_div_trunc(2 * SCALE as int, SCALE as int, far - near)) as i64,
            w: 0,
        },
        c3: Vec4 {
            x: (-mul_div_trunc(right + left, SCALE as int, right - left)) as i64,
            y: (-mul_div_trunc(top + bottom, SCALE as int, top - bottom)) as i64,
            z: (-mul_div_trunc(far + near, SCALE as int, far - near)) as i64,
            w: SCALE,
        },
    }
}

/// Orthographic projection matrix for a GL-style clip space.
pub fn orthographic(left: i64, right: i64, bottom: i64, top: i64, near: i64, far: i64) -> (m: Mat4)
    requires
        left < right,
        bottom < top,
        near < far,
        -COMP_MAX <= left && right <= COMP_MAX,
        -COMP_MAX <= bottom && top <= COMP_MAX,
        -COMP_MAX <= near && far <= COMP_MAX,
    ensures
        m == ortho_spec(left as int, right as int, bottom as int, top as int, near as int, far as int),
{
    proof {
        lemma_entry_fits(2 * SCALE as int, SCALE as int, right - left);
        lemma_entry_fits(2 * SCALE as int, SCALE as int, top - bottom);
        lemma_entry_fits(2 * SCALE as int, SCALE as int, far - near);
        lemma_entry_fits(right + left, SCALE as int, right - left);
        lemma_entry_fits(top + bottom, SCALE as int, top - bottom);
        lemma_entry_fits(far + near, SCALE as int, far - near);
    }
    let sx: i64 = scale_mul_div(2 * SCALE, SCALE, right - left);
    let sy: i64 = scale_mul_div(2 * SCALE, SCALE, top - bottom);
    let sz: i64 = scale_mul_div(2 * SCALE, SCALE, far - near);
    let tx: i64 = scale_mul_div(right + left, SCALE, right - left);
    let ty: i64 = scale_mul_div(top + bottom, SCALE, top - bottom);
    let tz: i64 = scale_mul_div(far + near, SCALE, far - near);
    Mat4 {
        c0: Vec4 { x: sx, y: 0, z: 0, w: 0 },
        c1: Vec4 { x: 0, y: sy, z: 0, w: 0 },
        c2: Vec4 { x: 0, y: 0, z: -sz, w: 0 },
        c3: Vec4 { x: -tx, y: -ty, z: -tz, w: SCALE },
    }
}

/// A scaled quotient `a * SCALE / m` stays within `i64` whenever
/// `|a| <= 2 * COMP_MAX`.
proof fn lemma_entry_fits(a: int, k: int, m: int)
    requires
        1 <= m,
        k == SCALE as int,
        -2 * COMP_MAX as int <= a <= 2 * COMP_MAX as int,
    ensures
        -0x7fff_ffff_ffff_ffff <= a * k <= 0x7fff_ffff_ffff_ffff,
        -2_000_000_000_000_000 <= mul_div_trunc(a, k, m) <= 2_000_000_000_000_000,
{
    crate::vec3::lemma_mul_range_signed(a, k, 2 * COMP_MAX as int, SCALE as int);
    crate::fixed::lemma_mul_div_trunc_bound(a, k, m);
    let q: int = mul_div_trunc(a, k, m);
    assert(vstd::math::abs(q) <= 2_000_000_000_000_000) by (nonlinear_arith)
        requires
            vstd::math::abs(q) * m <= vstd::math::abs(a) * k,
            vstd::math::abs(a) <= 2_000_000_000,
            0 <= k <= 1_000_000,
            1 <= m,
            vstd::math::abs(a) == (if a >= 0 { a } else { -a }),
            vstd::math::abs(q) == (if q >= 0 { q } else { -q }),
    ;
}

/// The normalized viewing direction from `eye` toward `at`.
pub open spec fn look_dir_spec(eye: Vec3, at: Vec3) -> Vec3 {
    scaled_vec(vec_diff(at, eye), SCALE as int, mag_spec(vec_diff(at, eye)))
}

/// The normalized right vector of the view frame.
pub open spec fn look_right_spec(eye: Vec3, at: Vec3, up: Vec3) -> Vec3 {
    scaled_vec(
        cross_spec(look_dir_spec(eye, at), up),
        SCALE as int,
        mag_spec(cross_spec(look_dir_spec(eye, at), up)),
    )
}

/// The recomputed up vector of the view frame.
pub open spec fn look_up_spec(eye: Vec3, at: Vec3, up: Vec3) -> Vec3 {
    cross_spec(look_right_spec(eye, at, up), look_dir_spec(eye, at))
}

/// The look-at view matrix: the orthonormal-ish frame in the upper block,
/// the eye position folded into the last column.
pub open spec fn look_at_spec(eye: Vec3, at: Vec3, up: Vec3) -> Mat4 {
    let f = look_dir_spec(eye, at);
    let r = look_right_spec(eye, at, up);
    let u = look_up_spec(eye, at, up);
    Mat4 {
        c0: Vec4 { x: r.x, y: u.x, z: (-f.x) as i64, w: 0 },
        c1: Vec4 { x: r.y, y: u.y, z: (-f.y) as i64, w: 0 },
        c2: Vec4 { x: r.z, y: u.z, z: (-f.z) as i64, w: 0 },
        c3: Vec4 {
            x: (-dot_spec(r, eye)) as i64,
            y: (-dot_spec(u, eye)) as i64,
            z: dot_spec(f, eye) as i64,
            w: SCALE,
        },
    }
}

/// View matrix from an eye position, a focus position and an up
/// direction; assumes a right-handed, y-up coordinate space. The focus
/// must not coincide with the eye, and the up direction must not be
/// parallel to the viewing direction.
pub fn look_at(eye: Vec3, at: Vec3, up: Vec3) -> (m: Mat4)
    requires
        in_bounds(eye, (COMP_MAX / 2) as int),
        in_bounds(at, (COMP_MAX / 2) as int),
        in_bounds(up, SCALE as int),
        at != eye,
        cross_spec(look_dir_spec(eye, at), up) != (Vec3 { x: 0i64, y: 0i64, z: 0i64 }),
    ensures
        m == look_at_spec(eye, at, up),
{
    let d: Vec3 = at.minus(eye);
    let md: i64 = d.mag();
    proof {
        assert(norm_sq(d) >= 1) by (nonlinear_arith)
            requires
                norm_sq(d) == d.x * d.x + d.y * d.y + d.z * d.z,
                d.x != 0 || d.y != 0 || d.z != 0,
        ;
        assert(md >= 1) by (nonlinear_arith)
            requires
                norm_sq(d) >= 1,
                0 <= md,
                norm_sq(d) < (md + 1) * (md + 1),
        ;
        crate::vec3::lemma_scaled_in_bounds(d, SCALE as int, md as int);
        lemma_mul_range(d.x as int, SCALE as int, COMP_MAX as int, SCALE as int);
        lemma_mul_range(d.y as int, SCALE as int, COMP_MAX as int, SCALE as int);
        lemma_mul_range(d.z as int, SCALE as int, COMP_MAX as int, SCALE as int);
    }
    let f: Vec3 = Vec3 {
        x: scale_mul_div(d.x, SCALE, md),
        y: scale_mul_div(d.y, SCALE, md),
        z: scale_mul_div(d.z, SCALE, md),
    };
    assert(f == look_dir_spec(eye, at));
    let c: Vec3 = cross(f, up);
    proof {
        assert(in_bounds(c, COMP_MAX as int)) by {
            lemma_cross_of_units_small(f, up);
        };
    }
    let mc: i64 = c.mag();
    proof {
        assert(norm_sq(c) >= 1) by (nonlinear_arith)
            requires
                norm_sq(c) == c.x * c.x + c.y * c.y + c.z * c.z,
                c.x != 0 || c.y != 0 || c.z != 0,
        ;
        assert(mc >= 1) by (nonlinear_arith)
            requires
                norm_sq(c) >= 1,
                0 <= mc,
                norm_sq(c) < (mc + 1) * (mc + 1),
        ;
        crate::vec3::lemma_scaled_in_bounds(c, SCALE as int, mc as int);
        lemma_mul_range(c.x as int, SCALE as int, COMP_MAX as int, SCALE as int);
        lemma_mul_range(c.y as int, SCALE as int, COMP_MAX as int, SCALE as int);
        lemma_mul_range(c.z as int, SCALE as int, COMP_MAX as int, SCALE as int);
    }
    let r: Vec3 = Vec3 {
        x: scale_mul_div(c.x, SCALE, mc),
        y: scale_mul_div(c.y, SCALE, mc),
        z: scale_mul_div(c.z, SCALE, mc),
    };
    assert(r == look_right_spec(eye, at, up));
    let u: Vec3 = cross(r, f);
    assert(u == look_up_spec(eye, at, up));
    proof {
        lemma_cross_of_units_small(r, f);
    }
    let dr: i64 = dot(r, eye);
    let du: i64 = dot(u, eye);
    let df: i64 = dot(f, eye);
    Mat4 {
        c0: Vec4 { x: r.x, y: u.x, z: -f.x, w: 0 },
        c1: Vec4 { x: r.y, y: u.y, z: -f.y, w: 0 },
        c2: Vec4 { x: r.z, y: u.z, z: -f.z, w: 0 },
        c3: Vec4 { x: -dr, y: -du, z: df, w: SCALE },
    }
}

/// The cross product of two unit-scale vectors stays well inside the
/// component bound.
proof fn lemma_cross_of_units_small(a: Vec3, b: Vec3)
    requires
        in_bounds(a, SCALE as int),
        in_bounds(b, SCALE as int),
    ensures
        in_bounds(cross_spec(a, b), COMP_MAX as int),
        in_bounds(cross_spec(a, b), 2 * SCALE as int),
{
    crate::vec3::lemma_mul_range_signed(a.y as int, b.z as int, SCALE as int, SCALE as int);
    crate::vec3::lemma_mul_range_signed(a.z as int, b.y as int, SCALE as int, SCALE as int);
    crate::vec3::lemma_mul_range_signed(a.z as int, b.x as int, SCALE as int, SCALE as int);
    crate::vec3::lemma_mul_range_signed(a.x as int, b.z as int, SCALE as int, SCALE as int);
    crate::vec3::lemma_mul_range_signed(a.x as int, b.y as int, SCALE as int, SCALE as int);
    crate::vec3::lemma_mul_range_signed(a.y as int, b.x as int, SCALE as int, SCALE as int);
    crate::fixed::lemma_mul_div_trunc_bound(a.y * b.z - a.z * b.y, 1, SCALE as int);
    crate::fixed::lemma_mul_div_trunc_bound(a.z * b.x - a.x * b.z, 1, SCALE as int);
    crate::fixed::lemma_mul_div_trunc_bound(a.x * b.y - a.y * b.x, 1, SCALE as int);
    lemma_div_small(a.y * b.z - a.z * b.y);
    lemma_div_small(a.z * b.x - a.x * b.z);
    lemma_div_small(a.x * b.y - a.y * b.x);
}

/// A scalar of size at most `2 * SCALE^2` shrinks to at most `2 * SCALE`
/// when divided by `SCALE`.
proof fn lemma_div_small(t: int)
    requires
        -2_000_000_000_000 <= t <= 2_000_000_000_000,
    ensures
        -2_000_000 <= crate::fixed::div_trunc(t, SCALE as int) <= 2_000_000,
{
    crate::fixed::lemma_mul_div_trunc_bound(t, 1, SCALE as int);
    let q: int = crate::fixed::div_trunc(t, SCALE as int);
    assert(-2_000_000 <= q <= 2_000_000) by (nonlinear_arith)
        requires
            vstd::math::abs(q) * 1_000_000 <= vstd::math::abs(t) * 1,
            vstd::math::abs(t) <= 2_000_000_000_000,
            vstd::math::abs(q) == (if q >= 0 { q } else { -q }),
            vstd::math::abs(t) == (if t >= 0 { t } else { -t }),
    ;
}

/// The model matrix of an object: rotate by the heading in the screen
/// plane (the caller supplies the cosine and sine of the heading as
/// fixed-point scalars), then translate to the object's position.
pub open spec fn model_spec(pos: Vec3, rot_cos: int, rot_sin: int) -> Mat4 {
    Mat4 {
        c0: Vec4 { x: rot_cos as i64, y: rot_sin as i64, z: 0, w: 0 },
        c1: Vec4 { x: (-rot_sin) as i64, y: rot_cos as i64, z: 0, w: 0 },
        c2: Vec4 { x: 0, y: 0, z: SCALE, w: 0 },
        c3: Vec4 { x: pos.x, y: pos.y, z: pos.z, w: SCALE },
    }
}

/// Build the model matrix: rotation in local space first, translation
/// into world space second — reversing that order would move the pivot.
pub fn model_matrix(pos: Vec3, rot_cos: i64, rot_sin: i64) -> (m: Mat4)
    requires
        -SCALE <= rot_cos <= SCALE,
        -SCALE <= rot_sin <= SCALE,
    ensures
        m == model_spec(pos, rot_cos as int, rot_sin as int),
        translation_spec(m) == pos,
{
    Mat4 {
        c0: Vec4 { x: rot_cos, y: rot_sin, z: 0, w: 0 },
        c1: Vec4 { x: -rot_sin, y: rot_cos, z: 0, w: 0 },
        c2: Vec4 { x: 0, y: 0, z: SCALE, w: 0 },
        c3: Vec4 { x: pos.x, y: pos.y, z: pos.z, w: SCALE },
    }
}

/// The translation a matrix applies: its last column, without the
/// homogeneous coordinate.
pub open spec fn translation_spec(m: Mat4) -> Vec3 {
    Vec3 { x: m.c3.x, y: m.c3.y, z: m.c3.z }
}

/// Read the translation column back out of a matrix.
pub fn translation_of(m: &Mat4) -> (t: Vec3)
    ensures
        t == translation_spec(*m),
{
    Vec3 { x: m.c3.x, y: m.c3.y, z: m.c3.z }
}

/// Law: composing a model matrix from a position and decomposing its
/// translation column recovers the position exactly, whatever the
/// rotation.
pub proof fn lemma_model_translation_roundtrip(pos: Vec3, rot_cos: int, rot_sin: int)
    ensures
        translation_spec(model_spec(pos, rot_cos, rot_sin)) == pos,
{
}

} // verus!
