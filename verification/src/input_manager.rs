//! Raw input state, sampled fresh each frame by the window layer: four
//! directional key flags, two (reserved) rotation flags, and the pointer
//! position in pixels. The two derivations the game loop needs — the raw
//! acceleration direction the keys add up to, and the pointer position
//! mapped into world coordinates — are computed and verified here.

use crate::fixed::{mul_div_trunc, scale_mul_div, SCALE};
use crate::vec3::{in_bounds, Vec3};
use vstd::math::abs;
use vstd::prelude::*;

verus! {

/// Widest window dimension and pointer coordinate the world mapping
/// accepts, in pixels.
pub const PIXEL_MAX: i64 = 1_000_000;

#[derive(Debug)]
pub struct InputManager {
    pub up: bool,
    pub down: bool,
    pub left: bool,
    pub right: bool,
    pub rot_left: bool,
    pub rot_right: bool,
    /// Pointer position in window pixels, origin top-left.
    pub mouse_pos: (i64, i64),
}

/// The horizontal world coordinate under a pointer at pixel column `mx`
/// of a window `width` pixels wide: the window maps to `[-1, 1]` and is
/// then stretched by the window's own aspect ratio.
pub open spec fn mouse_world_x(mx: int, width: int, height: int) -> int {
    mul_div_trunc(mul_div_trunc(mx, 2 * SCALE as int, width) - SCALE as int, width, height)
}

/// The vertical world coordinate under a pointer at pixel row `my` of a
/// window `height` pixels tall: the window maps to `[-1, 1]`, flipped
/// because pixel rows grow downward.
pub open spec fn mouse_world_y(my: int, height: int) -> int {
    SCALE as int - mul_div_trunc(my, 2 * SCALE as int, height)
}

impl InputManager {
    /// A fresh manager: nothing pressed, pointer at the origin.
    pub fn new() -> (im: InputManager)
        ensures
            !im.up && !im.down && !im.left && !im.right,
            !im.rot_left && !im.rot_right,
            im.mouse_pos == (0i64, 0i64),
    {
        InputManager {
            up: false,
            down: false,
            left: false,
            right: false,
            rot_left: false,
            rot_right: false,
            mouse_pos: (0, 0),
        }
    }

    /// The raw acceleration direction the pressed keys add up to: one
    /// unit per active flag, opposite flags cancelling. Diagonals come
    /// out longer than one unit here; the integrator normalizes them.
    pub fn acceleration_input(&self) -> (v: Vec3)
        ensures
            v.x == (if self.right { SCALE as int } else { 0 }) - (if self.left { SCALE as int } else { 0 }),
            v.y == (if self.up { SCALE as int } else { 0 }) - (if self.down { SCALE as int } else { 0 }),
            v.z == 0,
            in_bounds(v, SCALE as int),
    {
        let mut x: i64 = 0;
        let mut y: i64 = 0;
        if self.up {
            y = y + SCALE;
        }
        if self.down {
            y = y - SCALE;
        }
        if self.left {
            x = x - SCALE;
        }
        if self.right {
            x = x + SCALE;
        }
        Vec3 { x, y, z: 0 }
    }

    /// The world point under the pointer, for a window of the given pixel
    /// size: the target the ship turns toward.
    pub fn mouse_world_target(&self, width: i64, height: i64) -> (t: Vec3)
        requires
            1 <= width <= PIXEL_MAX,
            1 <= height <= PIXEL_MAX,
            -PIXEL_MAX <= self.mouse_pos.0 <= PIXEL_MAX,
            -PIXEL_MAX <= self.mouse_pos.1 <= PIXEL_MAX,
        ensures
            t.x == mouse_world_x(self.mouse_pos.0 as int, width as int, height as int),
            t.y == mouse_world_y(self.mouse_pos.1 as int, height as int),
            t.z == 0,
    {
        let mx: i64 = self.mouse_pos.0;
        let my: i64 = self.mouse_pos.1;
        proof {
            crate::vec3::lemma_mul_range_signed(
                mx as int,
                2 * SCALE as int,
                PIXEL_MAX as int,
                2 * SCALE as int,
            );
            crate::vec3::lemma_mul_range_signed(
                my as int,
                2 * SCALE as int,
                PIXEL_MAX as int,
                2 * SCALE as int,
            );
            crate::fixed::lemma_mul_div_trunc_bound(mx as int, 2 * SCALE as int, width as int);
            crate::fixed::lemma_mul_div_trunc_bound(my as int, 2 * SCALE as int, height as int);
        }
        let tx1: i64 = scale_mul_div(mx, 2 * SCALE, width);
        let ty1: i64 = scale_mul_div(my, 2 * SCALE, height);
        proof {
            lemma_scaled_pixel_bound(mx as int, width as int, tx1 as int);
            lemma_scaled_pixel_bound(my as int, height as int, ty1 as int);
            crate::vec3::lemma_mul_range_signed(
                tx1 - SCALE,
                width as int,
                2_000_001_000_000,
                PIXEL_MAX as int,
            );
            crate::fixed::lemma_mul_div_trunc_bound(
                tx1 - SCALE,
                width as int,
                height as int,
            );
        }
        let ax: i64 = tx1 - SCALE;
        let tx: i64 = scale_mul_div(ax, width, height);
        let ty: i64 = SCALE - ty1;
        Vec3 { x: tx, y: ty, z: 0 }
    }
}

/// The first pixel-to-clip scaling stays within `2 * SCALE * PIXEL_MAX`.
proof fn lemma_scaled_pixel_bound(p: int, dim: int, t: int)
    requires
        1 <= dim,
        -PIXEL_MAX <= p <= PIXEL_MAX,
        t == mul_div_trunc(p, 2 * SCALE as int, dim),
    ensures
        -2_000_000_000_000 <= t <= 2_000_000_000_000,
{
    crate::fixed::lemma_mul_div_trunc_bound(p, 2 * SCALE as int, dim);
    assert(-2_000_000_000_000 <= t <= 2_000_000_000_000) by (nonlinear_arith)
        requires
            abs(t) * dim <= abs(p) * (2 * SCALE as int),
            abs(p) <= 1_000_000,
            1 <= dim,
            abs(t) == (if t >= 0 { t } else { -t }),
            abs(p) == (if p >= 0 { p } else { -p }),
    ;
}

} // verus!
