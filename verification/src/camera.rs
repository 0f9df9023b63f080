//! The scene camera: a static configuration (eye, focus, up direction,
//! aspect ratio, clip planes) from which the view and projection matrices
//! are computed once and reused every frame. The aspect ratio scales the
//! horizontal extent only; the vertical half-height is fixed at one world
//! unit.

use crate::fixed::{COMP_MAX, SCALE};
use crate::mat4::{
    look_at, look_at_spec, look_dir_spec, ortho_spec, orthographic, Mat4,
};
use crate::vec3::{cross, cross_spec, in_bounds, norm_sq, Vec3};
use vstd::prelude::*;

verus! {

/// Default aspect ratio: 16:9 in ticks, rounded down.
pub const ASPECT_16_9: i64 = 1_777_777;

/// Half of the component bound: room for a difference of two positions.
pub const HALF_COORD: i64 = 500_000_000;

pub struct Camera {
    pub pos: Vec3,
    pub look_at: Vec3,
    pub up: Vec3,
    pub aspect_ratio: i64,
    pub clip_near: i64,
    pub clip_far: i64,
}

impl Camera {
    /// The configuration under which the camera's matrices are defined:
    /// the focus away from the eye, the up direction not parallel to the
    /// viewing direction, a positive aspect ratio, and the near plane in
    /// front of the far plane.
    pub open spec fn valid(self) -> bool {
        &&& in_bounds(self.pos, HALF_COORD as int)
        &&& in_bounds(self.look_at, HALF_COORD as int)
        &&& in_bounds(self.up, SCALE as int)
        &&& self.look_at != self.pos
        &&& cross_spec(look_dir_spec(self.pos, self.look_at), self.up) != (Vec3 {
            x: 0i64,
            y: 0i64,
            z: 0i64,
        })
        &&& 0 < self.aspect_ratio <= COMP_MAX
        &&& -COMP_MAX <= self.clip_near < self.clip_far <= COMP_MAX
    }

    pub fn new(
        pos: Vec3,
        look_at: Vec3,
        up: Vec3,
        aspect_ratio: i64,
        clip_near: i64,
        clip_far: i64,
    ) -> (c: Camera)
        ensures
            c.pos == pos,
            c.look_at == look_at,
            c.up == up,
            c.aspect_ratio == aspect_ratio,
            c.clip_near == clip_near,
            c.clip_far == clip_far,
    {
        Camera { pos, look_at, up, aspect_ratio, clip_near, clip_far }
    }

    /// Whether this configuration yields defined matrices; run it before
    /// asking for them.
    pub fn is_valid(&self) -> (b: bool)
        ensures
            b == self.valid(),
    {
        let bounds_ok: bool = self.pos.x >= -HALF_COORD && self.pos.x <= HALF_COORD
            && self.pos.y >= -HALF_COORD && self.pos.y <= HALF_COORD
            && self.pos.z >= -HALF_COORD && self.pos.z <= HALF_COORD
            && self.look_at.x >= -HALF_COORD && self.look_at.x <= HALF_COORD
            && self.look_at.y >= -HALF_COORD && self.look_at.y <= HALF_COORD
            && self.look_at.z >= -HALF_COORD && self.look_at.z <= HALF_COORD
            && self.up.x >= -SCALE && self.up.x <= SCALE
            && self.up.y >= -SCALE && self.up.y <= SCALE
            && self.up.z >= -SCALE && self.up.z <= SCALE
            && self.aspect_ratio > 0 && self.aspect_ratio <= COMP_MAX
            && self.clip_near >= -COMP_MAX && self.clip_near < self.clip_far
            && self.clip_far <= COMP_MAX;
        if !bounds_ok {
            return false;
        }
        if self.look_at == self.pos {
            return false;
        }
        let d: Vec3 = self.look_at.minus(self.pos);
        let md: i64 = d.mag();
        proof {
            assert(norm_sq(d) >= 1) by (nonlinear_arith)
                requires
                    norm_sq(d) == d.x * d.x + d.y * d.y + d.z * d.z,
                    d.x != 0 || d.y != 0 || d.z != 0,
            ;
            assert(md >= 1) by (nonlinear_arith)
                requires
                    norm_sq(d) >= 1,
                    0 <= md,
                    norm_sq(d) < (md + 1) * (md + 1),
            ;
            crate::vec3::lemma_scaled_in_bounds(d, SCALE as int, md as int);
            crate::vec3::lemma_mul_range(d.x as int, SCALE as int, COMP_MAX as int, SCALE as int);
            crate::vec3::lemma_mul_range(d.y as int, SCALE as int, COMP_MAX as int, SCALE as int);
            crate::vec3::lemma_mul_range(d.z as int, SCALE as int, COMP_MAX as int, SCALE as int);
        }
        let f: Vec3 = Vec3 {
            x: crate::fixed::scale_mul_div(d.x, SCALE, md),
            y: crate::fixed::scale_mul_div(d.y, SCALE, md),
            z: crate::fixed::scale_mul_div(d.z, SCALE, md),
        };
        assert(f == look_dir_spec(self.pos, self.look_at));
        let c: Vec3 = cross(f, self.up);
        !(c.x == 0 && c.y == 0 && c.z == 0)
    }

    /// The view matrix (look-at from the configuration) and the
    /// orthographic projection with horizontal extent `[-aspect_ratio,
    /// aspect_ratio]`, vertical extent one unit either way, and depth
    /// range `[clip_near, clip_far]`.
    pub fn get_matrices(&self) -> (m: (Mat4, Mat4))
        requires
            self.valid(),
        ensures
            m.0 == look_at_spec(self.pos, self.look_at, self.up),
            m.1 == ortho_spec(
                -self.aspect_ratio as int,
                self.aspect_ratio as int,
                -SCALE as int,
                SCALE as int,
                self.clip_near as int,
                self.clip_far as int,
            ),
    {
        let view: Mat4 = look_at(self.pos, self.look_at, self.up);
        let projection: Mat4 = orthographic(
            -self.aspect_ratio,
            self.aspect_ratio,
            -SCALE,
            SCALE,
            self.clip_near,
            self.clip_far,
        );
        (view, projection)
    }
}

impl Default for Camera {
    /// The stock scene camera: one unit behind the origin, looking at it,
    /// y up, 16:9, clipping from a tenth of a unit to a hundred units.
    fn default() -> (c: Camera)
        ensures
            c.pos == (Vec3 { x: 0i64, y: 0i64, z: SCALE }),
            c.look_at == (Vec3 { x: 0i64, y: 0i64, z: 0i64 }),
            c.up == (Vec3 { x: 0i64, y: SCALE, z: 0i64 }),
            c.aspect_ratio == ASPECT_16_9,
            ASPECT_16_9 == 16 * SCALE / 9,
            c.clip_near == SCALE / 10,
            c.clip_far == 100 * SCALE,
    {
        Camera {
            pos: Vec3 { x: 0, y: 0, z: SCALE },
            look_at: Vec3 { x: 0, y: 0, z: 0 },
            up: Vec3 { x: 0, y: SCALE, z: 0 },
            aspect_ratio: ASPECT_16_9,
            clip_near: 100_000,
            clip_far: 100 * SCALE,
        }
    }
}

} // verus!
