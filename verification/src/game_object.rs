//! A movable game object and its per-frame update: acceleration from raw
//! directional input, velocity integration under a hard speed cap, position
//! integration, and a bang-bang heading controller that turns at a fixed
//! rate toward a target.
//!
//! The trigonometric extraction of the signed angle between the current
//! facing and the target direction needs the renderer's floating-point
//! toolkit, so `update` takes that angle ready-made; everything the angle
//! drives — the turn decision and the heading integration — is verified
//! here.

use crate::fixed::{
    lemma_mul_div_trunc_bound, lemma_sqrt_unique, mul_div_trunc, scale_mul_div, COMP_MAX, SCALE,
};
use crate::vec3::{
    clamp_magnitude, clamp_spec, in_bounds, lemma_mul_range, mag_spec, norm_sq,
    normalize_or_zero, normalize_or_zero_spec, scaled_vec, Vec3,
};
use crate::Tag;
use vstd::math::abs;
use vstd::math::min;
use vstd::prelude::*;

verus! {

/// Hard cap on the magnitude of a velocity, in ticks per second (0.2
/// world units per second).
pub const MAX_SPEED: i64 = 200_000;

/// Fixed turn rate of the heading controller, in ticks of radians per
/// second (3 radians per second).
pub const ROT_RATE: i64 = 3_000_000;

/// Longest frame time an update accepts, in ticks of seconds (500
/// seconds); keeps every intermediate product inside `i64`.
pub const DT_MAX: i64 = 500_000_000;

/// Largest position component an update accepts; far beyond any playfield
/// while keeping position sums inside `i64`.
pub const POS_LIMIT: i64 = 1_000_000_000_000_000;

/// Largest heading an update accepts, in ticks of radians.
pub const ROT_LIMIT: i64 = 1_000_000_000_000_000;

/// Componentwise sum of two vectors whose component sums fit the machine
/// word.
pub open spec fn vec_sum(a: Vec3, b: Vec3) -> Vec3 {
    Vec3 { x: (a.x + b.x) as i64, y: (a.y + b.y) as i64, z: (a.z + b.z) as i64 }
}

/// One velocity stage: integrate the acceleration over `delta`, then clamp
/// the result to `MAX_SPEED`.
pub open spec fn vel_step(vel: Vec3, acc: Vec3, delta: int) -> Vec3 {
    clamp_spec(vec_sum(vel, scaled_vec(acc, delta, SCALE as int)), MAX_SPEED as int)
}

/// One position stage: integrate the velocity over `delta`.
pub open spec fn pos_step(pos: Vec3, vel: Vec3, delta: int) -> Vec3 {
    vec_sum(pos, scaled_vec(vel, delta, SCALE as int))
}

/// How far the heading turns in one frame of length `delta`.
pub open spec fn turn_amount(delta: int) -> int {
    mul_div_trunc(ROT_RATE as int, delta, SCALE as int)
}

/// One heading stage: turn at the fixed rate toward the target, the
/// direction chosen by the sign of the angular difference; an exactly
/// aligned heading stays put.
pub open spec fn rot_step(rot: int, angle_diff: int, delta: int) -> int {
    if angle_diff > 0 {
        rot + turn_amount(delta)
    } else if angle_diff < 0 {
        rot - turn_amount(delta)
    } else {
        rot
    }
}

/// A movable object: position, velocity, acceleration and heading, with
/// the velocity permanently capped at `MAX_SPEED`.
pub struct GameObject {
    pub tag: Tag,
    pub pos: Vec3,
    pub vel: Vec3,
    pub acc: Vec3,
    /// Heading angle about the screen plane, in ticks of radians; grows
    /// without wraparound.
    pub rot: i64,
}

impl GameObject {
    /// The standing invariant: the velocity never exceeds the speed cap,
    /// and the acceleration is the output of the normalizer.
    pub open spec fn well_formed(self) -> bool {
        &&& mag_spec(self.vel) <= MAX_SPEED
        &&& in_bounds(self.vel, MAX_SPEED as int)
        &&& in_bounds(self.acc, SCALE as int)
    }

    /// A fresh object at a horizontal position: at rest, facing straight
    /// up the screen.
    pub fn new(tag: Tag, pos: (i64, i64)) -> (r: GameObject)
        ensures
            r.tag == tag,
            r.pos == (Vec3 { x: pos.0, y: pos.1, z: 0i64 }),
            r.vel == (Vec3 { x: 0i64, y: 0i64, z: 0i64 }),
            r.acc == (Vec3 { x: 0i64, y: 0i64, z: 0i64 }),
            r.rot == 0,
            r.well_formed(),
    {
        let r = GameObject {
            tag,
            pos: Vec3 { x: pos.0, y: pos.1, z: 0 },
            vel: Vec3 { x: 0, y: 0, z: 0 },
            acc: Vec3 { x: 0, y: 0, z: 0 },
            rot: 0,
        };
        proof {
            lemma_zero_mag();
        }
        r
    }

    /// Acceleration stage: the raw directional input, normalized so that
    /// diagonal input is no faster than axis-aligned input.
    fn update_acc(&mut self, acc: Vec3)
        requires
            in_bounds(acc, COMP_MAX as int),
        ensures
            final(self).acc == normalize_or_zero_spec(acc),
            in_bounds(final(self).acc, SCALE as int),
            final(self).pos == old(self).pos,
            final(self).vel == old(self).vel,
            final(self).rot == old(self).rot,
            final(self).tag == old(self).tag,
    {
        self.acc = normalize_or_zero(acc);
    }

    /// Velocity stage: integrate the acceleration, then clamp to the speed
    /// cap.
    fn update_vel(&mut self, delta: i64)
        requires
            0 <= delta <= DT_MAX,
            in_bounds(old(self).vel, MAX_SPEED as int),
            in_bounds(old(self).acc, SCALE as int),
        ensures
            final(self).vel == vel_step(old(self).vel, old(self).acc, delta as int),
            mag_spec(final(self).vel) <= MAX_SPEED,
            in_bounds(final(self).vel, MAX_SPEED as int),
            final(self).pos == old(self).pos,
            final(self).acc == old(self).acc,
            final(self).rot == old(self).rot,
            final(self).tag == old(self).tag,
    {
        proof {
            lemma_mul_range(self.acc.x as int, delta as int, SCALE as int, DT_MAX as int);
            lemma_mul_range(self.acc.y as int, delta as int, SCALE as int, DT_MAX as int);
            lemma_mul_range(self.acc.z as int, delta as int, SCALE as int, DT_MAX as int);
            crate::fixed::lemma_mul_div_trunc_le(self.acc.x as int, delta as int, SCALE as int);
            crate::fixed::lemma_mul_div_trunc_le(self.acc.y as int, delta as int, SCALE as int);
            crate::fixed::lemma_mul_div_trunc_le(self.acc.z as int, delta as int, SCALE as int);
        }
        let dvx: i64 = scale_mul_div(self.acc.x, delta, SCALE);
        let dvy: i64 = scale_mul_div(self.acc.y, delta, SCALE);
        let dvz: i64 = scale_mul_div(self.acc.z, delta, SCALE);
        let grown: Vec3 = self.vel.plus(Vec3 { x: dvx, y: dvy, z: dvz });
        assert(grown == vec_sum(old(self).vel, scaled_vec(old(self).acc, delta as int, SCALE as int)));
        self.vel = clamp_magnitude(grown, MAX_SPEED);
    }

    /// Position stage: integrate the velocity.
    fn update_pos(&mut self, delta: i64)
        requires
            0 <= delta <= DT_MAX,
            in_bounds(old(self).vel, MAX_SPEED as int),
            in_bounds(old(self).pos, POS_LIMIT as int),
        ensures
            final(self).pos == pos_step(old(self).pos, old(self).vel, delta as int),
            in_bounds(final(self).pos, POS_LIMIT as int + DT_MAX as int),
            final(self).vel == old(self).vel,
            final(self).acc == old(self).acc,
            final(self).rot == old(self).rot,
            final(self).tag == old(self).tag,
    {
        proof {
            lemma_mul_range(self.vel.x as int, delta as int, MAX_SPEED as int, DT_MAX as int);
            lemma_mul_range(self.vel.y as int, delta as int, MAX_SPEED as int, DT_MAX as int);
            lemma_mul_range(self.vel.z as int, delta as int, MAX_SPEED as int, DT_MAX as int);
            crate::fixed::lemma_mul_div_trunc_le(self.vel.x as int, delta as int, SCALE as int);
            crate::fixed::lemma_mul_div_trunc_le(self.vel.y as int, delta as int, SCALE as int);
            crate::fixed::lemma_mul_div_trunc_le(self.vel.z as int, delta as int, SCALE as int);
        }
        let dpx: i64 = scale_mul_div(self.vel.x, delta, SCALE);
        let dpy: i64 = scale_mul_div(self.vel.y, delta, SCALE);
        let dpz: i64 = scale_mul_div(self.vel.z, delta, SCALE);
        self.pos = self.pos.plus(Vec3 { x: dpx, y: dpy, z: dpz });
    }

    /// Heading stage: turn toward the target at the fixed rate. The
    /// controller is bang-bang — full rate toward the target, no slowing
    /// near it — so the heading may hover around the target by up to one
    /// frame's turn.
    fn update_rot(&mut self, angle_to_target: i64, delta: i64)
        requires
            0 <= delta <= DT_MAX,
            -ROT_LIMIT <= old(self).rot <= ROT_LIMIT,
        ensures
            final(self).rot == rot_step(old(self).rot as int, angle_to_target as int, delta as int),
            -ROT_LIMIT - 3 * DT_MAX <= final(self).rot <= ROT_LIMIT + 3 * DT_MAX,
            final(self).pos == old(self).pos,
            final(self).vel == old(self).vel,
            final(self).acc == old(self).acc,
            final(self).tag == old(self).tag,
    {
        proof {
            lemma_mul_range(ROT_RATE as int, delta as int, ROT_RATE as int, DT_MAX as int);
            lemma_mul_div_trunc_bound(ROT_RATE as int, delta as int, SCALE as int);
        }
        let turn: i64 = scale_mul_div(ROT_RATE, delta, SCALE);
        assert(0 <= turn && turn * SCALE <= ROT_RATE * delta);
        assert(turn <= 3 * delta);
        if angle_to_target > 0 {
            self.rot = self.rot + turn;
        } else if angle_to_target < 0 {
            self.rot = self.rot - turn;
        }
    }

    /// One frame: heading first, then acceleration, velocity and position,
    /// each stage reading the stage before it. `angle_to_target` is the
    /// signed angular difference from the current facing to the target
    /// direction, in ticks of radians.
    pub fn update(&mut self, delta: i64, acc: Vec3, angle_to_target: i64)
        requires
            old(self).well_formed(),
            0 <= delta <= DT_MAX,
            in_bounds(acc, COMP_MAX as int),
            in_bounds(old(self).pos, POS_LIMIT as int),
            -ROT_LIMIT <= old(self).rot <= ROT_LIMIT,
        ensures
            final(self).well_formed(),
            final(self).rot == rot_step(old(self).rot as int, angle_to_target as int, delta as int),
            final(self).acc == normalize_or_zero_spec(acc),
            final(self).vel == vel_step(old(self).vel, normalize_or_zero_spec(acc), delta as int),
            final(self).pos == pos_step(old(self).pos, final(self).vel, delta as int),
            mag_spec(final(self).vel) <= MAX_SPEED,
            final(self).tag == old(self).tag,
    {
        self.update_rot(angle_to_target, delta);
        self.update_acc(acc);
        self.update_vel(delta);
        self.update_pos(delta);
    }
}

/// The zero vector has magnitude zero.
pub proof fn lemma_zero_mag()
    ensures
        mag_spec(Vec3 { x: 0i64, y: 0i64, z: 0i64 }) == 0,
        norm_sq(Vec3 { x: 0i64, y: 0i64, z: 0i64 }) == 0,
{
    lemma_sqrt_unique(0, 0);
}


/// Full-right raw input: one unit along the `x` axis.
pub open spec fn unit_x() -> Vec3 {
    Vec3 { x: SCALE, y: 0i64, z: 0i64 }
}

/// A raw input of one unit along an axis passes through the normalizer
/// unchanged.
pub proof fn lemma_unit_x_normalizes_to_itself()
    ensures
        normalize_or_zero_spec(unit_x()) == unit_x(),
{
    let v: Vec3 = unit_x();
    assert(norm_sq(v) == SCALE as int * SCALE as int);
    crate::fixed::lemma_sqrt_of_square(SCALE as int);
    vstd::arithmetic::div_mod::lemma_div_multiples_vanish(SCALE as int, SCALE as int);
    assert(mul_div_trunc(SCALE as int, SCALE as int, SCALE as int) == SCALE as int);
    vstd::arithmetic::div_mod::lemma_div_basics_1(SCALE as int);
    assert(mul_div_trunc(0, SCALE as int, SCALE as int) == 0);
}

/// The velocity reached after `n` frames of sustained full-right raw
/// input, starting from rest, each frame `delta` long: each frame the raw
/// input runs through the normalizer and one velocity stage, exactly as
/// `update` chains them.
pub open spec fn sustained_vel(n: nat, delta: int) -> Vec3
    decreases n,
{
    if n == 0 {
        Vec3 { x: 0i64, y: 0i64, z: 0i64 }
    } else {
        vel_step(sustained_vel((n - 1) as nat, delta), normalize_or_zero_spec(unit_x()), delta)
    }
}

/// Law: under sustained full-right input from rest the horizontal speed
/// grows by `delta` ticks each frame until it reaches `MAX_SPEED` exactly,
/// caps there, and the velocity magnitude never exceeds `MAX_SPEED` at any
/// frame boundary.
pub proof fn lemma_sustained_thrust(n: nat, delta: int)
    requires
        0 < delta <= DT_MAX as int,
    ensures
        sustained_vel(n, delta).x == min(n * delta, MAX_SPEED as int),
        sustained_vel(n, delta).y == 0,
        sustained_vel(n, delta).z == 0,
        mag_spec(sustained_vel(n, delta)) <= MAX_SPEED,
    decreases n,
{
    lemma_zero_mag();
    if n == 0 {
        assert(n * delta == 0) by (nonlinear_arith)
            requires
                n == 0,
        ;
    } else {
        lemma_sustained_thrust((n - 1) as nat, delta);
        lemma_unit_x_normalizes_to_itself();
        assert(n * delta == (n - 1) * delta + delta) by (nonlinear_arith)
            requires
                n >= 1,
        ;
        let prev: Vec3 = sustained_vel((n - 1) as nat, delta);
        let px: int = prev.x as int;
        // the acceleration integrates to exactly `delta` ticks along x
        vstd::arithmetic::div_mod::lemma_div_multiples_vanish(delta, SCALE as int);
        assert(mul_div_trunc(SCALE as int, delta, SCALE as int) == delta);
        vstd::arithmetic::div_mod::lemma_div_basics_1(SCALE as int);
        assert(mul_div_trunc(0, delta, SCALE as int) == 0);
        let grown: Vec3 = vec_sum(prev, scaled_vec(unit_x(), delta, SCALE as int));
        let g: int = px + delta;
        assert(grown == (Vec3 { x: g as i64, y: 0i64, z: 0i64 }));
        assert(norm_sq(grown) == g * g);
        crate::fixed::lemma_sqrt_of_square(g);
        assert(mag_spec(grown) == g);
        if g <= MAX_SPEED {
            assert(sustained_vel(n, delta) == grown);
        } else {
            // the clamp rescales (g, 0, 0) onto the cap exactly
            vstd::arithmetic::div_mod::lemma_div_multiples_vanish(MAX_SPEED as int, g);
            assert(mul_div_trunc(g, MAX_SPEED as int, g) == MAX_SPEED);
            vstd::arithmetic::div_mod::lemma_div_basics_1(g);
            assert(mul_div_trunc(0, MAX_SPEED as int, g) == 0);
            let capped: Vec3 = scaled_vec(grown, MAX_SPEED as int, g);
            assert(capped == (Vec3 { x: MAX_SPEED, y: 0i64, z: 0i64 }));
            assert(norm_sq(capped) == MAX_SPEED as int * MAX_SPEED as int);
            crate::fixed::lemma_sqrt_of_square(MAX_SPEED as int);
        }
    }
}

/// The heading reached after `n` frames of turning toward a fixed target
/// heading, each frame `delta` long.
pub open spec fn heading_after(rot: int, target: int, delta: int, n: nat) -> int
    decreases n,
{
    if n == 0 {
        rot
    } else {
        heading_after(rot_step(rot, target - rot, delta), target, delta, (n - 1) as nat)
    }
}

/// One frame's turn is exactly the rate times the frame length (the
/// division by the tick scale is exact because `ROT_RATE` is a whole
/// number of radians).
pub proof fn lemma_turn_amount_exact(delta: int)
    requires
        0 <= delta,
    ensures
        turn_amount(delta) == 3 * delta,
{
    vstd::arithmetic::div_mod::lemma_div_multiples_vanish(3 * delta, SCALE as int);
    assert(ROT_RATE as int * delta == SCALE as int * (3 * delta));
}

/// Law: one turning frame moves the heading by exactly one frame's turn
/// while the target is at least that far away, and never leaves the
/// heading further than one frame's turn from the target once it is
/// within that distance — the bang-bang controller may hover, but never
/// overshoots by more than `ROT_RATE * delta`.
pub proof fn lemma_turn_never_overshoots(rot: int, target: int, delta: int)
    requires
        0 <= delta,
    ensures
        abs(target - rot) >= turn_amount(delta) ==> abs(target - rot_step(rot, target - rot, delta))
            == abs(target - rot) - turn_amount(delta),
        abs(target - rot) < turn_amount(delta) ==> abs(target - rot_step(rot, target - rot, delta))
            <= turn_amount(delta),
{
    lemma_mul_div_trunc_bound(ROT_RATE as int, delta, SCALE as int);
}

/// A heading within one frame's turn of the target stays within one
/// frame's turn of it, however long the turning continues.
pub proof fn lemma_turn_stays_close(rot: int, target: int, delta: int, n: nat)
    requires
        0 <= delta,
        abs(target - rot) <= turn_amount(delta),
    ensures
        abs(target - heading_after(rot, target, delta, n)) <= turn_amount(delta),
    decreases n,
{
    if n > 0 {
        lemma_turn_never_overshoots(rot, target, delta);
        lemma_turn_stays_close(rot_step(rot, target - rot, delta), target, delta, (n - 1) as nat);
    }
}

/// Law: turning toward a fixed target converges. Once `n` frames add up
/// to at least the initial angular difference — `n` at least the
/// difference divided by `ROT_RATE * delta`, rounded up — the heading is
/// within one frame's turn of the target, and stays there.
pub proof fn lemma_turn_converges(rot: int, target: int, delta: int, n: nat)
    requires
        0 <= delta,
        n * turn_amount(delta) >= abs(target - rot),
    ensures
        abs(target - heading_after(rot, target, delta, n)) <= turn_amount(delta),
    decreases n,
{
    lemma_mul_div_trunc_bound(ROT_RATE as int, delta, SCALE as int);
    let turn: int = turn_amount(delta);
    if n == 0 {
        assert(n * turn == 0) by (nonlinear_arith)
            requires
                n == 0,
        ;
    } else {
        assert(n * turn == (n - 1) * turn + turn) by (nonlinear_arith)
            requires
                n >= 1,
        ;
        lemma_turn_never_overshoots(rot, target, delta);
        let next: int = rot_step(rot, target - rot, delta);
        if abs(target - rot) <= turn {
            lemma_turn_stays_close(rot, target, delta, n);
        } else {
            assert((n - 1) * turn >= abs(target - next));
            lemma_turn_converges(next, target, delta, (n - 1) as nat);
        }
    }
}

} // verus!
