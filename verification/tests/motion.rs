use asteroids_core::fixed::{isqrt, SCALE};
use asteroids_core::game_object::{GameObject, MAX_SPEED};
use asteroids_core::input_manager::InputManager;
use asteroids_core::vec3::Vec3;
use asteroids_core::Tag;

fn mag(v: Vec3) -> i64 {
    isqrt(v.x * v.x + v.y * v.y + v.z * v.z)
}

#[test]
fn new_object_is_at_rest() {
    let o = GameObject::new(Tag::Player, (1_000, -2_000));
    assert_eq!(o.tag, Tag::Player);
    assert_eq!(o.pos, Vec3::new(1_000, -2_000, 0));
    assert_eq!(o.vel, Vec3::zero());
    assert_eq!(o.acc, Vec3::zero());
    assert_eq!(o.rot, 0);
}

#[test]
fn one_second_of_diagonal_input() {
    // object at the origin, heading 0; one update of a full second with
    // the up+right key combination and the target straight ahead
    let mut o = GameObject::new(Tag::Player, (0, 0));
    o.update(SCALE, Vec3::new(SCALE, SCALE, 0), 0);
    // acceleration: the unit diagonal (0.707107, 0.707107, 0)
    assert_eq!(o.acc, Vec3::new(707_107, 707_107, 0));
    // velocity: clamped onto the speed cap, magnitude 0.2 within rounding
    assert_eq!(o.vel, Vec3::new(141_421, 141_421, 0));
    assert!((mag(o.vel) - MAX_SPEED).abs() <= 1);
    // position: velocity times one second
    assert_eq!(o.pos, o.vel);
    // heading untouched: the target was dead ahead
    assert_eq!(o.rot, 0);
}

#[test]
fn sustained_thrust_caps_at_max_speed() {
    // 0.01 s frames of full-right input: vel.x climbs by 10_000 ticks a
    // frame, caps at MAX_SPEED after 20 frames, and the magnitude never
    // exceeds the cap at any frame boundary
    let mut o = GameObject::new(Tag::Player, (0, 0));
    let delta = 10_000i64;
    for n in 1..=24i64 {
        o.update(delta, Vec3::new(SCALE, 0, 0), 0);
        let expected = (n * delta).min(MAX_SPEED);
        assert_eq!(o.vel, Vec3::new(expected, 0, 0));
        assert!(mag(o.vel) <= MAX_SPEED);
    }
    assert_eq!(o.vel.x, MAX_SPEED);
}

#[test]
fn coasting_keeps_velocity() {
    // no drag: with no input the velocity is retained exactly
    let mut o = GameObject::new(Tag::Player, (0, 0));
    o.update(SCALE, Vec3::new(SCALE, 0, 0), 0);
    let v = o.vel;
    let p = o.pos;
    o.update(SCALE, Vec3::zero(), 0);
    assert_eq!(o.vel, v);
    assert_eq!(o.acc, Vec3::zero());
    assert_eq!(o.pos, Vec3::new(p.x + v.x, p.y + v.y, p.z + v.z));
}

#[test]
fn turning_converges_and_hovers() {
    // target heading one radian to the left, 0.1 s frames: the turn is
    // 0.3 rad a frame, so the heading walks 0, 0.3, 0.6, 0.9, 1.2 and
    // then hovers around the target, never further than one frame's turn
    let mut o = GameObject::new(Tag::Player, (0, 0));
    let target = SCALE; // 1 radian
    let delta = 100_000i64; // 0.1 s, so one frame turns 300_000
    let mut seen = Vec::new();
    for _ in 0..6 {
        let diff = target - o.rot;
        o.update(delta, Vec3::zero(), diff);
        seen.push(o.rot);
    }
    assert_eq!(seen, vec![300_000, 600_000, 900_000, 1_200_000, 900_000, 1_200_000]);
    // within ceil(1.0 / 0.3) = 4 steps the heading is within one turn
    for rot in &seen[3..] {
        assert!((target - rot).abs() <= 300_000);
    }
}

#[test]
fn aligned_heading_stays_put() {
    let mut o = GameObject::new(Tag::Player, (0, 0));
    o.update(SCALE, Vec3::zero(), 0);
    assert_eq!(o.rot, 0);
}

#[test]
fn turning_right_is_negative() {
    let mut o = GameObject::new(Tag::Player, (0, 0));
    o.update(100_000, Vec3::zero(), -SCALE);
    assert_eq!(o.rot, -300_000);
}

#[test]
fn input_manager_starts_clear() {
    let im = InputManager::new();
    assert!(!im.up && !im.down && !im.left && !im.right);
    assert!(!im.rot_left && !im.rot_right);
    assert_eq!(im.mouse_pos, (0, 0));
}

#[test]
fn key_flags_add_up() {
    let mut im = InputManager::new();
    im.up = true;
    im.right = true;
    assert_eq!(im.acceleration_input(), Vec3::new(SCALE, SCALE, 0));
    im.left = true; // left and right cancel
    assert_eq!(im.acceleration_input(), Vec3::new(0, SCALE, 0));
    im.down = true; // all four cancel
    assert_eq!(im.acceleration_input(), Vec3::zero());
}

#[test]
fn mouse_maps_to_world() {
    let mut im = InputManager::new();
    // the window center is the world origin
    im.mouse_pos = (640, 360);
    assert_eq!(im.mouse_world_target(1280, 720), Vec3::zero());
    // the top-right pixel corner is (aspect, 1)
    im.mouse_pos = (1280, 0);
    assert_eq!(im.mouse_world_target(1280, 720), Vec3::new(1_777_777, SCALE, 0));
    // the top-left corner mirrors it
    im.mouse_pos = (0, 0);
    assert_eq!(im.mouse_world_target(1280, 720), Vec3::new(-1_777_777, SCALE, 0));
}
