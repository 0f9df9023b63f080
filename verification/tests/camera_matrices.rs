use asteroids_core::camera::{Camera, ASPECT_16_9};
use asteroids_core::fixed::SCALE;
use asteroids_core::mat4::{model_matrix, translation_of, Mat4, Vec4};
use asteroids_core::utils::{convert_mat4, quad};
use asteroids_core::vec3::Vec3;

#[test]
fn default_camera_configuration() {
    let c = Camera::default();
    assert_eq!(c.pos, Vec3::new(0, 0, SCALE));
    assert_eq!(c.look_at, Vec3::zero());
    assert_eq!(c.up, Vec3::new(0, SCALE, 0));
    assert_eq!(c.aspect_ratio, ASPECT_16_9);
    assert_eq!(ASPECT_16_9, 16 * SCALE / 9);
    assert_eq!(c.clip_near, SCALE / 10);
    assert_eq!(c.clip_far, 100 * SCALE);
    assert!(c.is_valid());
}

#[test]
fn camera_with_coincident_focus_is_invalid() {
    let p = Vec3::new(1, 2, 3);
    let c = Camera::new(p, p, Vec3::new(0, SCALE, 0), ASPECT_16_9, 100_000, SCALE);
    assert!(!c.is_valid());
}

#[test]
fn camera_with_parallel_up_is_invalid() {
    // looking along the up direction leaves no right vector
    let c = Camera::new(
        Vec3::zero(),
        Vec3::new(0, SCALE, 0),
        Vec3::new(0, SCALE, 0),
        ASPECT_16_9,
        100_000,
        SCALE,
    );
    assert!(!c.is_valid());
}

#[test]
fn camera_with_reversed_clip_planes_is_invalid() {
    let c = Camera::new(
        Vec3::new(0, 0, SCALE),
        Vec3::zero(),
        Vec3::new(0, SCALE, 0),
        ASPECT_16_9,
        SCALE,
        100_000,
    );
    assert!(!c.is_valid());
}

#[test]
fn projection_respects_aspect_ratio() {
    // aspect 16/9, near 0.1, far 100: the horizontal extent is +-16/9,
    // the vertical extent +-1, independent of any object state
    let c = Camera::default();
    let (_, proj) = c.get_matrices();
    // vertical: one world unit maps to a full clip unit
    assert_eq!(proj.c1.y, SCALE);
    // horizontal: 16/9 world units map to a full clip unit
    assert_eq!(proj.c0.x, 562_500);
    let across = (proj.c0.x as i128 * c.aspect_ratio as i128) / SCALE as i128;
    assert!((across - SCALE as i128).abs() <= 1);
    // depth: the GL mapping of [0.1, 100]
    assert_eq!(proj.c2.z, -20_020);
    assert_eq!(proj.c3, Vec4 { x: 0, y: 0, z: -1_002_002, w: SCALE });
    // off-diagonal entries stay zero
    assert_eq!(proj.c0.y, 0);
    assert_eq!(proj.c0.z, 0);
    assert_eq!(proj.c1.x, 0);
    assert_eq!(proj.c2.x, 0);
}

#[test]
fn default_view_matrix_is_a_unit_frame() {
    let c = Camera::default();
    let (view, _) = c.get_matrices();
    // looking down -z from (0, 0, 1): the frame is the identity basis and
    // the translation pulls the scene one unit toward the camera
    assert_eq!(view.c0, Vec4 { x: SCALE, y: 0, z: 0, w: 0 });
    assert_eq!(view.c1, Vec4 { x: 0, y: SCALE, z: 0, w: 0 });
    assert_eq!(view.c2, Vec4 { x: 0, y: 0, z: SCALE, w: 0 });
    assert_eq!(view.c3, Vec4 { x: 0, y: 0, z: -SCALE, w: SCALE });
}

#[test]
fn model_matrix_roundtrips_translation() {
    // compose from position (1, 2, 0) and heading 0, read the
    // translation column back: exactly (1, 2, 0)
    let pos = Vec3::new(SCALE, 2 * SCALE, 0);
    let m = model_matrix(pos, SCALE, 0);
    assert_eq!(translation_of(&m), pos);
    // heading 0: the rotation block is the identity
    assert_eq!(m.c0, Vec4 { x: SCALE, y: 0, z: 0, w: 0 });
    assert_eq!(m.c1, Vec4 { x: 0, y: SCALE, z: 0, w: 0 });
}

#[test]
fn model_matrix_rotates_in_the_screen_plane() {
    // a quarter turn: cos 0, sin 1; the translation column is untouched
    let pos = Vec3::new(42, -7, 0);
    let m = model_matrix(pos, 0, SCALE);
    assert_eq!(m.c0, Vec4 { x: 0, y: SCALE, z: 0, w: 0 });
    assert_eq!(m.c1, Vec4 { x: -SCALE, y: 0, z: 0, w: 0 });
    assert_eq!(translation_of(&m), pos);
}

#[test]
fn convert_mat4_is_column_major() {
    let m = Mat4 {
        c0: Vec4 { x: 1, y: 2, z: 3, w: 4 },
        c1: Vec4 { x: 5, y: 6, z: 7, w: 8 },
        c2: Vec4 { x: 9, y: 10, z: 11, w: 12 },
        c3: Vec4 { x: 13, y: 14, z: 15, w: 16 },
    };
    let a = convert_mat4(&m);
    assert_eq!(a, [[1, 2, 3, 4], [5, 6, 7, 8], [9, 10, 11, 12], [13, 14, 15, 16]]);
}

#[test]
fn quad_fans_counterclockwise_from_bottom_left() {
    let vs = quad(75_000); // the ship quad: half-side 0.075
    assert_eq!(vs.len(), 4);
    assert_eq!(vs[0].pos.x, -75_000);
    assert_eq!(vs[0].pos.y, -75_000);
    assert_eq!(vs[0].tex_coord.x, 0);
    assert_eq!(vs[0].tex_coord.y, 0);
    assert_eq!(vs[1].pos.x, 75_000);
    assert_eq!(vs[1].pos.y, -75_000);
    assert_eq!(vs[1].tex_coord.x, SCALE);
    assert_eq!(vs[2].pos.x, 75_000);
    assert_eq!(vs[2].pos.y, 75_000);
    assert_eq!(vs[3].pos.x, -75_000);
    assert_eq!(vs[3].pos.y, 75_000);
    assert_eq!(vs[3].tex_coord.y, SCALE);
}
