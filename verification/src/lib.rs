//! Kinematic core of a small top-down ship game: fixed-point vector math,
//! per-frame integration with a speed cap, a bang-bang orientation controller,
//! and the camera / model-matrix pipeline that turns object state into
//! column-major matrices for a renderer.
//!
//! All quantities are scaled integers: a world unit is `SCALE` ticks, so the
//! whole core is exact integer arithmetic and every operation is verified.
//! The rendering layer converts these ticks to its own floating-point types
//! at the boundary.

use vstd::prelude::*;

pub mod camera;
pub mod fixed;
pub mod game_object;
pub mod input_manager;
pub mod mat4;
pub mod rendering;
pub mod utils;
pub mod vec3;

verus! {

/// Marks what kind of entity a game object is.
#[derive(Clone, Copy, PartialEq, Eq, Structural, Debug)]
pub enum Tag {
    Player,
}

} // verus!
