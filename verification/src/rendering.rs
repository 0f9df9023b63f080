//! The vertex data the render boundary consumes. The shader-facing
//! wrappers (uniform interface, GPU vertex attributes) live with the
//! renderer; here are the bare semantics and the vertex values themselves,
//! in ticks.

use vstd::prelude::*;

verus! {

/// The vertex attributes a shader consumes: a screen-plane position and a
/// texture coordinate.
#[derive(Clone, Copy, Debug, PartialEq, Eq, Structural)]
pub enum Semantics {
    Position,
    TexCoord,
}

/// A vertex position in the screen plane, in ticks.
#[derive(Clone, Copy, Debug, PartialEq, Eq, Structural)]
pub struct VertexPosition {
    pub x: i64,
    pub y: i64,
}

/// A texture coordinate, in ticks (the texture spans `[0, SCALE]` on each
/// axis).
#[derive(Clone, Copy, Debug, PartialEq, Eq, Structural)]
pub struct VertexTexCoord {
    pub x: i64,
    pub y: i64,
}

/// One quad vertex: position in the screen plane and texture coordinate.
#[derive(Clone, Copy, Debug, PartialEq, Eq, Structural)]
pub struct Vertex {
    pub pos: VertexPosition,
    pub tex_coord: VertexTexCoord,
}

impl Vertex {
    /// Bundle a position and a texture coordinate into a vertex.
    pub fn from(pos: (i64, i64), tex_coord: (i64, i64)) -> (v: Vertex)
        ensures
            v.pos == (VertexPosition { x: pos.0, y: pos.1 }),
            v.tex_coord == (VertexTexCoord { x: tex_coord.0, y: tex_coord.1 }),
    {
        Vertex {
            pos: VertexPosition { x: pos.0, y: pos.1 },
            tex_coord: VertexTexCoord { x: tex_coord.0, y: tex_coord.1 },
        }
    }
}

} // verus!
