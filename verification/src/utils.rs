//! Boundary helpers: flattening a matrix into the column-major array a
//! shader uniform takes, and the default quad every object is drawn as.

use crate::fixed::{COMP_MAX, SCALE};
use crate::mat4::Mat4;
use crate::rendering::{Vertex, VertexPosition, VertexTexCoord};
use vstd::prelude::*;

verus! {

/// Flatten a matrix into the column-major 4x4 array the shader uniform
/// expects.
pub fn convert_mat4(mat: &Mat4) -> (r: [[i64; 4]; 4])
    ensures
        r[0] == [mat.c0.x, mat.c0.y, mat.c0.z, mat.c0.w],
        r[1] == [mat.c1.x, mat.c1.y, mat.c1.z, mat.c1.w],
        r[2] == [mat.c2.x, mat.c2.y, mat.c2.z, mat.c2.w],
        r[3] == [mat.c3.x, mat.c3.y, mat.c3.z, mat.c3.w],
{
    [
        [mat.c0.x, mat.c0.y, mat.c0.z, mat.c0.w],
        [mat.c1.x, mat.c1.y, mat.c1.z, mat.c1.w],
        [mat.c2.x, mat.c2.y, mat.c2.z, mat.c2.w],
        [mat.c3.x, mat.c3.y, mat.c3.z, mat.c3.w],
    ]
}

/// The four corners of a textured quad of half-side `scale`, in fan
/// order: bottom left, bottom right, top right, top left. The texture
/// spans the quad once.
pub fn quad(scale: i64) -> (vs: Vec<Vertex>)
    requires
        0 <= scale <= COMP_MAX,
    ensures
        vs@.len() == 4,
        vs@[0] == (Vertex {
            pos: VertexPosition { x: (-scale) as i64, y: (-scale) as i64 },
            tex_coord: VertexTexCoord { x: 0i64, y: 0i64 },
        }),
        vs@[1] == (Vertex {
            pos: VertexPosition { x: scale, y: (-scale) as i64 },
            tex_coord: VertexTexCoord { x: SCALE, y: 0i64 },
        }),
        vs@[2] == (Vertex {
            pos: VertexPosition { x: scale, y: scale },
            tex_coord: VertexTexCoord { x: SCALE, y: SCALE },
        }),
        vs@[3] == (Vertex {
            pos: VertexPosition { x: (-scale) as i64, y: scale },
            tex_coord: VertexTexCoord { x: 0i64, y: SCALE },
        }),
{
    let mut vs: Vec<Vertex> = Vec::new();
    vs.push(Vertex::from((-scale, -scale), (0, 0)));
    vs.push(Vertex::from((scale, -scale), (SCALE, 0)));
    vs.push(Vertex::from((scale, scale), (SCALE, SCALE)));
    vs.push(Vertex::from((-scale, scale), (0, SCALE)));
    vs
}

} // verus!
