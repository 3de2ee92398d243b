//! Renderable surface meshes: quads of coloured, lit vertices, accumulated
//! by the chunk mesh generator.

pub mod vol;

use crate::math::Vec3i;
use crate::volume::Rgb8;
use vstd::prelude::*;

verus! {

/// One mesh vertex: lattice position, outward face normal and final
/// (occlusion-blended) colour.
#[derive(Clone, Copy, Debug, PartialEq, Eq, Structural)]
pub struct Vertex {
    pub pos: Vec3i,
    pub norm: Vec3i,
    pub col: Rgb8,
}

/// One face quad, four vertices in fan order; the quad is split into its
/// two triangles along the diagonal from `a` to `c`.
#[derive(Clone, Copy, Debug, PartialEq, Eq, Structural)]
pub struct Quad {
    pub a: Vertex,
    pub b: Vertex,
    pub c: Vertex,
    pub d: Vertex,
}

impl Quad {
    pub fn new(a: Vertex, b: Vertex, c: Vertex, d: Vertex) -> (q: Quad)
        ensures
            q == (Quad { a, b, c, d }),
    {
        Quad { a, b, c, d }
    }
}

/// An accumulated surface mesh.
pub struct Mesh {
    pub quads: Vec<Quad>,
}

impl Mesh {
    pub fn new() -> (m: Mesh)
        ensures
            m.quads@ == Seq::<Quad>::empty(),
    {
        Mesh { quads: Vec::new() }
    }

    pub fn push_quad(&mut self, q: Quad)
        ensures
            final(self).quads@ == old(self).quads@.push(q),
    {
        self.quads.push(q);
    }
}

} // verus!
