use crate::color::Srgba;
use crate::dpi::{LogicalPoint, LogicalQuad, LogicalRect, NormalizedPoint, NormalizedQuad,
    NormalizedRect};
use crate::math::Point;
use crate::renderer::primitives::TextureId;
use vstd::prelude::*;

verus! {

/// One GPU vertex: position in fixed-point logical pixels, texture
/// coordinates in fixed-point normalized units, a color, and the texture
/// array layer sampled.
#[derive(Clone, Copy)]
pub struct Vertex {
    pub pos: LogicalPoint,
    pub uv: NormalizedPoint,
    pub color: Srgba,
    pub layer_idx: u32,
}

/// The four vertices of a rectangle: its corners in clockwise order
/// starting at the top left, each sampling the matching UV corner.
pub open spec fn rect_vertices(
    rect: LogicalRect,
    uv: NormalizedRect,
    color: Srgba,
    layer_idx: u32,
) -> Seq<Vertex> {
    seq![
        Vertex { pos: rect.min, uv: uv.min, color, layer_idx },
        Vertex {
            pos: Point { x: rect.max.x, y: rect.min.y, space: core::marker::PhantomData },
            uv: Point { x: uv.max.x, y: uv.min.y, space: core::marker::PhantomData },
            color,
            layer_idx,
        },
        Vertex { pos: rect.max, uv: uv.max, color, layer_idx },
        Vertex {
            pos: Point { x: rect.min.x, y: rect.max.y, space: core::marker::PhantomData },
            uv: Point { x: uv.min.x, y: uv.max.y, space: core::marker::PhantomData },
            color,
            layer_idx,
        },
    ]
}

/// The four vertices of a free quadrilateral, corner by corner.
pub open spec fn quad_vertices(
    quad: LogicalQuad,
    uv: NormalizedQuad,
    color: Srgba,
    layer_idx: u32,
) -> Seq<Vertex> {
    seq![
        Vertex { pos: quad.p0, uv: uv.p0, color, layer_idx },
        Vertex { pos: quad.p1, uv: uv.p1, color, layer_idx },
        Vertex { pos: quad.p2, uv: uv.p2, color, layer_idx },
        Vertex { pos: quad.p3, uv: uv.p3, color, layer_idx },
    ]
}

/// The six indices drawing the two triangles of the four-vertex group
/// starting at `base`, with consistent winding.
pub open spec fn group_indices(base: int) -> Seq<u32> {
    seq![
        base as u32,
        (base + 1) as u32,
        (base + 3) as u32,
        (base + 1) as u32,
        (base + 2) as u32,
        (base + 3) as u32,
    ]
}

/// The index list for `n` four-vertex groups.
pub open spec fn groups_indices(n: int) -> Seq<u32>
    decreases n,
{
    if n <= 0 {
        Seq::empty()
    } else {
        groups_indices(n - 1) + group_indices(4 * (n - 1))
    }
}

/// A batch of vertices and indices drawn with a single texture bind.
pub struct Mesh {
    pub vertices: Vec<Vertex>,
    pub indices: Vec<u32>,
    pub texture_id: TextureId,
}

impl Mesh {
    /// The mesh is a whole number of four-vertex groups and its index
    /// list is exactly the two-triangle pattern over those groups.
    pub open spec fn wf(self) -> bool {
        &&& self.vertices@.len() % 4 == 0
        &&& self.vertices@.len() <= 0x1000_0000
        &&& self.indices@ == groups_indices(self.vertices@.len() as int / 4)
    }

    pub fn new_empty(texture_id: TextureId) -> (m: Mesh)
        ensures
            m.wf(),
            m.vertices@.len() == 0,
            m.indices@.len() == 0,
            m.texture_id == texture_id,
    {
        Mesh { vertices: Vec::new(), indices: Vec::new(), texture_id }
    }

    /// Appends one rectangle as a four-vertex group with two triangles.
    pub fn add_rect(&mut self, rect: LogicalRect, uv: NormalizedRect, color: Srgba, layer_idx: u32)
        requires
            old(self).wf(),
            old(self).vertices@.len() < 0x1000_0000,
        ensures
            final(self).wf(),
            final(self).vertices@ == old(self).vertices@ + rect_vertices(
                rect,
                uv,
                color,
                layer_idx,
            ),
            final(self).texture_id == old(self).texture_id,
    {
        let i = self.vertices.len() as u32;
        self.indices.push(i);
        self.indices.push(i + 1);
        self.indices.push(i + 3);
        self.indices.push(i + 1);
        self.indices.push(i + 2);
        self.indices.push(i + 3);
        self.vertices.push(Vertex { pos: rect.top_left(), uv: uv.top_left(), color, layer_idx });
        self.vertices.push(Vertex { pos: rect.top_right(), uv: uv.top_right(), color, layer_idx });
        self.vertices.push(
            Vertex { pos: rect.bottom_right(), uv: uv.bottom_right(), color, layer_idx },
        );
        self.vertices.push(
            Vertex { pos: rect.bottom_left(), uv: uv.bottom_left(), color, layer_idx },
        );
        proof {
            let n = old(self).vertices@.len() as int / 4;
            assert(final(self).vertices@.len() as int / 4 == n + 1);
            assert(final(self).indices@ =~= groups_indices(n) + group_indices(4 * n));
            assert(final(self).vertices@ =~= old(self).vertices@ + rect_vertices(
                rect,
                uv,
                color,
                layer_idx,
            ));
        }
    }

    /// Appends one free quadrilateral as a four-vertex group.
    pub fn add_quad(&mut self, quad: LogicalQuad, uv: NormalizedQuad, color: Srgba, layer_idx: u32)
        requires
            old(self).wf(),
            old(self).vertices@.len() < 0x1000_0000,
        ensures
            final(self).wf(),
            final(self).vertices@ == old(self).vertices@ + quad_vertices(
                quad,
                uv,
                color,
                layer_idx,
            ),
            final(self).texture_id == old(self).texture_id,
    {
        let i = self.vertices.len() as u32;
        self.indices.push(i);
        self.indices.push(i + 1);
        self.indices.push(i + 3);
        self.indices.push(i + 1);
        self.indices.push(i + 2);
        self.indices.push(i + 3);
        self.vertices.push(Vertex { pos: quad.p0, uv: uv.p0, color, layer_idx });
        self.vertices.push(Vertex { pos: quad.p1, uv: uv.p1, color, layer_idx });
        self.vertices.push(Vertex { pos: quad.p2, uv: uv.p2, color, layer_idx });
        self.vertices.push(Vertex { pos: quad.p3, uv: uv.p3, color, layer_idx });
        proof {
            let n = old(self).vertices@.len() as int / 4;
            assert(final(self).vertices@.len() as int / 4 == n + 1);
            assert(final(self).indices@ =~= groups_indices(n) + group_indices(4 * n));
            assert(final(self).vertices@ =~= old(self).vertices@ + quad_vertices(
                quad,
                uv,
                color,
                layer_idx,
            ));
        }
    }

    pub fn is_empty(&self) -> (r: bool)
        requires
            self.wf(),
        ensures
            r == (self.vertices@.len() == 0),
    {
        proof {
            if self.vertices@.len() == 0 {
                assert(self.indices@ == groups_indices(0));
            }
        }
        self.vertices.len() == 0 && self.indices.len() == 0
    }
}

/// A mesh together with the clip rectangle it must be scissored by.
pub struct ClippedMesh {
    pub clip_rect: LogicalRect,
    pub mesh: Mesh,
}

} // verus!
