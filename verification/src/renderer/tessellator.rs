use crate::dpi::{LogicalPoint, LogicalRect, NormalizedRect, Uv};
use crate::fonts::atlas::{FontAtlasRect, FontAtlasSize};
use crate::fonts::layout::{LayoutRow, RasterizedGlyph, rows_glyph_count};
use crate::math::{PX_ONE, Point, Rect};
use crate::renderer::mesh::{ClippedMesh, Mesh, Vertex, quad_vertices, rect_vertices};
use crate::renderer::primitives::{ClippedPrimitive, DrawPrimitive, QuadPrimitive, RectPrimitive,
    TextPrimitive, TextureId, spec_texture_id};
use vstd::prelude::*;

verus! {

/// The vertex list and texture bind of one batch, as a mathematical
/// value.
#[verifier::ext_equal]
pub struct MeshView {
    pub vertices: Seq<Vertex>,
    pub texture_id: TextureId,
}

/// One batch with its clip rectangle, as a mathematical value.
#[verifier::ext_equal]
pub struct ClippedMeshView {
    pub clip_rect: LogicalRect,
    pub mesh: MeshView,
}

/// The mathematical value of an emitted batch list.
pub open spec fn meshes_view(ms: Seq<ClippedMesh>) -> Seq<ClippedMeshView> {
    Seq::new(
        ms.len(),
        |i: int|
            ClippedMeshView {
                clip_rect: ms[i].clip_rect,
                mesh: MeshView { vertices: ms[i].mesh.vertices@, texture_id: ms[i].mesh.texture_id },
            },
    )
}

/// An atlas texel coordinate normalized against a texture side:
/// `texel / side` in fixed-point units.
pub open spec fn spec_normalize(texel: i64, side: i64) -> i64 {
    ((texel as int * PX_ONE as int) / (side as int)) as i64
}

/// An atlas region normalized against the atlas dimensions.
pub open spec fn spec_normalize_uv(uv: FontAtlasRect, size: FontAtlasSize) -> NormalizedRect {
    Rect {
        min: Point {
            x: spec_normalize(uv.min.x, size.width),
            y: spec_normalize(uv.min.y, size.height),
            space: core::marker::PhantomData,
        },
        max: Point {
            x: spec_normalize(uv.max.x, size.width),
            y: spec_normalize(uv.max.y, size.height),
            space: core::marker::PhantomData,
        },
    }
}

/// A glyph's screen rectangle: its layout-relative rectangle translated
/// to the text anchor.
pub open spec fn spec_glyph_rect(g: RasterizedGlyph, pos: LogicalPoint) -> LogicalRect {
    Rect {
        min: Point {
            x: (g.rect.min.x + pos.x) as i64,
            y: (g.rect.min.y + pos.y) as i64,
            space: core::marker::PhantomData,
        },
        max: Point {
            x: (g.rect.max.x + pos.x) as i64,
            y: (g.rect.max.y + pos.y) as i64,
            space: core::marker::PhantomData,
        },
    }
}

/// The four vertices of one placed glyph.
pub open spec fn glyph_vertices(g: RasterizedGlyph, pos: LogicalPoint, size: FontAtlasSize) -> Seq<
    Vertex,
> {
    rect_vertices(spec_glyph_rect(g, pos), spec_normalize_uv(g.uv, size), g.color, 0)
}

/// The vertices of the first `n` glyphs of a row.
pub open spec fn row_vertices(
    glyphs: Seq<RasterizedGlyph>,
    n: int,
    pos: LogicalPoint,
    size: FontAtlasSize,
) -> Seq<Vertex>
    decreases n,
{
    if n <= 0 {
        Seq::empty()
    } else {
        row_vertices(glyphs, n - 1, pos, size) + glyph_vertices(glyphs[n - 1], pos, size)
    }
}

/// The vertices of the first `n` rows of a layout.
pub open spec fn rows_vertices(
    rows: Seq<LayoutRow>,
    n: int,
    pos: LogicalPoint,
    size: FontAtlasSize,
) -> Seq<Vertex>
    decreases n,
{
    if n <= 0 {
        Seq::empty()
    } else {
        rows_vertices(rows, n - 1, pos, size) + row_vertices(
            rows[n - 1].glyphs@,
            rows[n - 1].glyphs@.len() as int,
            pos,
            size,
        )
    }
}

/// The vertices a primitive expands to: a rectangle or quad becomes one
/// four-vertex group with its own texture coordinates (the whole texture
/// when textured, the reserved white texel when not); text becomes one
/// group per resolved glyph, sampling the glyph's normalized atlas
/// region in the glyph's own color.
pub open spec fn prim_vertices(p: DrawPrimitive, size: FontAtlasSize) -> Seq<Vertex> {
    match p {
        DrawPrimitive::Rect(rp) => match rp.texture {
            Some(t) => rect_vertices(rp.rect, t.uv, rp.color, t.layer_idx),
            None => rect_vertices(rp.rect, NormalizedRect::spec_white_uv(), rp.color, 0),
        },
        DrawPrimitive::Quad(qp) => match qp.texture {
            Some(t) => quad_vertices(qp.quad, t.uv, qp.color, t.layer_idx),
            None => quad_vertices(
                qp.quad,
                crate::dpi::NormalizedQuad::spec_white_uv(),
                qp.color,
                0,
            ),
        },
        DrawPrimitive::Text(tp) => rows_vertices(
            tp.layout.rows@,
            tp.layout.rows@.len() as int,
            tp.pos,
            size,
        ),
    }
}

/// Folding one clipped primitive into the batch list: a fully clipped
/// primitive is dropped; otherwise a new batch is started exactly when
/// the clip rectangle or the texture differs from the last batch's, the
/// primitive's vertices are appended to the last batch, and a batch left
/// empty (text that produced no glyphs) is discarded.
pub open spec fn tess_step(
    acc: Seq<ClippedMeshView>,
    p: ClippedPrimitive,
    size: FontAtlasSize,
) -> Seq<ClippedMeshView> {
    if p.clip_rect.spec_is_empty() {
        acc
    } else {
        let tid = spec_texture_id(p.primitive);
        let verts = prim_vertices(p.primitive, size);
        let acc1 = if acc.len() == 0 || !(acc.last().clip_rect == p.clip_rect
            && acc.last().mesh.texture_id == tid) {
            acc.push(
                ClippedMeshView {
                    clip_rect: p.clip_rect,
                    mesh: MeshView { vertices: Seq::empty(), texture_id: tid },
                },
            )
        } else {
            acc
        };
        let extended = acc1.update(
            acc1.len() - 1,
            ClippedMeshView {
                clip_rect: acc1.last().clip_rect,
                mesh: MeshView {
                    vertices: acc1.last().mesh.vertices + verts,
                    texture_id: tid,
                },
            },
        );
        if extended.last().mesh.vertices.len() == 0 {
            extended.drop_last()
        } else {
            extended
        }
    }
}

/// The whole conversion: primitives folded left to right.
pub open spec fn tess_spec(
    prims: Seq<ClippedPrimitive>,
    size: FontAtlasSize,
) -> Seq<ClippedMeshView>
    decreases prims.len(),
{
    if prims.len() == 0 {
        Seq::empty()
    } else {
        tess_step(tess_spec(prims.drop_last(), size), prims.last(), size)
    }
}

/// A primitive the tessellator accepts: in-range geometry, and for text
/// a consistent layout of bounded size whose glyphs carry in-range
/// rectangles and atlas regions.
pub open spec fn prim_ok(p: ClippedPrimitive) -> bool {
    &&& p.clip_rect.wf()
    &&& match p.primitive {
        DrawPrimitive::Rect(rp) => rp.rect.wf(),
        DrawPrimitive::Quad(qp) => qp.quad.wf(),
        DrawPrimitive::Text(tp) => {
            &&& tp.pos.wf()
            &&& tp.layout.rows@.len() <= 1024
            &&& rows_glyph_count(tp.layout.rows@, tp.layout.rows@.len() as int) <= 0x4000
            &&& forall|ri: int|
                0 <= ri < tp.layout.rows@.len() ==> (#[trigger] tp.layout.rows@[ri]).glyphs@.len()
                    <= 0x4000
            &&& forall|ri: int, gi: int|
                0 <= ri < tp.layout.rows@.len() && 0 <= gi
                    < tp.layout.rows@[ri].glyphs@.len() ==> {
                    let g = (#[trigger] tp.layout.rows@[ri].glyphs@[gi]);
                    g.rect.wf() && 0 <= g.uv.min.x <= 32768 && 0 <= g.uv.min.y <= 32768 && 0
                        <= g.uv.max.x <= 32768 && 0 <= g.uv.max.y <= 32768
                }
        },
    }
}

/// An atlas size a texture can actually have.
pub open spec fn atlas_size_ok(size: FontAtlasSize) -> bool {
    1 <= size.width <= 4096 && 1 <= size.height <= 32768
}

/// One row expands to four vertices per glyph.
pub proof fn lemma_row_vertices_len(
    glyphs: Seq<RasterizedGlyph>,
    n: int,
    pos: LogicalPoint,
    size: FontAtlasSize,
)
    requires
        0 <= n <= glyphs.len(),
    ensures
        row_vertices(glyphs, n, pos, size).len() == 4 * n,
    decreases n,
{
    if n > 0 {
        lemma_row_vertices_len(glyphs, n - 1, pos, size);
    }
}

/// A layout expands to four vertices per resolved glyph.
pub proof fn lemma_rows_vertices_len(
    rows: Seq<LayoutRow>,
    n: int,
    pos: LogicalPoint,
    size: FontAtlasSize,
)
    requires
        0 <= n <= rows.len(),
    ensures
        rows_vertices(rows, n, pos, size).len() == 4 * rows_glyph_count(rows, n),
        rows_glyph_count(rows, n) >= 0,
    decreases n,
{
    if n > 0 {
        lemma_rows_vertices_len(rows, n - 1, pos, size);
        lemma_row_vertices_len(rows[n - 1].glyphs@, rows[n - 1].glyphs@.len() as int, pos, size);
    }
}

/// A primitive contributes at most `0x10000` vertices, in whole
/// four-vertex groups.
pub proof fn lemma_prim_vertices_len(p: ClippedPrimitive, size: FontAtlasSize)
    requires
        prim_ok(p),
    ensures
        prim_vertices(p.primitive, size).len() % 4 == 0,
        prim_vertices(p.primitive, size).len() <= 0x10000,
{
    match p.primitive {
        DrawPrimitive::Rect(_) => {},
        DrawPrimitive::Quad(_) => {},
        DrawPrimitive::Text(tp) => {
            lemma_rows_vertices_len(
                tp.layout.rows@,
                tp.layout.rows@.len() as int,
                tp.pos,
                size,
            );
        },
    }
}

/// The total vertex count the first `n` primitives expand to.
pub open spec fn total_prim_vertices(
    prims: Seq<ClippedPrimitive>,
    size: FontAtlasSize,
    n: int,
) -> int
    decreases n,
{
    if n <= 0 {
        0
    } else {
        total_prim_vertices(prims, size, n - 1) + prim_vertices(prims[n - 1].primitive, size).len()
    }
}

/// The total vertex count is never negative.
pub proof fn lemma_total_prim_vertices_nonneg(
    prims: Seq<ClippedPrimitive>,
    size: FontAtlasSize,
    n: int,
)
    ensures
        0 <= total_prim_vertices(prims, size, n),
    decreases n,
{
    if n > 0 {
        lemma_total_prim_vertices_nonneg(prims, size, n - 1);
    }
}

/// The total vertex count grows with the prefix.
pub proof fn lemma_total_prim_vertices_mono(
    prims: Seq<ClippedPrimitive>,
    size: FontAtlasSize,
    a: int,
    b: int,
)
    requires
        0 <= a <= b,
    ensures
        total_prim_vertices(prims, size, a) <= total_prim_vertices(prims, size, b),
    decreases b - a,
{
    if a < b {
        lemma_total_prim_vertices_mono(prims, size, a, b - 1);
    }
}

/// Converts an ordered, clipped primitive stream into the smallest batch
/// list the merge rule allows: one mesh per contiguous run of primitives
/// sharing a clip rectangle and a texture.
pub struct Tessellator {
    pub last_clipped_meshes_size: usize,
}

impl Tessellator {
    pub fn new() -> (t: Tessellator)
        ensures
            t.last_clipped_meshes_size == 0,
    {
        Tessellator { last_clipped_meshes_size: 0 }
    }

    /// Converts one frame's primitives to batches; the result is exactly
    /// the left-to-right fold of `tess_step`, and no emitted batch is
    /// empty.
    pub fn convert_clipped_primitives(
        &mut self,
        clipped_primitives: Vec<ClippedPrimitive>,
        font_atlas_size: FontAtlasSize,
    ) -> (out: Vec<ClippedMesh>)
        requires
            total_prim_vertices(
                clipped_primitives@,
                font_atlas_size,
                clipped_primitives@.len() as int,
            ) <= 0x0FFF_0000,
            forall|i: int|
                0 <= i < clipped_primitives@.len() ==> prim_ok(#[trigger] clipped_primitives@[i]),
            atlas_size_ok(font_atlas_size),
        ensures
            meshes_view(out@) == tess_spec(clipped_primitives@, font_atlas_size),
            forall|i: int|
                0 <= i < out@.len() ==> ((#[trigger] out@[i]).mesh.wf()
                    && out@[i].mesh.vertices@.len() > 0),
            final(self).last_clipped_meshes_size == out@.len(),
    {
        let mut out: Vec<ClippedMesh> = Vec::with_capacity(self.last_clipped_meshes_size);
        let n = clipped_primitives.len();
        proof {
            assert(meshes_view(out@) =~~= tess_spec(clipped_primitives@.take(0), font_atlas_size));
        }
        let mut i: usize = 0;
        while i < n
            invariant
                n == clipped_primitives@.len(),
                total_prim_vertices(clipped_primitives@, font_atlas_size, n as int) <= 0x0FFF_0000,
                forall|j: int|
                    0 <= j < clipped_primitives@.len() ==> prim_ok(
                        #[trigger] clipped_primitives@[j],
                    ),
                atlas_size_ok(font_atlas_size),
                i <= n,
                meshes_view(out@) == tess_spec(
                    clipped_primitives@.take(i as int),
                    font_atlas_size,
                ),
                forall|j: int|
                    0 <= j < out@.len() ==> ((#[trigger] out@[j]).mesh.wf()
                        && out@[j].mesh.vertices@.len() > 0 && out@[j].mesh.vertices@.len()
                        <= total_prim_vertices(clipped_primitives@, font_atlas_size, i as int)),
            decreases n - i,
        {
            let p = &clipped_primitives[i];
            proof {
                lemma_total_prim_vertices_nonneg(clipped_primitives@, font_atlas_size, i as int);
                lemma_total_prim_vertices_mono(
                    clipped_primitives@,
                    font_atlas_size,
                    i as int,
                    n as int,
                );
                lemma_total_prim_vertices_mono(
                    clipped_primitives@,
                    font_atlas_size,
                    i + 1,
                    n as int,
                );
            }
            self.convert_clipped_primitive(
                p,
                font_atlas_size,
                &mut out,
                Ghost(total_prim_vertices(clipped_primitives@, font_atlas_size, i as int)),
            );
            proof {
                assert(clipped_primitives@.take(i + 1).drop_last() =~= clipped_primitives@.take(
                    i as int,
                ));
                assert(clipped_primitives@.take(i + 1).last() == clipped_primitives@[i as int]);
            }
            i += 1;
        }
        proof {
            assert(clipped_primitives@.take(n as int) =~= clipped_primitives@);
        }
        self.last_clipped_meshes_size = out.len();
        out
    }

    /// Folds one primitive into the batch list, as `tess_step` says.
    /// `budget` carries the caller's bound on how many vertices the
    /// batches may already hold, so one more primitive cannot overflow a
    /// mesh.
    pub fn convert_clipped_primitive(
        &mut self,
        clipped_primitive: &ClippedPrimitive,
        font_atlas_size: FontAtlasSize,
        out_clipped_meshes: &mut Vec<ClippedMesh>,
        budget: Ghost<int>,
    )
        requires
            prim_ok(*clipped_primitive),
            atlas_size_ok(font_atlas_size),
            0 <= budget@ <= 0x0FFF_0000,
            forall|j: int|
                0 <= j < old(out_clipped_meshes)@.len() ==> ((#[trigger] old(out_clipped_meshes)@[j]).mesh.wf()
                    && old(out_clipped_meshes)@[j].mesh.vertices@.len() > 0
                    && old(out_clipped_meshes)@[j].mesh.vertices@.len() <= budget@),
        ensures
            meshes_view(final(out_clipped_meshes)@) == tess_step(
                meshes_view(old(out_clipped_meshes)@),
                *clipped_primitive,
                font_atlas_size,
            ),
            forall|j: int|
                0 <= j < final(out_clipped_meshes)@.len() ==> ((#[trigger] final(out_clipped_meshes)@[j]).mesh.wf()
                    && final(out_clipped_meshes)@[j].mesh.vertices@.len() > 0
                    && final(out_clipped_meshes)@[j].mesh.vertices@.len() <= budget@
                    + prim_vertices(clipped_primitive.primitive, font_atlas_size).len()),
            *final(self) == *old(self),
    {
        let ghost pre = meshes_view(old(out_clipped_meshes)@);
        if clipped_primitive.clip_rect.is_empty() {
            proof {
                assert(meshes_view(out_clipped_meshes@) =~~= tess_step(
                    pre,
                    *clipped_primitive,
                    font_atlas_size,
                ));
            }
            return ;
        }
        proof {
            lemma_prim_vertices_len(*clipped_primitive, font_atlas_size);
        }
        let tid = clipped_primitive.primitive.texture_id();
        let start_new_mesh: bool = if out_clipped_meshes.len() == 0 {
            true
        } else {
            let last = &out_clipped_meshes[out_clipped_meshes.len() - 1];
            !(last.clip_rect.eq_rect(&clipped_primitive.clip_rect) && last.mesh.texture_id == tid)
        };
        if start_new_mesh {
            let fresh = ClippedMesh {
                clip_rect: clipped_primitive.clip_rect,
                mesh: Mesh::new_empty(tid),
            };
            out_clipped_meshes.push(fresh);
        }
        let ghost acc1 = if pre.len() == 0 || !(pre.last().clip_rect
            == clipped_primitive.clip_rect && pre.last().mesh.texture_id == tid) {
            pre.push(
                ClippedMeshView {
                    clip_rect: clipped_primitive.clip_rect,
                    mesh: MeshView { vertices: Seq::empty(), texture_id: tid },
                },
            )
        } else {
            pre
        };
        proof {
            assert(meshes_view(out_clipped_meshes@) =~~= acc1);
        }
        let last_index = out_clipped_meshes.len() - 1;
        let ghost target = acc1.update(
            acc1.len() - 1,
            ClippedMeshView {
                clip_rect: acc1.last().clip_rect,
                mesh: MeshView {
                    vertices: acc1.last().mesh.vertices + prim_vertices(
                        clipped_primitive.primitive,
                        font_atlas_size,
                    ),
                    texture_id: tid,
                },
            },
        );
        let mesh_ref = vec_last_mut(out_clipped_meshes);
        match &clipped_primitive.primitive {
            DrawPrimitive::Rect(rp) => {
                convert_rect_primitive(rp, &mut mesh_ref.mesh);
            },
            DrawPrimitive::Quad(qp) => {
                convert_quad_primitive(qp, &mut mesh_ref.mesh);
            },
            DrawPrimitive::Text(tp) => {
                convert_text_primitive(tp, font_atlas_size, &mut mesh_ref.mesh);
            },
        }
        proof {
            assert(meshes_view(out_clipped_meshes@) =~~= target);
        }
        let now_empty = {
            let last = &out_clipped_meshes[last_index];
            last.mesh.vertices.len() == 0
        };
        if now_empty {
            let _discarded = out_clipped_meshes.pop();
            proof {
                assert(meshes_view(out_clipped_meshes@) =~~= target.drop_last());
            }
        }
        proof {
            assert(meshes_view(out_clipped_meshes@) =~~= tess_step(
                pre,
                *clipped_primitive,
                font_atlas_size,
            ));
        }
    }
}

/// A mutable borrow of the last element.
fn vec_last_mut(v: &mut Vec<ClippedMesh>) -> (r: &mut ClippedMesh)
    requires
        old(v)@.len() > 0,
    ensures
        *r == old(v)@.last(),
        final(v)@ == old(v)@.update(old(v)@.len() - 1, *final(r)),
{
    let i = v.len() - 1;
    &mut v[i]
}

/// Expands a rectangle primitive into the mesh and binds its texture.
fn convert_rect_primitive(rect_primitive: &RectPrimitive, out: &mut Mesh)
    requires
        old(out).wf(),
        old(out).vertices@.len() < 0x1000_0000,
    ensures
        final(out).wf(),
        final(out).texture_id == old(out).texture_id,
        final(out).vertices@ == old(out).vertices@ + (match rect_primitive.texture {
            Some(t) => rect_vertices(rect_primitive.rect, t.uv, rect_primitive.color, t.layer_idx),
            None => rect_vertices(
                rect_primitive.rect,
                NormalizedRect::spec_white_uv(),
                rect_primitive.color,
                0,
            ),
        }),
{
    match &rect_primitive.texture {
        Some(t) => {
            out.add_rect(rect_primitive.rect, t.uv, rect_primitive.color, t.layer_idx);
        },
        None => {
            let uv = NormalizedRect::white_uv();
            out.add_rect(rect_primitive.rect, uv, rect_primitive.color, 0);
        },
    }
}

/// Expands a quad primitive into the mesh and binds its texture.
fn convert_quad_primitive(quad_primitive: &QuadPrimitive, out: &mut Mesh)
    requires
        old(out).wf(),
        old(out).vertices@.len() < 0x1000_0000,
    ensures
        final(out).wf(),
        final(out).texture_id == old(out).texture_id,
        final(out).vertices@ == old(out).vertices@ + (match quad_primitive.texture {
            Some(t) => quad_vertices(quad_primitive.quad, t.uv, quad_primitive.color, t.layer_idx),
            None => quad_vertices(
                quad_primitive.quad,
                crate::dpi::NormalizedQuad::spec_white_uv(),
                quad_primitive.color,
                0,
            ),
        }),
{
    match &quad_primitive.texture {
        Some(t) => {
            out.add_quad(quad_primitive.quad, t.uv, quad_primitive.color, t.layer_idx);
        },
        None => {
            let uv = crate::dpi::NormalizedQuad::white_uv();
            out.add_quad(quad_primitive.quad, uv, quad_primitive.color, 0);
        },
    }
}

/// One atlas texel coordinate normalized against a texture side.
fn normalize_coord(texel: i64, side: i64) -> (r: i64)
    requires
        0 <= texel <= 32768,
        1 <= side,
    ensures
        r == spec_normalize(texel, side),
        0 <= r <= 0x8000_0000,
{
    let r = ((texel as u64) * 65536 / (side as u64)) as i64;
    proof {
        vstd::arithmetic::div_mod::lemma_div_nonincreasing(texel as int * 65536, side as int);
        vstd::arithmetic::div_mod::lemma_div_pos_is_pos(texel as int * 65536, side as int);
    }
    r
}

/// Expands a text primitive into the mesh: one quad per resolved glyph,
/// placed at the text anchor, sampling the glyph's normalized atlas
/// region. All glyphs sample the shared atlas texture, so text never
/// changes the mesh's texture bind.
fn convert_text_primitive(text_primitive: &TextPrimitive, font_atlas_size: FontAtlasSize, out: &mut Mesh)
    requires
        old(out).wf(),
        old(out).vertices@.len() <= 0x1000_0000 - 0x10000,
        text_primitive.pos.wf(),
        text_primitive.layout.rows@.len() <= 1024,
        rows_glyph_count(text_primitive.layout.rows@, text_primitive.layout.rows@.len() as int)
            <= 0x4000,
        forall|ri: int|
            0 <= ri < text_primitive.layout.rows@.len() ==> (
            #[trigger] text_primitive.layout.rows@[ri]).glyphs@.len() <= 0x4000,
        forall|ri: int, gi: int|
            0 <= ri < text_primitive.layout.rows@.len() && 0 <= gi
                < text_primitive.layout.rows@[ri].glyphs@.len() ==> {
                let g = (#[trigger] text_primitive.layout.rows@[ri].glyphs@[gi]);
                g.rect.wf() && 0 <= g.uv.min.x <= 32768 && 0 <= g.uv.min.y <= 32768 && 0
                    <= g.uv.max.x <= 32768 && 0 <= g.uv.max.y <= 32768
            },
        atlas_size_ok(font_atlas_size),
    ensures
        final(out).wf(),
        final(out).texture_id == old(out).texture_id,
        final(out).vertices@ == old(out).vertices@ + rows_vertices(
            text_primitive.layout.rows@,
            text_primitive.layout.rows@.len() as int,
            text_primitive.pos,
            font_atlas_size,
        ),
{
    let rows = &text_primitive.layout.rows;
    let pos = text_primitive.pos;
    let nrows = rows.len();
    let mut ri: usize = 0;
    while ri < nrows
        invariant
            out.wf(),
            out.texture_id == old(out).texture_id,
            nrows == rows@.len(),
            rows == &text_primitive.layout.rows,
            pos == text_primitive.pos,
            pos.wf(),
            ri <= nrows,
            nrows <= 1024,
            atlas_size_ok(font_atlas_size),
            old(out).vertices@.len() <= 0x1000_0000 - 0x10000,
            rows_glyph_count(rows@, nrows as int) <= 0x4000,
            forall|rj: int| 0 <= rj < rows@.len() ==> (#[trigger] rows@[rj]).glyphs@.len() <= 0x4000,
            forall|rj: int, gj: int|
                0 <= rj < rows@.len() && 0 <= gj < rows@[rj].glyphs@.len() ==> {
                    let g = (#[trigger] rows@[rj].glyphs@[gj]);
                    g.rect.wf() && 0 <= g.uv.min.x <= 32768 && 0 <= g.uv.min.y <= 32768 && 0
                        <= g.uv.max.x <= 32768 && 0 <= g.uv.max.y <= 32768
                },
            out.vertices@ == old(out).vertices@ + rows_vertices(
                rows@,
                ri as int,
                pos,
                font_atlas_size,
            ),
            out.vertices@.len() <= old(out).vertices@.len() + 4 * rows_glyph_count(
                rows@,
                ri as int,
            ),
            rows_glyph_count(rows@, ri as int) >= 0,
        decreases nrows - ri,
    {
        let row = &rows[ri];
        let nglyphs = row.glyphs.len();
        let mut gi: usize = 0;
        proof {
            lemma_rows_glyph_count_mono(rows@, ri as int, nrows as int);
        }
        while gi < nglyphs
            invariant
                out.wf(),
                out.texture_id == old(out).texture_id,
                nrows == rows@.len(),
                rows == &text_primitive.layout.rows,
                pos == text_primitive.pos,
                pos.wf(),
                ri < nrows,
                row == &rows@[ri as int],
                nglyphs == row.glyphs@.len(),
                gi <= nglyphs,
                nglyphs <= 0x4000,
                atlas_size_ok(font_atlas_size),
                old(out).vertices@.len() <= 0x1000_0000 - 0x10000,
                rows_glyph_count(rows@, ri as int) >= 0,
                rows_glyph_count(rows@, ri as int) + nglyphs <= 0x4000,
                forall|gj: int|
                    0 <= gj < row.glyphs@.len() ==> {
                        let g = (#[trigger] row.glyphs@[gj]);
                        g.rect.wf() && 0 <= g.uv.min.x <= 32768 && 0 <= g.uv.min.y <= 32768 && 0
                            <= g.uv.max.x <= 32768 && 0 <= g.uv.max.y <= 32768
                    },
                out.vertices@ == old(out).vertices@ + rows_vertices(
                    rows@,
                    ri as int,
                    pos,
                    font_atlas_size,
                ) + row_vertices(row.glyphs@, gi as int, pos, font_atlas_size),
                out.vertices@.len() <= old(out).vertices@.len() + 4 * rows_glyph_count(
                    rows@,
                    ri as int,
                ) + 4 * gi,
            decreases nglyphs - gi,
        {
            let glyph = &row.glyphs[gi];
            let rect = rect_at(&glyph.rect, pos);
            let uv = Rect::new(
                Point::new(
                    normalize_coord(glyph.uv.min.x, font_atlas_size.width),
                    normalize_coord(glyph.uv.min.y, font_atlas_size.height),
                ),
                Point::new(
                    normalize_coord(glyph.uv.max.x, font_atlas_size.width),
                    normalize_coord(glyph.uv.max.y, font_atlas_size.height),
                ),
            );
            out.add_rect(rect, uv, glyph.color, 0);
            proof {
                assert(rect == spec_glyph_rect(*glyph, pos));
                assert(uv == spec_normalize_uv(glyph.uv, font_atlas_size));
                assert(out.vertices@ =~= old(out).vertices@ + rows_vertices(
                    rows@,
                    ri as int,
                    pos,
                    font_atlas_size,
                ) + row_vertices(row.glyphs@, gi + 1, pos, font_atlas_size));
            }
            gi += 1;
        }
        proof {
            assert(out.vertices@ =~= old(out).vertices@ + rows_vertices(
                rows@,
                ri + 1,
                pos,
                font_atlas_size,
            ));
        }
        ri += 1;
    }
}

/// The glyph count over a prefix never exceeds the count over the whole.
proof fn lemma_rows_glyph_count_mono(rows: Seq<LayoutRow>, a: int, b: int)
    requires
        0 <= a <= b <= rows.len(),
    ensures
        rows_glyph_count(rows, a) + (if a < b {
            rows[a].glyphs@.len() as int
        } else {
            0
        }) <= rows_glyph_count(rows, b),
        rows_glyph_count(rows, a) >= 0,
    decreases b - a,
{
    if a < b {
        lemma_rows_glyph_count_mono(rows, a + 1, b);
        lemma_rows_glyph_count_nonneg(rows, a);
        assert(rows_glyph_count(rows, a + 1) == rows_glyph_count(rows, a) + rows[a].glyphs@.len());
    } else {
        lemma_rows_glyph_count_nonneg(rows, a);
    }
}

proof fn lemma_rows_glyph_count_nonneg(rows: Seq<LayoutRow>, n: int)
    requires
        n <= rows.len(),
    ensures
        rows_glyph_count(rows, n) >= 0,
    decreases n,
{
    if n > 0 {
        lemma_rows_glyph_count_nonneg(rows, n - 1);
    }
}

/// A glyph's rectangle translated to the text anchor.
fn rect_at(rect: &LogicalRect, pos: LogicalPoint) -> (r: LogicalRect)
    requires
        rect.wf(),
        pos.wf(),
    ensures
        r.min.x == rect.min.x + pos.x,
        r.min.y == rect.min.y + pos.y,
        r.max.x == rect.max.x + pos.x,
        r.max.y == rect.max.y + pos.y,
{
    Rect::new(
        Point::new(rect.min.x + pos.x, rect.min.y + pos.y),
        Point::new(rect.max.x + pos.x, rect.max.y + pos.y),
    )
}

/// The number of adjacent positions whose clip rectangle or texture
/// differs from the previous primitive's.
pub open spec fn batch_changes(prims: Seq<ClippedPrimitive>) -> int
    decreases prims.len(),
{
    if prims.len() <= 1 {
        0
    } else {
        batch_changes(prims.drop_last()) + if prims.last().clip_rect == prims[prims.len()
            - 2].clip_rect && spec_texture_id(prims.last().primitive) == spec_texture_id(
            prims[prims.len() - 2].primitive,
        ) {
            0int
        } else {
            1int
        }
    }
}

/// Batch merging: a stream of rectangle primitives with non-empty clip
/// rectangles tessellates into exactly one batch per contiguous run
/// sharing a clip rectangle and texture - the batch count is one more
/// than the number of adjacent clip or texture changes - and the last
/// batch carries the last primitive's clip rectangle and texture.
pub proof fn lemma_batch_merging(prims: Seq<ClippedPrimitive>, size: FontAtlasSize)
    requires
        forall|i: int|
            0 <= i < prims.len() ==> ((#[trigger] prims[i]).primitive is Rect
                && !prims[i].clip_rect.spec_is_empty()),
    ensures
        prims.len() == 0 ==> tess_spec(prims, size).len() == 0,
        prims.len() > 0 ==> tess_spec(prims, size).len() == 1 + batch_changes(prims),
        prims.len() > 0 ==> (tess_spec(prims, size).last().clip_rect == prims.last().clip_rect
            && tess_spec(prims, size).last().mesh.texture_id == spec_texture_id(
            prims.last().primitive,
        )),
    decreases prims.len(),
{
    if prims.len() > 0 {
        let rest = prims.drop_last();
        lemma_batch_merging(rest, size);
        let acc = tess_spec(rest, size);
        let p = prims.last();
        let verts = prim_vertices(p.primitive, size);
        assert(verts.len() == 4);
        if rest.len() == 0 {
            assert(acc.len() == 0);
        } else {
            assert(acc.last().clip_rect == rest.last().clip_rect);
        }
    }
}

} // verus!
