use crate::color::Srgba;
use crate::dpi::{LogicalPoint, LogicalQuad, LogicalRect, LogicalSize, NormalizedQuad,
    NormalizedRect};
use crate::fonts::layout::Layout;
use crate::hashing::{fnv1a, i64_le_bytes, push_i64, push_u64, spec_fnv1a, u64_le_bytes};
use crate::math::{Point, Rect};
use crate::renderer::primitives::{ClippedPrimitive, DrawPrimitive, QuadPrimitive, QuadTexture,
    RectPrimitive, RectTexture, TextPrimitive, TextureId};
use std::sync::Arc;
use vstd::prelude::*;

verus! {

/// One layer bucket: the primitives issued for one (layer, sublayer)
/// key, in issue order.
pub struct Bucket {
    pub layer: i32,
    pub sublayer: i32,
    pub prims: Vec<ClippedPrimitive>,
}

/// A quad translated by a point, corner by corner.
pub open spec fn spec_translate_quad(
    q: LogicalQuad,
    by: LogicalPoint,
) -> LogicalQuad {
    crate::math::Quad {
        p0: Point { x: (q.p0.x + by.x) as i64, y: (q.p0.y + by.y) as i64, space: core::marker::PhantomData },
        p1: Point { x: (q.p1.x + by.x) as i64, y: (q.p1.y + by.y) as i64, space: core::marker::PhantomData },
        p2: Point { x: (q.p2.x + by.x) as i64, y: (q.p2.y + by.y) as i64, space: core::marker::PhantomData },
        p3: Point { x: (q.p3.x + by.x) as i64, y: (q.p3.y + by.y) as i64, space: core::marker::PhantomData },
    }
}

/// Strict draw order of two layer keys.
pub open spec fn key_lt(la: i32, sa: i32, lb: i32, sb: i32) -> bool {
    la < lb || (la == lb && sa < sb)
}

/// The primitives of all buckets, bucket by bucket.
pub open spec fn flatten_buckets(bs: Seq<Bucket>) -> Seq<ClippedPrimitive>
    decreases bs.len(),
{
    if bs.len() == 0 {
        Seq::empty()
    } else {
        flatten_buckets(bs.drop_last()) + bs.last().prims@
    }
}

/// Holds the draw primitives of one frame, grouped in buckets ordered by
/// their (layer, sublayer) key. An added primitive, given relative to the
/// viewport, is shifted by the viewport origin into screen position and
/// stamped with the viewport as its clip rectangle.
pub struct Layers {
    pub buckets: Vec<Bucket>,
    pub current_layer: i32,
    pub current_sublayer: i32,
    pub viewport: LogicalRect,
    pub current_draw_color: Srgba,
}

impl Layers {
    /// Buckets are strictly ordered by key, so keys are unique and
    /// draining them front to back yields draw order.
    pub open spec fn wf(self) -> bool {
        &&& forall|i: int, j: int|
            0 <= i < j < self.buckets@.len() ==> key_lt(
                (#[trigger] self.buckets@[i]).layer,
                self.buckets@[i].sublayer,
                (#[trigger] self.buckets@[j]).layer,
                self.buckets@[j].sublayer,
            )
        &&& self.viewport.wf()
    }

    pub fn new() -> (r: Layers)
        ensures
            r.wf(),
            r.buckets@.len() == 0,
            r.current_layer == 0,
            r.current_sublayer == 0,
            r.current_draw_color == Srgba([0u8, 0u8, 0u8, 0u8]),
            r.viewport.min.x == 0 && r.viewport.min.y == 0 && r.viewport.max.x == 0
                && r.viewport.max.y == 0,
    {
        Layers {
            buckets: Vec::new(),
            current_layer: 0,
            current_sublayer: 0,
            viewport: Rect::new(Point::zero(), Point::zero()),
            current_draw_color: Srgba([0, 0, 0, 0]),
        }
    }

    /// Start-of-frame reset: drops all buckets and returns the routing
    /// key and draw color to their defaults. The viewport is kept until
    /// the caller sets it.
    pub fn reset(&mut self)
        requires
            old(self).wf(),
        ensures
            final(self).wf(),
            final(self).buckets@.len() == 0,
            final(self).current_layer == 0,
            final(self).current_sublayer == 0,
            final(self).current_draw_color == Srgba([0u8, 0u8, 0u8, 0u8]),
            final(self).viewport == old(self).viewport,
    {
        self.buckets = Vec::new();
        self.current_layer = 0;
        self.current_sublayer = 0;
        self.current_draw_color = Srgba([0, 0, 0, 0]);
    }

    /// Establishes the clip rectangle and coordinate origin for
    /// subsequently added primitives.
    pub fn set_viewport(&mut self, viewport: LogicalRect)
        requires
            old(self).wf(),
            viewport.wf(),
        ensures
            final(self).wf(),
            *final(self) == (Layers { viewport, ..*old(self) }),
    {
        self.viewport = viewport;
    }

    /// Sets the viewport to the whole screen of the given size.
    pub fn set_viewport_from_size(&mut self, size: LogicalSize)
        requires
            old(self).wf(),
            size.wf(),
        ensures
            final(self).wf(),
            final(self).viewport.min.x == 0 && final(self).viewport.min.y == 0,
            final(self).viewport.max.x == size.width && final(self).viewport.max.y == size.height,
            final(self).buckets == old(self).buckets,
            final(self).current_layer == old(self).current_layer,
            final(self).current_sublayer == old(self).current_sublayer,
            final(self).current_draw_color == old(self).current_draw_color,
    {
        self.viewport = Rect::from_size(size);
    }

    /// Routes subsequent primitives to the given layer and sublayer.
    pub fn set_draw_layer(&mut self, layer: i32, sublayer: i32)
        requires
            old(self).wf(),
        ensures
            final(self).wf(),
            *final(self) == (Layers { current_layer: layer, current_sublayer: sublayer, ..*old(
                self,
            ) }),
    {
        self.current_layer = layer;
        self.current_sublayer = sublayer;
    }

    /// Changes only the sublayer, keeping the current layer.
    pub fn set_draw_sublayer(&mut self, sublayer: i32)
        requires
            old(self).wf(),
        ensures
            final(self).wf(),
            *final(self) == (Layers { current_sublayer: sublayer, ..*old(self) }),
    {
        self.current_sublayer = sublayer;
    }

    pub fn set_draw_color(&mut self, color: Srgba)
        requires
            old(self).wf(),
        ensures
            final(self).wf(),
            *final(self) == (Layers { current_draw_color: color, ..*old(self) }),
    {
        self.current_draw_color = color;
    }

    pub fn get_draw_color(&self) -> (c: Srgba)
        ensures
            c == self.current_draw_color,
    {
        self.current_draw_color
    }

    /// Builds a rectangle primitive in the current draw color and adds
    /// it.
    pub fn draw_rect(
        &mut self,
        texture_id: Option<TextureId>,
        rect: LogicalRect,
        uv: NormalizedRect,
        layer_idx: u32,
    )
        requires
            old(self).wf(),
            rect.wf(),
        ensures
            final(self).wf(),
            final(self).spec_after_push(
                *old(self),
                ClippedPrimitive {
                    clip_rect: old(self).viewport,
                    primitive: DrawPrimitive::Rect(
                        RectPrimitive {
                            rect: Rect {
                                min: Point {
                                    x: (old(self).viewport.min.x + rect.min.x) as i64,
                                    y: (old(self).viewport.min.y + rect.min.y) as i64,
                                    space: core::marker::PhantomData,
                                },
                                max: Point {
                                    x: (old(self).viewport.min.x + rect.max.x) as i64,
                                    y: (old(self).viewport.min.y + rect.max.y) as i64,
                                    space: core::marker::PhantomData,
                                },
                            },
                            color: old(self).current_draw_color,
                            texture: match texture_id {
                                Some(id) => Some(
                                    RectTexture { texture_id: id, uv, layer_idx },
                                ),
                                None => None,
                            },
                        },
                    ),
                },
            ),
    {
        let texture = match texture_id {
            Some(id) => Some(RectTexture::new(id, uv, layer_idx)),
            None => None,
        };
        let primitive = RectPrimitive::new(rect, self.current_draw_color, texture);
        self.add_rect(primitive);
    }

    /// Builds a quad primitive in the current draw color and adds it.
    pub fn draw_quad(
        &mut self,
        texture_id: Option<TextureId>,
        quad: LogicalQuad,
        uv: NormalizedQuad,
        layer_idx: u32,
    )
        requires
            old(self).wf(),
            quad.wf(),
        ensures
            final(self).wf(),
            final(self).spec_after_push(
                *old(self),
                ClippedPrimitive {
                    clip_rect: old(self).viewport,
                    primitive: DrawPrimitive::Quad(
                        QuadPrimitive {
                            quad: spec_translate_quad(quad, old(self).viewport.min),
                            color: old(self).current_draw_color,
                            texture: match texture_id {
                                Some(id) => Some(
                                    QuadTexture { texture_id: id, uv, layer_idx },
                                ),
                                None => None,
                            },
                        },
                    ),
                },
            ),
    {
        let texture = match texture_id {
            Some(id) => Some(QuadTexture::new(id, uv, layer_idx)),
            None => None,
        };
        let primitive = QuadPrimitive::new(quad, self.current_draw_color, texture);
        self.add_quad(primitive);
    }

    /// Adds a text primitive; an absolute position opts out of viewport
    /// translation for screen-space-anchored text.
    pub fn draw_text(&mut self, position: LogicalPoint, layout: Arc<Layout>, is_absolute_position: bool)
        requires
            old(self).wf(),
            position.wf(),
        ensures
            final(self).wf(),
            final(self).spec_after_push(
                *old(self),
                ClippedPrimitive {
                    clip_rect: old(self).viewport,
                    primitive: DrawPrimitive::Text(
                        TextPrimitive {
                            pos: if is_absolute_position {
                                position
                            } else {
                                Point {
                                    x: (old(self).viewport.min.x + position.x) as i64,
                                    y: (old(self).viewport.min.y + position.y) as i64,
                                    space: core::marker::PhantomData,
                                }
                            },
                            layout: layout,
                        },
                    ),
                },
            ),
    {
        let primitive = TextPrimitive::new(position, layout);
        self.add_text(primitive, is_absolute_position);
    }

    /// The new state extends the old by exactly one primitive in the
    /// bucket of the current layer key: that bucket gained `p` at its
    /// end, every other bucket is unchanged, and the routing key, the
    /// viewport and the draw color are untouched.
    pub open spec fn spec_after_push(self, old_state: Layers, p: ClippedPrimitive) -> bool {
        &&& self.current_layer == old_state.current_layer
        &&& self.current_sublayer == old_state.current_sublayer
        &&& self.viewport == old_state.viewport
        &&& self.current_draw_color == old_state.current_draw_color
        &&& exists|i: int|
            0 <= i < self.buckets@.len() && (#[trigger] self.buckets@[i]).layer
                == old_state.current_layer && self.buckets@[i].sublayer
                == old_state.current_sublayer && {
                if exists|j: int|
                    0 <= j < old_state.buckets@.len() && (#[trigger] old_state.buckets@[j]).layer
                        == old_state.current_layer && old_state.buckets@[j].sublayer
                        == old_state.current_sublayer {
                    let j = choose|j: int|
                        0 <= j < old_state.buckets@.len() && (#[trigger] old_state.buckets@[j]).layer
                            == old_state.current_layer && old_state.buckets@[j].sublayer
                            == old_state.current_sublayer;
                    i == j && self.buckets@ == old_state.buckets@.update(
                        i,
                        Bucket {
                            layer: old_state.current_layer,
                            sublayer: old_state.current_sublayer,
                            prims: self.buckets@[i].prims,
                        },
                    ) && self.buckets@[i].prims@ == old_state.buckets@[j].prims@.push(p)
                } else {
                    self.buckets@ == old_state.buckets@.insert(i, self.buckets@[i])
                        && self.buckets@[i].prims@ == seq![p]
                }
            }
    }

    /// Translates a rectangle primitive by the viewport origin, stamps it
    /// with the viewport clip, and appends it to the current bucket.
    pub fn add_rect(&mut self, rect: RectPrimitive)
        requires
            old(self).wf(),
            rect.rect.wf(),
        ensures
            final(self).wf(),
            final(self).spec_after_push(
                *old(self),
                ClippedPrimitive {
                    clip_rect: old(self).viewport,
                    primitive: DrawPrimitive::Rect(
                        RectPrimitive {
                            rect: Rect {
                                min: Point {
                                    x: (old(self).viewport.min.x + rect.rect.min.x) as i64,
                                    y: (old(self).viewport.min.y + rect.rect.min.y) as i64,
                                    space: core::marker::PhantomData,
                                },
                                max: Point {
                                    x: (old(self).viewport.min.x + rect.rect.max.x) as i64,
                                    y: (old(self).viewport.min.y + rect.rect.max.y) as i64,
                                    space: core::marker::PhantomData,
                                },
                            },
                            ..rect
                        },
                    ),
                },
            ),
    {
        let mut rect = rect;
        rect.translate(self.viewport.min.to_vector());
        let clipped = ClippedPrimitive {
            clip_rect: self.viewport,
            primitive: DrawPrimitive::Rect(rect),
        };
        self.push(clipped);
    }

    /// Translates a quad primitive by the viewport origin, stamps it with
    /// the viewport clip, and appends it to the current bucket.
    pub fn add_quad(&mut self, quad: QuadPrimitive)
        requires
            old(self).wf(),
            quad.quad.wf(),
        ensures
            final(self).wf(),
            final(self).spec_after_push(
                *old(self),
                ClippedPrimitive {
                    clip_rect: old(self).viewport,
                    primitive: DrawPrimitive::Quad(
                        QuadPrimitive {
                            quad: spec_translate_quad(quad.quad, old(self).viewport.min),
                            ..quad
                        },
                    ),
                },
            ),
    {
        let mut quad = quad;
        quad.translate(self.viewport.min.to_vector());
        let clipped = ClippedPrimitive {
            clip_rect: self.viewport,
            primitive: DrawPrimitive::Quad(quad),
        };
        self.push(clipped);
    }

    /// Translates a text primitive by the viewport origin (unless its
    /// position is already absolute), stamps it with the viewport clip,
    /// and appends it to the current bucket.
    pub fn add_text(&mut self, text: TextPrimitive, is_absolute_position: bool)
        requires
            old(self).wf(),
            text.pos.wf(),
        ensures
            final(self).wf(),
            final(self).spec_after_push(
                *old(self),
                ClippedPrimitive {
                    clip_rect: old(self).viewport,
                    primitive: DrawPrimitive::Text(
                        TextPrimitive {
                            pos: if is_absolute_position {
                                text.pos
                            } else {
                                Point {
                                    x: (old(self).viewport.min.x + text.pos.x) as i64,
                                    y: (old(self).viewport.min.y + text.pos.y) as i64,
                                    space: core::marker::PhantomData,
                                }
                            },
                            layout: text.layout,
                        },
                    ),
                },
            ),
    {
        let mut text = text;
        if !is_absolute_position {
            text.translate(self.viewport.min.to_vector());
        }
        let clipped = ClippedPrimitive {
            clip_rect: self.viewport,
            primitive: DrawPrimitive::Text(text),
        };
        self.push(clipped);
    }

    /// Appends a clipped primitive to the bucket of the current layer
    /// key, creating the bucket at its ordered position if it is new.
    fn push(&mut self, clipped_primitive: ClippedPrimitive)
        requires
            old(self).wf(),
        ensures
            final(self).wf(),
            final(self).spec_after_push(*old(self), clipped_primitive),
    {
        let layer = self.current_layer;
        let sublayer = self.current_sublayer;
        let n = self.buckets.len();
        let mut i: usize = 0;
        while i < n
            invariant
                old(self).wf(),
                *self == *old(self),
                layer == self.current_layer,
                sublayer == self.current_sublayer,
                n == self.buckets@.len(),
                i <= n,
                forall|j: int|
                    0 <= j < i ==> !((#[trigger] self.buckets@[j]).layer == layer
                        && self.buckets@[j].sublayer == sublayer),
            decreases n - i,
        {
            let b = &self.buckets[i];
            if b.layer == layer && b.sublayer == sublayer {
                let ghost old_buckets = self.buckets@;
                let bucket = self.buckets.remove(i);
                let Bucket { layer: bl, sublayer: bs, prims: mut prims } = bucket;
                prims.push(clipped_primitive);
                let updated = Bucket { layer: bl, sublayer: bs, prims };
                self.buckets.insert(i, updated);
                proof {
                    assert(self.buckets@ =~= old_buckets.update(
                        i as int,
                        self.buckets@[i as int],
                    ));
                    assert forall|a: int, b2: int|
                        0 <= a < b2 < self.buckets@.len() implies key_lt(
                        (#[trigger] self.buckets@[a]).layer,
                        self.buckets@[a].sublayer,
                        (#[trigger] self.buckets@[b2]).layer,
                        self.buckets@[b2].sublayer,
                    ) by {
                        assert(old_buckets[a].layer == self.buckets@[a].layer
                            && old_buckets[a].sublayer == self.buckets@[a].sublayer);
                        assert(old_buckets[b2].layer == self.buckets@[b2].layer
                            && old_buckets[b2].sublayer == self.buckets@[b2].sublayer);
                    }
                    let wi = choose|j: int|
                        0 <= j < old(self).buckets@.len() && (#[trigger] old(
                            self,
                        ).buckets@[j]).layer == layer && old(self).buckets@[j].sublayer
                            == sublayer;
                    assert(wi == i as int);
                }
                return ;
            }
            i += 1;
        }
        proof {
            assert(!exists|j: int|
                0 <= j < old(self).buckets@.len() && (#[trigger] old(self).buckets@[j]).layer
                    == layer && old(self).buckets@[j].sublayer == sublayer);
        }
        let mut pos: usize = 0;
        while pos < n && bucket_key_before(&self.buckets, pos, layer, sublayer)
            invariant
                old(self).wf(),
                *self == *old(self),
                layer == self.current_layer,
                sublayer == self.current_sublayer,
                n == self.buckets@.len(),
                pos <= n,
                forall|j: int|
                    0 <= j < pos ==> key_lt(
                        (#[trigger] self.buckets@[j]).layer,
                        self.buckets@[j].sublayer,
                        layer,
                        sublayer,
                    ),
            decreases n - pos,
        {
            pos += 1;
        }
        let mut prims: Vec<ClippedPrimitive> = Vec::new();
        prims.push(clipped_primitive);
        let fresh = Bucket { layer, sublayer, prims };
        let ghost pre = self.buckets@;
        self.buckets.insert(pos, fresh);
        proof {
            assert forall|a: int, b2: int|
                0 <= a < b2 < self.buckets@.len() implies key_lt(
                (#[trigger] self.buckets@[a]).layer,
                self.buckets@[a].sublayer,
                (#[trigger] self.buckets@[b2]).layer,
                self.buckets@[b2].sublayer,
            ) by {
                if a < pos as int && b2 == pos as int {
                } else if a == pos as int && b2 > pos as int {
                    assert(pre[b2 - 1] == self.buckets@[b2]);
                    assert(!(pre[b2 - 1].layer == layer && pre[b2 - 1].sublayer == sublayer));
                    if pos as int <= b2 - 1 && (pos as int) < n {
                        assert(key_lt(
                            self.buckets@[pos as int].layer,
                            self.buckets@[pos as int].sublayer,
                            pre[b2 - 1].layer,
                            pre[b2 - 1].sublayer,
                        ) || pos as int == b2 - 1);
                    }
                } else if a < pos as int && b2 > pos as int {
                    assert(pre[a] == self.buckets@[a] && pre[b2 - 1] == self.buckets@[b2]);
                } else if a > pos as int || b2 < pos as int {
                    assert(pre[if a < pos as int { a } else { a - 1 }] == self.buckets@[a]);
                    assert(pre[if b2 < pos as int { b2 } else { b2 - 1 }] == self.buckets@[b2]);
                }
            }
            assert(self.buckets@[pos as int].prims@ =~= seq![clipped_primitive]);
        }
    }

    /// Drains all buckets in ascending (layer, sublayer) order,
    /// concatenating bucket contents in insertion order, and clears the
    /// buckets for the next frame.
    pub fn consume_layers(&mut self) -> (r: Vec<ClippedPrimitive>)
        requires
            old(self).wf(),
        ensures
            final(self).wf(),
            r@ == flatten_buckets(old(self).buckets@),
            final(self).buckets@.len() == 0,
            final(self).current_layer == old(self).current_layer,
            final(self).current_sublayer == old(self).current_sublayer,
            final(self).viewport == old(self).viewport,
            final(self).current_draw_color == old(self).current_draw_color,
    {
        let mut out: Vec<ClippedPrimitive> = Vec::new();
        let n = self.buckets.len();
        proof {
            assert(flatten_buckets(self.buckets@.take(0)) =~= Seq::<ClippedPrimitive>::empty());
        }
        let mut i: usize = 0;
        while i < n
            invariant
                *self == *old(self),
                n == self.buckets@.len(),
                i <= n,
                out@ == flatten_buckets(self.buckets@.take(i as int)),
            decreases n - i,
        {
            let bucket = &self.buckets[i];
            let mut k: usize = 0;
            let m = bucket.prims.len();
            while k < m
                invariant
                    *self == *old(self),
                    n == self.buckets@.len(),
                    i < n,
                    bucket == &self.buckets@[i as int],
                    m == bucket.prims@.len(),
                    k <= m,
                    out@ == flatten_buckets(self.buckets@.take(i as int)) + bucket.prims@.take(
                        k as int,
                    ),
                decreases m - k,
            {
                let p = clone_clipped(&bucket.prims[k]);
                out.push(p);
                proof {
                    assert(bucket.prims@.take(k + 1) =~= bucket.prims@.take(k as int) + seq![
                        bucket.prims@[k as int],
                    ]);
                }
                k += 1;
            }
            proof {
                assert(bucket.prims@.take(m as int) =~= bucket.prims@);
                assert(self.buckets@.take(i + 1).drop_last() =~= self.buckets@.take(i as int));
                assert(self.buckets@.take(i + 1).last() == self.buckets@[i as int]);
            }
            i += 1;
        }
        proof {
            assert(self.buckets@.take(n as int) =~= self.buckets@);
        }
        self.buckets = Vec::new();
        out
    }
}

/// Whether the bucket at `i` sorts strictly before the given key.
fn bucket_key_before(buckets: &Vec<Bucket>, i: usize, layer: i32, sublayer: i32) -> (r: bool)
    requires
        i < buckets@.len(),
    ensures
        r == key_lt(buckets@[i as int].layer, buckets@[i as int].sublayer, layer, sublayer),
{
    let b = &buckets[i];
    key_lt_exec(b.layer, b.sublayer, layer, sublayer)
}

/// Strict draw order of two layer keys, executably.
fn key_lt_exec(la: i32, sa: i32, lb: i32, sb: i32) -> (r: bool)
    ensures
        r == key_lt(la, sa, lb, sb),
{
    la < lb || (la == lb && sa < sb)
}

/// A field-by-field copy of a clipped primitive; the text layout is
/// shared, not copied.
fn clone_clipped(p: &ClippedPrimitive) -> (r: ClippedPrimitive)
    ensures
        r == *p,
{
    let primitive = match &p.primitive {
        DrawPrimitive::Rect(rp) => DrawPrimitive::Rect(*rp),
        DrawPrimitive::Quad(qp) => DrawPrimitive::Quad(*qp),
        DrawPrimitive::Text(tp) => DrawPrimitive::Text(
            TextPrimitive { pos: tp.pos, layout: crate::std_contracts::arc_clone(&tp.layout) },
        ),
    };
    let r = ClippedPrimitive { clip_rect: p.clip_rect, primitive };
    proof {
        assert(r.primitive == p.primitive);
        assert(ClippedPrimitive { clip_rect: p.clip_rect, primitive: p.primitive } == *p);
    }
    r
}

/// The canonical encoding of one clipped primitive: the clip rectangle,
/// a kind tag, then the primitive's geometry, color and texture. A text
/// primitive contributes its anchor and its layout's job hash, which
/// identifies the layout's content.
pub open spec fn encode_rect_texture(texture: Option<RectTexture>) -> Seq<u8> {
    match texture {
        None => seq![0u8],
        Some(t) => seq![1u8] + u64_le_bytes(t.texture_id) + i64_le_bytes(t.uv.min.x)
            + i64_le_bytes(t.uv.min.y) + i64_le_bytes(t.uv.max.x) + i64_le_bytes(t.uv.max.y)
            + u64_le_bytes(t.layer_idx as u64),
    }
}

pub open spec fn encode_quad_texture(texture: Option<QuadTexture>) -> Seq<u8> {
    match texture {
        None => seq![0u8],
        Some(t) => seq![1u8] + u64_le_bytes(t.texture_id) + i64_le_bytes(t.uv.p0.x) + i64_le_bytes(
            t.uv.p0.y,
        ) + i64_le_bytes(t.uv.p1.x) + i64_le_bytes(t.uv.p1.y) + i64_le_bytes(t.uv.p2.x)
            + i64_le_bytes(t.uv.p2.y) + i64_le_bytes(t.uv.p3.x) + i64_le_bytes(t.uv.p3.y)
            + u64_le_bytes(t.layer_idx as u64),
    }
}

pub open spec fn encode_prim_body(p: DrawPrimitive) -> Seq<u8> {
    match p {
        DrawPrimitive::Rect(rp) => seq![1u8] + i64_le_bytes(rp.rect.min.x) + i64_le_bytes(
            rp.rect.min.y,
        ) + i64_le_bytes(rp.rect.max.x) + i64_le_bytes(rp.rect.max.y) + seq![
            rp.color.0[0],
            rp.color.0[1],
            rp.color.0[2],
            rp.color.0[3],
        ] + encode_rect_texture(rp.texture),
        DrawPrimitive::Quad(qp) => seq![2u8] + i64_le_bytes(qp.quad.p0.x) + i64_le_bytes(
            qp.quad.p0.y,
        ) + i64_le_bytes(qp.quad.p1.x) + i64_le_bytes(qp.quad.p1.y) + i64_le_bytes(qp.quad.p2.x)
            + i64_le_bytes(qp.quad.p2.y) + i64_le_bytes(qp.quad.p3.x) + i64_le_bytes(qp.quad.p3.y)
            + seq![qp.color.0[0], qp.color.0[1], qp.color.0[2], qp.color.0[3]]
            + encode_quad_texture(qp.texture),
        DrawPrimitive::Text(tp) => seq![3u8] + i64_le_bytes(tp.pos.x) + i64_le_bytes(tp.pos.y)
            + u64_le_bytes(tp.layout.job_hash),
    }
}

pub open spec fn encode_prim(p: ClippedPrimitive) -> Seq<u8> {
    i64_le_bytes(p.clip_rect.min.x) + i64_le_bytes(p.clip_rect.min.y) + i64_le_bytes(
        p.clip_rect.max.x,
    ) + i64_le_bytes(p.clip_rect.max.y) + encode_prim_body(p.primitive)
}

/// The canonical encoding of a bucket's primitives in issue order.
pub open spec fn encode_prims(ps: Seq<ClippedPrimitive>) -> Seq<u8>
    decreases ps.len(),
{
    if ps.len() == 0 {
        Seq::empty()
    } else {
        encode_prims(ps.drop_last()) + encode_prim(ps.last())
    }
}

/// The canonical encoding of one bucket: its key, its primitive count
/// and its primitives.
pub open spec fn encode_bucket(b: Bucket) -> Seq<u8> {
    i64_le_bytes(b.layer as i64) + i64_le_bytes(b.sublayer as i64) + u64_le_bytes(
        b.prims@.len() as u64,
    ) + encode_prims(b.prims@)
}

/// The canonical encoding of all buckets in draw order.
pub open spec fn encode_buckets(bs: Seq<Bucket>) -> Seq<u8>
    decreases bs.len(),
{
    if bs.len() == 0 {
        Seq::empty()
    } else {
        encode_buckets(bs.drop_last()) + encode_bucket(bs.last())
    }
}

/// The structural content hash of a frame's buckets.
pub open spec fn spec_layers_hash(layers: Layers) -> u64 {
    spec_fnv1a(encode_buckets(layers.buckets@))
}

/// Appends the canonical encoding of one primitive.
/// Appends the canonical encoding of a rect's texture reference.
#[verifier::rlimit(100)]
fn push_rect_texture(out: &mut Vec<u8>, texture: &Option<RectTexture>)
    ensures
        final(out)@ == old(out)@ + encode_rect_texture(*texture),
{
    match texture {
        None => out.push(0),
        Some(t) => {
            out.push(1);
            push_u64(out, t.texture_id);
            push_i64(out, t.uv.min.x);
            push_i64(out, t.uv.min.y);
            push_i64(out, t.uv.max.x);
            push_i64(out, t.uv.max.y);
            push_u64(out, t.layer_idx as u64);
        },
    }
    proof {
        assert(final(out)@ =~= old(out)@ + encode_rect_texture(*texture));
    }
}

/// Appends the canonical encoding of a quad's texture reference.
#[verifier::rlimit(100)]
fn push_quad_texture(out: &mut Vec<u8>, texture: &Option<QuadTexture>)
    ensures
        final(out)@ == old(out)@ + encode_quad_texture(*texture),
{
    match texture {
        None => out.push(0),
        Some(t) => {
            out.push(1);
            push_u64(out, t.texture_id);
            push_i64(out, t.uv.p0.x);
            push_i64(out, t.uv.p0.y);
            push_i64(out, t.uv.p1.x);
            push_i64(out, t.uv.p1.y);
            push_i64(out, t.uv.p2.x);
            push_i64(out, t.uv.p2.y);
            push_i64(out, t.uv.p3.x);
            push_i64(out, t.uv.p3.y);
            push_u64(out, t.layer_idx as u64);
        },
    }
    proof {
        assert(final(out)@ =~= old(out)@ + encode_quad_texture(*texture));
    }
}

/// Appends the canonical encoding of a primitive's kind, geometry, color
/// and texture.
#[verifier::rlimit(50)]
fn push_prim_body(out: &mut Vec<u8>, p: &DrawPrimitive)
    ensures
        final(out)@ == old(out)@ + encode_prim_body(*p),
{
    match p {
        DrawPrimitive::Rect(rp) => {
            out.push(1);
            push_i64(out, rp.rect.min.x);
            push_i64(out, rp.rect.min.y);
            push_i64(out, rp.rect.max.x);
            push_i64(out, rp.rect.max.y);
            out.push(rp.color.0[0]);
            out.push(rp.color.0[1]);
            out.push(rp.color.0[2]);
            out.push(rp.color.0[3]);
            push_rect_texture(out, &rp.texture);
            proof {
                assert(final(out)@ =~= old(out)@ + encode_prim_body(*p));
            }
        },
        DrawPrimitive::Quad(qp) => {
            out.push(2);
            push_i64(out, qp.quad.p0.x);
            push_i64(out, qp.quad.p0.y);
            push_i64(out, qp.quad.p1.x);
            push_i64(out, qp.quad.p1.y);
            push_i64(out, qp.quad.p2.x);
            push_i64(out, qp.quad.p2.y);
            push_i64(out, qp.quad.p3.x);
            push_i64(out, qp.quad.p3.y);
            out.push(qp.color.0[0]);
            out.push(qp.color.0[1]);
            out.push(qp.color.0[2]);
            out.push(qp.color.0[3]);
            push_quad_texture(out, &qp.texture);
            proof {
                assert(final(out)@ =~= old(out)@ + encode_prim_body(*p));
            }
        },
        DrawPrimitive::Text(tp) => {
            out.push(3);
            push_i64(out, tp.pos.x);
            push_i64(out, tp.pos.y);
            push_u64(out, tp.layout.job_hash);
            proof {
                assert(final(out)@ =~= old(out)@ + encode_prim_body(*p));
            }
        },
    }
}

fn push_prim(out: &mut Vec<u8>, p: &ClippedPrimitive)
    ensures
        final(out)@ == old(out)@ + encode_prim(*p),
{
    push_i64(out, p.clip_rect.min.x);
    push_i64(out, p.clip_rect.min.y);
    push_i64(out, p.clip_rect.max.x);
    push_i64(out, p.clip_rect.max.y);
    push_prim_body(out, &p.primitive);
    proof {
        assert(final(out)@ =~= old(out)@ + encode_prim(*p));
    }
}

/// Two frames whose buckets hold bit-identical primitive sequences have
/// the same content hash, so the renderer may elide the second frame's
/// GPU work and re-present the previous image.
pub proof fn lemma_frame_elision(a: Layers, b: Layers)
    requires
        a.buckets@ == b.buckets@,
    ensures
        spec_layers_hash(a) == spec_layers_hash(b),
{
}

impl Layers {
    /// The structural hash of everything issued this frame: two frames
    /// with equal hashes and no pending texture uploads are treated as
    /// visually identical.
    pub fn get_hash(&self) -> (r: u64)
        ensures
            r == spec_layers_hash(*self),
    {
        let mut out: Vec<u8> = Vec::new();
        let n = self.buckets.len();
        proof {
            assert(encode_buckets(self.buckets@.take(0)) =~= Seq::<u8>::empty());
        }
        let mut i: usize = 0;
        while i < n
            invariant
                n == self.buckets@.len(),
                i <= n,
                out@ == encode_buckets(self.buckets@.take(i as int)),
            decreases n - i,
        {
            let bucket = &self.buckets[i];
            push_i64(&mut out, bucket.layer as i64);
            push_i64(&mut out, bucket.sublayer as i64);
            push_u64(&mut out, bucket.prims.len() as u64);
            let m = bucket.prims.len();
            let mut k: usize = 0;
            proof {
                assert(encode_prims(bucket.prims@.take(0)) =~= Seq::<u8>::empty());
                assert(out@ =~= encode_buckets(self.buckets@.take(i as int)) + i64_le_bytes(
                    bucket.layer as i64,
                ) + i64_le_bytes(bucket.sublayer as i64) + u64_le_bytes(bucket.prims@.len() as u64)
                    + encode_prims(bucket.prims@.take(0)));
            }
            while k < m
                invariant
                    n == self.buckets@.len(),
                    i < n,
                    bucket == &self.buckets@[i as int],
                    m == bucket.prims@.len(),
                    k <= m,
                    out@ == encode_buckets(self.buckets@.take(i as int)) + i64_le_bytes(
                        bucket.layer as i64,
                    ) + i64_le_bytes(bucket.sublayer as i64) + u64_le_bytes(
                        bucket.prims@.len() as u64,
                    ) + encode_prims(bucket.prims@.take(k as int)),
                decreases m - k,
            {
                push_prim(&mut out, &bucket.prims[k]);
                proof {
                    assert(bucket.prims@.take(k + 1).drop_last() =~= bucket.prims@.take(k as int));
                    assert(bucket.prims@.take(k + 1).last() == bucket.prims@[k as int]);
                    assert(out@ =~= encode_buckets(self.buckets@.take(i as int)) + i64_le_bytes(
                        bucket.layer as i64,
                    ) + i64_le_bytes(bucket.sublayer as i64) + u64_le_bytes(
                        bucket.prims@.len() as u64,
                    ) + encode_prims(bucket.prims@.take(k + 1)));
                }
                k += 1;
            }
            proof {
                assert(bucket.prims@.take(m as int) =~= bucket.prims@);
                assert(self.buckets@.take(i + 1).drop_last() =~= self.buckets@.take(i as int));
                assert(self.buckets@.take(i + 1).last() == self.buckets@[i as int]);
                assert(out@ =~= encode_buckets(self.buckets@.take(i + 1)));
            }
            i += 1;
        }
        proof {
            assert(self.buckets@.take(n as int) =~= self.buckets@);
        }
        fnv1a(&out)
    }
}

} // verus!
