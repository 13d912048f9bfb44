use crate::color::Srgba;
use crate::dpi::{LogicalPoint, LogicalQuad, LogicalRect, LogicalVector, NormalizedQuad,
    NormalizedRect};
use crate::fonts::layout::Layout;
use std::sync::Arc;
use vstd::prelude::*;

verus! {

/// Identifies one GPU texture; zero is the reserved font atlas texture.
pub type TextureId = u64;

/// A primitive plus the clip rectangle that was active when it was
/// issued.
pub struct ClippedPrimitive {
    pub clip_rect: LogicalRect,
    pub primitive: DrawPrimitive,
}

/// One draw call issued by the scripting host, in screen-space
/// fixed-point logical pixels.
pub enum DrawPrimitive {
    Rect(RectPrimitive),
    Quad(QuadPrimitive),
    Text(TextPrimitive),
}

/// The texture a primitive samples: `None` means an untextured,
/// solid-color primitive that samples the reserved white texel.
#[derive(Clone, Copy)]
pub struct RectTexture {
    pub texture_id: TextureId,
    pub uv: NormalizedRect,
    pub layer_idx: u32,
}

impl RectTexture {
    pub fn new(texture_id: TextureId, uv: NormalizedRect, layer_idx: u32) -> (r: RectTexture)
        ensures
            r.texture_id == texture_id,
            r.uv == uv,
            r.layer_idx == layer_idx,
    {
        RectTexture { texture_id, uv, layer_idx }
    }
}

/// An axis-aligned rectangle with a color and an optional texture.
#[derive(Clone, Copy)]
pub struct RectPrimitive {
    pub rect: LogicalRect,
    pub color: Srgba,
    pub texture: Option<RectTexture>,
}

impl RectPrimitive {
    pub fn new(rect: LogicalRect, color: Srgba, texture: Option<RectTexture>) -> (r:
        RectPrimitive)
        ensures
            r.rect == rect,
            r.color == color,
            r.texture == texture,
    {
        RectPrimitive { rect, color, texture }
    }

    pub fn translate(&mut self, direction: LogicalVector)
        requires
            old(self).rect.wf(),
            direction.wf(),
        ensures
            final(self).rect.min.x == old(self).rect.min.x + direction.x,
            final(self).rect.min.y == old(self).rect.min.y + direction.y,
            final(self).rect.max.x == old(self).rect.max.x + direction.x,
            final(self).rect.max.y == old(self).rect.max.y + direction.y,
            final(self).color == old(self).color,
            final(self).texture == old(self).texture,
    {
        self.rect = self.rect.translate(direction);
    }
}

/// The texture of a free quadrilateral.
#[derive(Clone, Copy)]
pub struct QuadTexture {
    pub texture_id: TextureId,
    pub uv: NormalizedQuad,
    pub layer_idx: u32,
}

impl QuadTexture {
    pub fn new(texture_id: TextureId, uv: NormalizedQuad, layer_idx: u32) -> (r: QuadTexture)
        ensures
            r.texture_id == texture_id,
            r.uv == uv,
            r.layer_idx == layer_idx,
    {
        QuadTexture { texture_id, uv, layer_idx }
    }
}

/// A free quadrilateral with a color and an optional texture.
#[derive(Clone, Copy)]
pub struct QuadPrimitive {
    pub quad: LogicalQuad,
    pub color: Srgba,
    pub texture: Option<QuadTexture>,
}

impl QuadPrimitive {
    pub fn new(quad: LogicalQuad, color: Srgba, texture: Option<QuadTexture>) -> (r:
        QuadPrimitive)
        ensures
            r.quad == quad,
            r.color == color,
            r.texture == texture,
    {
        QuadPrimitive { quad, color, texture }
    }

    pub fn translate(&mut self, direction: LogicalVector)
        requires
            old(self).quad.wf(),
            direction.wf(),
        ensures
            final(self).quad.p0.x == old(self).quad.p0.x + direction.x && final(self).quad.p0.y
                == old(self).quad.p0.y + direction.y,
            final(self).quad.p1.x == old(self).quad.p1.x + direction.x && final(self).quad.p1.y
                == old(self).quad.p1.y + direction.y,
            final(self).quad.p2.x == old(self).quad.p2.x + direction.x && final(self).quad.p2.y
                == old(self).quad.p2.y + direction.y,
            final(self).quad.p3.x == old(self).quad.p3.x + direction.x && final(self).quad.p3.y
                == old(self).quad.p3.y + direction.y,
            final(self).color == old(self).color,
            final(self).texture == old(self).texture,
    {
        self.quad = self.quad.translate(direction);
    }
}

/// Laid-out text anchored at a position, sharing its cached layout.
pub struct TextPrimitive {
    pub pos: LogicalPoint,
    pub layout: Arc<Layout>,
}

impl TextPrimitive {
    pub fn new(pos: LogicalPoint, layout: Arc<Layout>) -> (r: TextPrimitive)
        ensures
            r.pos == pos,
            r.layout == layout,
    {
        TextPrimitive { pos, layout }
    }

    pub fn translate(&mut self, direction: LogicalVector)
        requires
            old(self).pos.wf(),
            direction.wf(),
        ensures
            final(self).pos.x == old(self).pos.x + direction.x,
            final(self).pos.y == old(self).pos.y + direction.y,
            final(self).layout == old(self).layout,
    {
        self.pos = self.pos.add_vector(direction);
    }
}

/// The texture a primitive binds: its own, or the default (the font
/// atlas texture) when it is untextured or text.
pub open spec fn spec_texture_id(p: DrawPrimitive) -> TextureId {
    match p {
        DrawPrimitive::Rect(rp) => match rp.texture {
            Some(t) => t.texture_id,
            None => 0,
        },
        DrawPrimitive::Quad(qp) => match qp.texture {
            Some(t) => t.texture_id,
            None => 0,
        },
        DrawPrimitive::Text(_) => 0,
    }
}

impl DrawPrimitive {
    pub fn texture_id(&self) -> (r: TextureId)
        ensures
            r == spec_texture_id(*self),
    {
        match self {
            DrawPrimitive::Rect(rp) => match &rp.texture {
                Some(t) => t.texture_id,
                None => 0,
            },
            DrawPrimitive::Quad(qp) => match &qp.texture {
                Some(t) => t.texture_id,
                None => 0,
            },
            DrawPrimitive::Text(_) => 0,
        }
    }
}

} // verus!
