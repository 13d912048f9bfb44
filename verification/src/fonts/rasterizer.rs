use crate::dpi::PhysicalVector;
use crate::fonts::atlas::{FontAtlas, FontAtlasRect};
use crate::fonts::glyph_key::{GlyphKey, StyleId};
use crate::math::{Size, Vector};
use std::collections::HashMap;
use vstd::prelude::*;

verus! {

broadcast use vstd::std_specs::hash::group_hash_axioms;

/// The per-run style properties that a glyph bitmap depends on. The font
/// size is in fixed-point physical pixels (already scaled by the DPI
/// factor); `skew` is the synthetic-italic angle in degrees.
pub struct StyleKey {
    pub font_blob_id: u64,
    pub font_size: i64,
    pub normalized_coords: Vec<i16>,
    pub skew: i8,
}

/// Two style keys describe the same style.
pub open spec fn style_eq(a: StyleKey, b: StyleKey) -> bool {
    a.font_blob_id == b.font_blob_id && a.font_size == b.font_size && a.normalized_coords@
        == b.normalized_coords@ && a.skew == b.skew
}

/// An atlas region holding one rasterized glyph, and the offset from the
/// glyph's pen position to the bitmap's top-left corner, in whole
/// physical pixels.
#[derive(Clone, Copy)]
pub struct CachedGlyph {
    pub uv: FontAtlasRect,
    pub baseline_offset: PhysicalVector,
}

/// A rasterized glyph bitmap as the rasterization capability hands it
/// over: an alpha mask of `width x height` texels whose top-left corner
/// sits at `(left, -top)` relative to the pen position.
pub struct RasterBitmap {
    pub width: i64,
    pub height: i64,
    pub left: i64,
    pub top: i64,
    pub alpha: Vec<u8>,
}

impl RasterBitmap {
    pub open spec fn wf(self) -> bool {
        0 <= self.width <= 4096 && 0 <= self.height <= 4096 && -4096 <= self.left <= 4096 && -4096
            <= self.top <= 4096 && self.alpha@.len() == self.width * self.height
    }

    /// The bitmap covers no texels and renders nothing.
    pub open spec fn spec_is_empty(self) -> bool {
        self.width == 0 || self.height == 0
    }
}

/// Caches rasterized glyph bitmaps by glyph key so that the same glyph is
/// never rasterized and uploaded twice, and interns style properties into
/// small ids to keep glyph keys compact. A cached `None` records that a
/// glyph renders nothing (for example whitespace); it is distinguished
/// from "not yet rasterized", which is absence from the cache.
pub struct GlyphRasterizer {
    pub style_keys: Vec<StyleKey>,
    pub cached_glyphs: HashMap<u128, Option<CachedGlyph>>,
}

impl GlyphRasterizer {
    /// Interned styles are unique, so a style id determines its style.
    pub open spec fn wf(self) -> bool {
        &&& forall|i: int, j: int|
            0 <= i < j < self.style_keys@.len() ==> !style_eq(
                #[trigger] self.style_keys@[i],
                #[trigger] self.style_keys@[j],
            )
        &&& self.style_keys@.len() <= 0xFFFF_FFFF
    }

    /// The cached entry for a packed glyph key, if any.
    pub open spec fn spec_cache(self) -> Map<u128, Option<CachedGlyph>> {
        self.cached_glyphs@
    }

    pub fn new() -> (r: GlyphRasterizer)
        ensures
            r.wf(),
            r.style_keys@.len() == 0,
            r.spec_cache() == Map::<u128, Option<CachedGlyph>>::empty(),
    {
        GlyphRasterizer { style_keys: Vec::new(), cached_glyphs: HashMap::new() }
    }

    /// Drops every cached glyph and style id. Must be called whenever the
    /// atlas is cleared: a cached region is meaningless afterwards.
    pub fn clear(&mut self)
        ensures
            final(self).wf(),
            final(self).style_keys@.len() == 0,
            final(self).spec_cache() == Map::<u128, Option<CachedGlyph>>::empty(),
    {
        self.style_keys = Vec::new();
        self.cached_glyphs.clear();
    }

    /// Looks up or interns a style, returning its small id: the index of
    /// the style in the interning order.
    pub fn get_style_id(&mut self, key: StyleKey) -> (id: StyleId)
        requires
            old(self).wf(),
            old(self).style_keys@.len() < 0xFFFF_FFFF,
        ensures
            final(self).wf(),
            final(self).cached_glyphs@ == old(self).cached_glyphs@,
            (id as int) < final(self).style_keys@.len(),
            style_eq(final(self).style_keys@[id as int], key),
            forall|i: int| 0 <= i < id ==> !style_eq(#[trigger] final(self).style_keys@[i], key),
            (exists|i: int|
                0 <= i < old(self).style_keys@.len() && style_eq(
                    #[trigger] old(self).style_keys@[i],
                    key,
                )) ==> final(self).style_keys@ == old(self).style_keys@,
            !(exists|i: int|
                0 <= i < old(self).style_keys@.len() && style_eq(
                    #[trigger] old(self).style_keys@[i],
                    key,
                )) ==> final(self).style_keys@ == old(self).style_keys@.push(key),
    {
        let n = self.style_keys.len();
        let mut i: usize = 0;
        while i < n
            invariant
                old(self).wf(),
                *self == *old(self),
                n == self.style_keys@.len(),
                i <= n,
                forall|j: int| 0 <= j < i ==> !style_eq(#[trigger] self.style_keys@[j], key),
            decreases n - i,
        {
            let s = &self.style_keys[i];
            if s.font_blob_id == key.font_blob_id && s.font_size == key.font_size && s.skew
                == key.skew && i16_vec_eq(&s.normalized_coords, &key.normalized_coords) {
                return i as StyleId;
            }
            i += 1;
        }
        let id = n as StyleId;
        self.style_keys.push(key);
        proof {
            assert forall|a: int, b: int| 0 <= a < b < self.style_keys@.len() implies !style_eq(
                self.style_keys@[a],
                self.style_keys@[b],
            ) by {
                if b == n as int {
                    assert(!style_eq(self.style_keys@[a], key));
                }
            }
        }
        id
    }

    /// The cached result for a glyph key: `None` if the glyph has not
    /// been rasterized since the last clear, `Some(None)` if it is known
    /// to render nothing, `Some(Some(glyph))` if its bitmap is in the
    /// atlas.
    pub fn lookup(&self, key: &GlyphKey) -> (r: Option<Option<CachedGlyph>>)
        requires
            key.wf(),
        ensures
            r == (if self.spec_cache().contains_key((key.spec_pack()) as u128) {
                Some(self.spec_cache()[(key.spec_pack()) as u128])
            } else {
                None::<Option<CachedGlyph>>
            }),
    {
        let packed = key.pack();
        match self.cached_glyphs.get(&packed) {
            Some(entry) => Some(*entry),
            None => None,
        }
    }

    /// Stores the rasterization result for a glyph key: an empty or
    /// missing bitmap is cached as "renders nothing"; anything else is
    /// written into the atlas and cached with the returned region.
    pub fn insert_rasterized(
        &mut self,
        key: &GlyphKey,
        raster: Option<RasterBitmap>,
        atlas: &mut FontAtlas,
    ) -> (r: Option<CachedGlyph>)
        requires
            old(self).wf(),
            key.wf(),
            old(atlas).wf(),
            raster matches Some(b) ==> b.wf() && b.width <= old(atlas).spec_width()
                && b.height <= old(atlas).spec_max_texture_side(),
        ensures
            final(self).wf(),
            final(atlas).wf(),
            final(self).style_keys@ == old(self).style_keys@,
            final(self).spec_cache() == old(self).spec_cache().insert(
                (key.spec_pack()) as u128,
                r,
            ),
            final(atlas).spec_width() == old(atlas).spec_width(),
            final(atlas).spec_max_texture_side() == old(atlas).spec_max_texture_side(),
            old(atlas).spec_overflowed() ==> final(atlas).spec_overflowed(),
            r is None <==> (raster is None || raster.unwrap().spec_is_empty()),
            r matches Some(g) ==> {
                &&& final(atlas).regions@ == old(atlas).regions@.push(g.uv)
                &&& final(atlas).region_in_bitmap(g.uv)
                &&& g.uv.max.x - g.uv.min.x == raster.unwrap().width
                &&& g.uv.max.y - g.uv.min.y == raster.unwrap().height
                &&& g.baseline_offset.x == raster.unwrap().left
                &&& g.baseline_offset.y == -raster.unwrap().top
            },
            r is None ==> *final(atlas) == *old(atlas),
    {
        let packed = key.pack();
        match raster {
            None => {
                self.cached_glyphs.insert(packed, None);
                None
            },
            Some(bitmap) => {
                if bitmap.width == 0 || bitmap.height == 0 {
                    self.cached_glyphs.insert(packed, None);
                    None
                } else {
                    let region = atlas.allocate(Size::new(bitmap.width, bitmap.height));
                    atlas.write_mask(region, &bitmap.alpha);
                    let cached = CachedGlyph {
                        uv: region,
                        baseline_offset: Vector::new(bitmap.left, -bitmap.top),
                    };
                    self.cached_glyphs.insert(packed, Some(cached));
                    Some(cached)
                }
            },
        }
    }
}

/// Element-wise equality of two `i16` vectors.
fn i16_vec_eq(a: &Vec<i16>, b: &Vec<i16>) -> (r: bool)
    ensures
        r == (a@ == b@),
{
    if a.len() != b.len() {
        assert(a@ != b@);
        return false;
    }
    let n = a.len();
    let mut i: usize = 0;
    while i < n
        invariant
            n == a@.len() == b@.len(),
            i <= n,
            forall|j: int| 0 <= j < i ==> a@[j] == b@[j],
        decreases n - i,
    {
        if a[i] != b[i] {
            return false;
        }
        i += 1;
    }
    proof {
        assert(a@ =~= b@);
    }
    true
}

} // verus!
