use crate::fonts::atlas::{AtlasDelta, FontAtlas};
use crate::fonts::glyph_key::{GLYPH_X_BINS, GlyphKey, StyleId, SubpixelBin, spec_bin_index,
    spec_bin_position};
use crate::fonts::layout::{Layout, LayoutJob, LayoutRow, RasterizedGlyph, job_hash, spec_job_hash};
use crate::fonts::rasterizer::{CachedGlyph, GlyphRasterizer, RasterBitmap, StyleKey, style_eq};
use crate::color::Srgba;
use crate::dpi::{
    PhysicalPoint, logical_to_physical, physical_to_logical, render_scale_ok,
    lemma_scaled_coord_ok, lemma_unscaled_coord_ok,
};
use crate::math::{COORD_LIMIT, PX_ONE, Point, Rect};
use crate::std_contracts::arc_clone;
use std::sync::Arc;
use vstd::prelude::*;
use vstd::seq_lib::group_seq_properties;

pub mod atlas;
pub mod glyph_key;
pub mod layout;
pub mod rasterizer;

verus! {

broadcast use group_seq_properties;

/// Data of a font file, as registered with the shaping capability.
#[derive(Clone, Copy, Debug)]
pub struct FontData {
    pub data: &'static [u8],
}

impl FontData {
    pub fn from_static(font_data: &'static [u8]) -> (r: FontData)
        ensures
            r.data@ == font_data@,
    {
        FontData { data: font_data }
    }

    pub fn bytes(&self) -> (r: &'static [u8])
        ensures
            r@ == self.data@,
    {
        self.data
    }
}

/// One cached layout with the logical frame counter of its last use.
pub struct CachedLayout {
    pub hash: u64,
    pub generation: u32,
    pub layout: Arc<Layout>,
}

/// The generation counter after one frame.
pub open spec fn wrap_inc(g: u32) -> u32 {
    (((g as int) + 1) % 0x1_0000_0000) as u32
}

/// Some entry of the sequence carries this hash.
pub open spec fn contains_hash(s: Seq<CachedLayout>, h: u64) -> bool {
    exists|i: int| 0 <= i < s.len() && (#[trigger] s[i]).hash == h
}

/// The entries that survive a sweep at generation `cur`.
pub open spec fn flush_entries(s: Seq<CachedLayout>, cur: u32) -> Seq<CachedLayout> {
    s.filter(|e: CachedLayout| e.generation == cur)
}

/// Caches whole layouts by job hash, evicting entries that go one full
/// frame without being used: a classic two-generation sweep.
pub struct LayoutCache {
    pub current_generation: u32,
    pub entries: Vec<CachedLayout>,
}

impl LayoutCache {
    /// Hashes are unique, and every cached layout is internally
    /// consistent.
    pub open spec fn wf(self) -> bool {
        &&& forall|i: int, j: int|
            0 <= i < j < self.entries@.len() ==> (#[trigger] self.entries@[i]).hash != (
            #[trigger] self.entries@[j]).hash
        &&& forall|i: int|
            0 <= i < self.entries@.len() ==> ((#[trigger] self.entries@[i]).layout.wf() && 0
                <= self.entries@[i].layout.width <= COORD_LIMIT
                && self.entries@[i].layout.job_hash == self.entries@[i].hash)
    }

    pub fn new() -> (r: LayoutCache)
        ensures
            r.wf(),
            r.entries@.len() == 0,
            r.current_generation == 0,
    {
        LayoutCache { current_generation: 0, entries: Vec::new() }
    }

    /// Looks up a layout by hash; a hit marks the entry as used this
    /// frame.
    pub fn get(&mut self, hash: u64) -> (r: Option<Arc<Layout>>)
        requires
            old(self).wf(),
        ensures
            final(self).wf(),
            final(self).current_generation == old(self).current_generation,
            (r is Some) == contains_hash(old(self).entries@, hash),
            r matches Some(l) ==> exists|i: int|
                0 <= i < old(self).entries@.len() && (#[trigger] old(self).entries@[i]).hash
                    == hash && l == old(self).entries@[i].layout && final(self).entries@ == old(self).entries@.update(
                    i,
                    CachedLayout {
                        hash,
                        generation: old(self).current_generation,
                        layout: old(self).entries@[i].layout,
                    },
                ),
            r is None ==> final(self).entries@ == old(self).entries@,
    {
        let n = self.entries.len();
        let mut i: usize = 0;
        while i < n
            invariant
                old(self).wf(),
                *self == *old(self),
                n == self.entries@.len(),
                i <= n,
                forall|j: int| 0 <= j < i ==> (#[trigger] self.entries@[j]).hash != hash,
            decreases n - i,
        {
            if self.entries[i].hash == hash {
                let layout = arc_clone(&self.entries[i].layout);
                let generation = self.current_generation;
                let refreshed = CachedLayout { hash, generation, layout };
                self.entries.set(i, refreshed);
                let r = arc_clone(&self.entries[i].layout);
                return Some(r);
            }
            i += 1;
        }
        None
    }

    /// Caches a layout under its hash, replacing any previous layout with
    /// the same hash, marked as used this frame.
    pub fn insert(&mut self, hash: u64, layout: Arc<Layout>)
        requires
            old(self).wf(),
            layout.wf(),
            0 <= layout.width <= COORD_LIMIT,
            layout.job_hash == hash,
        ensures
            final(self).wf(),
            final(self).current_generation == old(self).current_generation,
            contains_hash(final(self).entries@, hash),
            exists|i: int|
                0 <= i < final(self).entries@.len() && (#[trigger] final(self).entries@[i]).hash
                    == hash && final(self).entries@[i].layout == layout && final(self).entries@[i].generation == old(self).current_generation,
            forall|h2: u64|
                h2 != hash ==> #[trigger] contains_hash(final(self).entries@, h2) == contains_hash(
                    old(self).entries@,
                    h2,
                ),
    {
        let n = self.entries.len();
        let mut i: usize = 0;
        while i < n
            invariant
                old(self).wf(),
                *self == *old(self),
                n == self.entries@.len(),
                i <= n,
                layout.wf(),
                0 <= layout.width <= COORD_LIMIT,
                layout.job_hash == hash,
                forall|j: int| 0 <= j < i ==> (#[trigger] self.entries@[j]).hash != hash,
            decreases n - i,
        {
            if self.entries[i].hash == hash {
                let generation = self.current_generation;
                let entry = CachedLayout { hash, generation, layout };
                self.entries.set(i, entry);
                proof {
                    assert(old(self).entries@[i as int].hash == hash);
                    assert(forall|k: int|
                        0 <= k < self.entries@.len() ==> (#[trigger] self.entries@[k]).hash == old(
                            self,
                        ).entries@[k].hash);
                    assert(self.entries@[i as int].hash == hash);
                    assert forall|k: int| 0 <= k < self.entries@.len() implies ((
                    #[trigger] self.entries@[k]).layout.wf() && 0 <= self.entries@[k].layout.width
                        <= COORD_LIMIT && self.entries@[k].layout.job_hash
                        == self.entries@[k].hash) by {
                        if k != i as int {
                            assert(self.entries@[k] == old(self).entries@[k]);
                        } else {
                            assert(self.entries@[k] == entry);
                        }
                    }
                    assert forall|h2: u64| h2 != hash implies #[trigger] contains_hash(
                        self.entries@,
                        h2,
                    ) == contains_hash(old(self).entries@, h2) by {
                        if contains_hash(old(self).entries@, h2) {
                            let w = choose|k: int|
                                0 <= k < old(self).entries@.len() && (#[trigger] old(
                                    self,
                                ).entries@[k]).hash == h2;
                            assert(self.entries@[w].hash == h2);
                        }
                        if contains_hash(self.entries@, h2) {
                            let w = choose|k: int|
                                0 <= k < self.entries@.len() && (#[trigger] self.entries@[k]).hash
                                    == h2;
                            assert(old(self).entries@[w].hash == h2);
                        }
                    }
                }
                return ;
            }
            i += 1;
        }
        let generation = self.current_generation;
        let entry = CachedLayout { hash, generation, layout };
        self.entries.push(entry);
        proof {
            let last = self.entries@.len() - 1;
            assert(self.entries@[last].hash == hash);
            assert forall|h2: u64| h2 != hash implies #[trigger] contains_hash(self.entries@, h2)
                == contains_hash(old(self).entries@, h2) by {
                if contains_hash(old(self).entries@, h2) {
                    let w = choose|k: int|
                        0 <= k < old(self).entries@.len() && (#[trigger] old(
                            self,
                        ).entries@[k]).hash == h2;
                    assert(self.entries@[w].hash == h2);
                }
                if contains_hash(self.entries@, h2) {
                    let w = choose|k: int|
                        0 <= k < self.entries@.len() && (#[trigger] self.entries@[k]).hash == h2;
                    assert(old(self).entries@[w].hash == h2);
                }
            }
        }
    }

    /// The start-of-frame sweep: evicts every layout not used since the
    /// previous sweep, then opens a new generation. A layout survives one
    /// full unused frame before removal.
    pub fn flush(&mut self)
        requires
            old(self).wf(),
        ensures
            final(self).wf(),
            final(self).entries@ == flush_entries(
                old(self).entries@,
                old(self).current_generation,
            ),
            final(self).current_generation == wrap_inc(old(self).current_generation),
    {
        let n = self.entries.len();
        let mut kept: Vec<CachedLayout> = Vec::new();
        let mut i: usize = 0;
        while i < n
            invariant
                old(self).wf(),
                *self == *old(self),
                n == self.entries@.len(),
                i <= n,
                kept@ == old(self).entries@.take(i as int).filter(
                    |e: CachedLayout| e.generation == old(self).current_generation,
                ),
                forall|a: int, b: int|
                    0 <= a < b < kept@.len() ==> (#[trigger] kept@[a]).hash != (
                    #[trigger] kept@[b]).hash,
                forall|a: int, j: int|
                    0 <= a < kept@.len() && i <= j < n ==> (#[trigger] kept@[a]).hash != (
                    #[trigger] old(self).entries@[j]).hash,
                forall|a: int|
                    0 <= a < kept@.len() ==> ((#[trigger] kept@[a]).layout.wf() && 0
                        <= kept@[a].layout.width <= COORD_LIMIT && kept@[a].layout.job_hash
                        == kept@[a].hash),
            decreases n - i,
        {
            proof {
                assert(old(self).entries@.take(i + 1).drop_last() =~= old(self).entries@.take(
                    i as int,
                ));
                assert(old(self).entries@.take(i + 1).last() == old(self).entries@[i as int]);
                reveal(Seq::filter);
            }
            let e = &self.entries[i];
            if e.generation == self.current_generation {
                let kept_entry = CachedLayout {
                    hash: e.hash,
                    generation: e.generation,
                    layout: arc_clone(&e.layout),
                };
                proof {
                    assert(kept_entry == old(self).entries@[i as int]);
                }
                kept.push(kept_entry);
            }
            i += 1;
        }
        proof {
            assert(old(self).entries@.take(n as int) =~= old(self).entries@);
        }
        self.entries = kept;
        self.current_generation = self.current_generation.wrapping_add(1);
    }

    /// Drops every cached layout.
    pub fn clear(&mut self)
        ensures
            final(self).wf(),
            final(self).entries@.len() == 0,
            final(self).current_generation == old(self).current_generation,
    {
        let generation = self.current_generation;
        self.entries = Vec::new();
        self.current_generation = generation;
    }
}

/// Two sweeps with no use in between evict everything: a layout queried
/// in some frame but not queried in the next is gone by the start of the
/// frame after.
pub proof fn lemma_generation_eviction(s: Seq<CachedLayout>, g: u32)
    ensures
        flush_entries(flush_entries(s, g), wrap_inc(g)).len() == 0,
{
    let first = flush_entries(s, g);
    let pred = |e: CachedLayout| e.generation == g;
    broadcast use vstd::seq_lib::group_filter_ensures;

    assert forall|i: int| 0 <= i < first.len() implies !((#[trigger] first[i]).generation
        == wrap_inc(g)) by {
        assert(pred(first[i]));
    }
    first.lemma_all_neg_filter_empty(|e: CachedLayout| e.generation == wrap_inc(g));
}

/// An entry used in the current generation survives the sweep.
pub proof fn lemma_survival_when_used(s: Seq<CachedLayout>, g: u32, i: int)
    requires
        0 <= i < s.len(),
        s[i].generation == g,
    ensures
        flush_entries(s, g).contains(s[i]),
{
    broadcast use vstd::seq_lib::group_filter_ensures;

    s.lemma_filter_contains(|e: CachedLayout| e.generation == g, i);
}

/// Bound on shaped glyph coordinates and text widths, in fixed-point
/// logical pixels: 4096 pixels.
pub const GLYPH_COORD_LIMIT: i64 = 0x1000_0000;

/// One positioned glyph as the shaping capability hands it over, in
/// fixed-point logical pixels relative to the layout origin.
pub struct ShapedGlyph {
    pub glyph_id: u16,
    pub x: i64,
    pub y: i64,
}

/// One same-style run of positioned glyphs. The font size is in
/// fixed-point logical pixels; `skew` is the synthetic-italic angle.
pub struct ShapedRun {
    pub font_blob_id: u64,
    pub font_size: i64,
    pub normalized_coords: Vec<i16>,
    pub skew: i8,
    pub color: Srgba,
    pub glyphs: Vec<ShapedGlyph>,
}

/// One visual line of runs.
pub struct ShapedLine {
    pub runs: Vec<ShapedRun>,
}

/// A whole shaped text: its full width (fixed-point logical pixels) and
/// its lines, as produced by the shaping capability.
pub struct ShapedText {
    pub full_width: i64,
    pub lines: Vec<ShapedLine>,
}

impl ShapedRun {
    pub open spec fn wf(self) -> bool {
        &&& 0 <= self.font_size <= GLYPH_COORD_LIMIT
        &&& self.glyphs@.len() <= 1024
        &&& forall|g: int|
            0 <= g < self.glyphs@.len() ==> (-GLYPH_COORD_LIMIT <= (
            #[trigger] self.glyphs@[g]).x <= GLYPH_COORD_LIMIT && -GLYPH_COORD_LIMIT
                <= self.glyphs@[g].y <= GLYPH_COORD_LIMIT)
    }
}

impl ShapedText {
    pub open spec fn wf(self) -> bool {
        &&& 0 <= self.full_width <= GLYPH_COORD_LIMIT
        &&& self.lines@.len() <= 1024
        &&& forall|l: int|
            0 <= l < self.lines@.len() ==> (#[trigger] self.lines@[l]).runs@.len() <= 256
        &&& forall|l: int, r: int|
            0 <= l < self.lines@.len() && 0 <= r < self.lines@[l].runs@.len() ==> (
            #[trigger] self.lines@[l].runs@[r]).wf()
    }
}

/// A glyph the caller must rasterize before the layout can draw it: the
/// cache key, the style properties to rasterize with (font size in
/// fixed-point physical pixels), and the subpixel offset (fixed-point
/// fraction of a pixel) the bitmap must be rendered at.
pub struct RasterRequest {
    pub key: GlyphKey,
    pub font_blob_id: u64,
    pub font_size: i64,
    pub normalized_coords: Vec<i16>,
    pub skew: i8,
    pub frac_offset_x: i64,
}

/// The horizontal offset applied to every glyph before placement:
/// nothing for start-aligned text, half the width leftwards for centered
/// text, the whole width leftwards for end-aligned text.
pub open spec fn spec_alignment_offset(alignment: Option<crate::fonts::layout::Alignment>, full_width: i64) -> int {
    match alignment {
        Some(crate::fonts::layout::Alignment::Center) => -((full_width as int) / 2),
        Some(crate::fonts::layout::Alignment::Max) => -(full_width as int),
        _ => 0,
    }
}

/// A fixed-point value scaled by a fixed-point factor, rounding toward
/// negative infinity.
pub open spec fn spec_scaled(v: int, scale: int) -> int {
    v * scale / (PX_ONE as int)
}

/// The style properties one shaped run is rasterized with at a scale:
/// its font size in fixed-point physical pixels.
pub open spec fn spec_run_style(run: ShapedRun, pixels_per_point: i64) -> StyleKey {
    StyleKey {
        font_blob_id: run.font_blob_id,
        font_size: spec_scaled(run.font_size as int, pixels_per_point as int) as i64,
        normalized_coords: run.normalized_coords,
        skew: run.skew,
    }
}

/// No two interned styles are equal.
pub open spec fn styles_unique(styles: Seq<StyleKey>) -> bool {
    forall|i: int, j: int|
        0 <= i < j < styles.len() ==> !style_eq(#[trigger] styles[i], #[trigger] styles[j])
}

/// The id the interner maps a style to: the index of the unique
/// interned style it equals, or the interner size if it is absent.
pub open spec fn spec_style_index(styles: Seq<StyleKey>, key: StyleKey) -> int {
    if exists|i: int| 0 <= i < styles.len() && style_eq(#[trigger] styles[i], key) {
        choose|i: int| 0 <= i < styles.len() && style_eq(#[trigger] styles[i], key)
    } else {
        styles.len() as int
    }
}

/// In a uniquely-interned sequence, any index holding an equal style is
/// the style's index.
proof fn lemma_style_index_of(styles: Seq<StyleKey>, key: StyleKey, id: int)
    requires
        styles_unique(styles),
        0 <= id < styles.len(),
        style_eq(styles[id], key),
    ensures
        spec_style_index(styles, key) == id,
{
    let w = choose|i: int| 0 <= i < styles.len() && style_eq(#[trigger] styles[i], key);
    if w != id {
        assert(style_eq(styles[w], key));
        if w < id {
            assert(!style_eq(styles[w], styles[id]));
        } else {
            assert(!style_eq(styles[id], styles[w]));
        }
        assert(false);
    }
}

/// A style already interned keeps its index when the interner grows.
proof fn lemma_style_index_stable(a: Seq<StyleKey>, b: Seq<StyleKey>, key: StyleKey)
    requires
        a.len() <= b.len(),
        forall|i: int| 0 <= i < a.len() ==> a[i] == #[trigger] b[i],
        styles_unique(b),
        style_interned(a, key),
    ensures
        spec_style_index(a, key) == spec_style_index(b, key),
        0 <= spec_style_index(b, key) < a.len(),
{
    let ia = choose|i: int| 0 <= i < a.len() && style_eq(#[trigger] a[i], key);
    assert(style_eq(b[ia], key));
    lemma_style_index_of(b, key, ia);
    let wa = choose|i: int| 0 <= i < a.len() && style_eq(#[trigger] a[i], key);
    assert(spec_style_index(a, key) == wa);
    assert(style_eq(b[wa], key));
    lemma_style_index_of(b, key, wa);
}

/// The cache key of one shaped glyph: its id, the run's interned style,
/// the subpixel bin of its scaled, alignment-shifted x, and the scale.
pub open spec fn spec_glyph_key(
    glyph: ShapedGlyph,
    style_id: StyleId,
    offset_x: i64,
    pixels_per_point: i64,
) -> GlyphKey {
    GlyphKey {
        glyph_id: glyph.glyph_id,
        style_id,
        x_bin: SubpixelBin(
            spec_bin_index(
                spec_scaled(glyph.x + offset_x, pixels_per_point as int) as i64,
                GLYPH_X_BINS as int,
            ) as usize,
        ),
        pixels_per_point,
    }
}

/// The whole-pixel position one shaped glyph is placed at: its scaled,
/// alignment-shifted x binned to the pixel grid, its scaled y rounded.
pub open spec fn spec_glyph_pos(
    glyph: ShapedGlyph,
    offset_x: i64,
    pixels_per_point: i64,
) -> PhysicalPoint {
    crate::math::Point {
        x: spec_bin_position(
            spec_scaled(glyph.x + offset_x, pixels_per_point as int) as i64,
            GLYPH_X_BINS as int,
        ) as i64,
        y: ((spec_scaled(glyph.y as int, pixels_per_point as int) + PX_ONE as int / 2) / (
        PX_ONE as int)) as i64,
        space: core::marker::PhantomData,
    }
}

/// One cached glyph placed at a whole-pixel position: the bitmap-sized
/// quad at the position plus the baseline offset, converted back to
/// fixed-point logical pixels, sampling the cached atlas region in the
/// run's color.
pub open spec fn spec_place_glyph(
    cached: CachedGlyph,
    pos: PhysicalPoint,
    color: Srgba,
    pixels_per_point: i64,
) -> RasterizedGlyph {
    let p = PX_ONE as int;
    let left = (pos.x + cached.baseline_offset.x) * p;
    let top = (pos.y + cached.baseline_offset.y) * p;
    let right = (pos.x + cached.baseline_offset.x + (cached.uv.max.x - cached.uv.min.x)) * p;
    let bottom = (pos.y + cached.baseline_offset.y + (cached.uv.max.y - cached.uv.min.y)) * p;
    RasterizedGlyph {
        rect: Rect {
            min: crate::math::Point {
                x: (left * p / (pixels_per_point as int)) as i64,
                y: (top * p / (pixels_per_point as int)) as i64,
                space: core::marker::PhantomData,
            },
            max: crate::math::Point {
                x: (right * p / (pixels_per_point as int)) as i64,
                y: (bottom * p / (pixels_per_point as int)) as i64,
                space: core::marker::PhantomData,
            },
        },
        uv: cached.uv,
        color,
    }
}

/// The placements of the first `n` glyphs of one run, in glyph order:
/// one placed quad per glyph whose key the glyph cache maps to a
/// bitmap; glyphs cached as "renders nothing" and glyphs never handed
/// back are skipped.
pub open spec fn spec_run_placements(
    cache: Map<u128, Option<CachedGlyph>>,
    run: ShapedRun,
    style_id: StyleId,
    offset_x: i64,
    pixels_per_point: i64,
    n: int,
) -> Seq<RasterizedGlyph>
    decreases n,
{
    if n <= 0 {
        Seq::empty()
    } else {
        let prev = spec_run_placements(cache, run, style_id, offset_x, pixels_per_point, n - 1);
        let glyph = run.glyphs@[n - 1];
        let packed = (spec_glyph_key(glyph, style_id, offset_x, pixels_per_point).spec_pack()) as u128;
        if cache.contains_key(packed) && cache[packed] is Some {
            prev + seq![
                spec_place_glyph(
                    cache[packed].unwrap(),
                    spec_glyph_pos(glyph, offset_x, pixels_per_point),
                    run.color,
                    pixels_per_point,
                ),
            ]
        } else {
            prev
        }
    }
}

/// The placements of the first `n` runs of one line, concatenated in
/// run order, each run resolved with its interned style id.
pub open spec fn spec_line_placements(
    cache: Map<u128, Option<CachedGlyph>>,
    styles: Seq<StyleKey>,
    line: ShapedLine,
    offset_x: i64,
    pixels_per_point: i64,
    n: int,
) -> Seq<RasterizedGlyph>
    decreases n,
{
    if n <= 0 {
        Seq::empty()
    } else {
        let run = line.runs@[n - 1];
        spec_line_placements(cache, styles, line, offset_x, pixels_per_point, n - 1)
            + spec_run_placements(
            cache,
            run,
            spec_style_index(styles, spec_run_style(run, pixels_per_point)) as StyleId,
            offset_x,
            pixels_per_point,
            run.glyphs@.len() as int,
        )
    }
}

/// The rows of a committed layout over the first `n` shaped lines: one
/// row per line with at least one placed glyph, in line order; lines
/// whose glyphs all render nothing are omitted.
pub open spec fn spec_commit_rows(
    cache: Map<u128, Option<CachedGlyph>>,
    styles: Seq<StyleKey>,
    lines: Seq<ShapedLine>,
    offset_x: i64,
    pixels_per_point: i64,
    n: int,
) -> Seq<Seq<RasterizedGlyph>>
    decreases n,
{
    if n <= 0 {
        Seq::empty()
    } else {
        let prev = spec_commit_rows(cache, styles, lines, offset_x, pixels_per_point, n - 1);
        let row = spec_line_placements(
            cache,
            styles,
            lines[n - 1],
            offset_x,
            pixels_per_point,
            lines[n - 1].runs@.len() as int,
        );
        if row.len() == 0 {
            prev
        } else {
            prev + seq![row]
        }
    }
}

/// The glyph sequences of a layout's rows.
pub open spec fn rows_model(rows: Seq<LayoutRow>) -> Seq<Seq<RasterizedGlyph>> {
    Seq::new(rows.len(), |i: int| rows[i].glyphs@)
}

/// A style equal to `key` is interned.
pub open spec fn style_interned(styles: Seq<StyleKey>, key: StyleKey) -> bool {
    exists|i: int| 0 <= i < styles.len() && style_eq(#[trigger] styles[i], key)
}

/// Every style of the first `n` runs of a line is interned.
pub open spec fn line_styles_interned(
    styles: Seq<StyleKey>,
    line: ShapedLine,
    pixels_per_point: i64,
    n: int,
) -> bool
    decreases n,
{
    n <= 0 || (line_styles_interned(styles, line, pixels_per_point, n - 1) && style_interned(
        styles,
        spec_run_style(line.runs@[n - 1], pixels_per_point),
    ))
}

/// Every style of the first `n` lines' runs is interned.
pub open spec fn lines_styles_interned(
    styles: Seq<StyleKey>,
    lines: Seq<ShapedLine>,
    pixels_per_point: i64,
    n: int,
) -> bool
    decreases n,
{
    n <= 0 || (lines_styles_interned(styles, lines, pixels_per_point, n - 1)
        && line_styles_interned(
        styles,
        lines[n - 1],
        pixels_per_point,
        lines[n - 1].runs@.len() as int,
    ))
}

/// Interned styles stay interned when the interner grows.
proof fn lemma_line_styles_interned_grow(
    a: Seq<StyleKey>,
    b: Seq<StyleKey>,
    line: ShapedLine,
    pixels_per_point: i64,
    n: int,
)
    requires
        a.len() <= b.len(),
        forall|i: int| 0 <= i < a.len() ==> a[i] == #[trigger] b[i],
        line_styles_interned(a, line, pixels_per_point, n),
    ensures
        line_styles_interned(b, line, pixels_per_point, n),
    decreases n,
{
    if n > 0 {
        lemma_line_styles_interned_grow(a, b, line, pixels_per_point, n - 1);
        let key = spec_run_style(line.runs@[n - 1], pixels_per_point);
        let w = choose|i: int| 0 <= i < a.len() && style_eq(#[trigger] a[i], key);
        assert(style_eq(b[w], key));
    }
}

/// Interned styles stay interned when the interner grows, over lines.
proof fn lemma_lines_styles_interned_grow(
    a: Seq<StyleKey>,
    b: Seq<StyleKey>,
    lines: Seq<ShapedLine>,
    pixels_per_point: i64,
    n: int,
)
    requires
        a.len() <= b.len(),
        forall|i: int| 0 <= i < a.len() ==> a[i] == #[trigger] b[i],
        lines_styles_interned(a, lines, pixels_per_point, n),
    ensures
        lines_styles_interned(b, lines, pixels_per_point, n),
    decreases n,
{
    if n > 0 {
        lemma_lines_styles_interned_grow(a, b, lines, pixels_per_point, n - 1);
        lemma_line_styles_interned_grow(
            a,
            b,
            lines[n - 1],
            pixels_per_point,
            lines[n - 1].runs@.len() as int,
        );
    }
}

/// Line placements do not change when the interner grows, as long as
/// every style the line uses is already interned.
proof fn lemma_line_placements_stable(
    cache: Map<u128, Option<CachedGlyph>>,
    a: Seq<StyleKey>,
    b: Seq<StyleKey>,
    line: ShapedLine,
    offset_x: i64,
    pixels_per_point: i64,
    n: int,
)
    requires
        a.len() <= b.len(),
        forall|i: int| 0 <= i < a.len() ==> a[i] == #[trigger] b[i],
        styles_unique(b),
        line_styles_interned(a, line, pixels_per_point, n),
        n <= line.runs@.len(),
    ensures
        spec_line_placements(cache, a, line, offset_x, pixels_per_point, n)
            == spec_line_placements(cache, b, line, offset_x, pixels_per_point, n),
    decreases n,
{
    if n > 0 {
        lemma_line_placements_stable(cache, a, b, line, offset_x, pixels_per_point, n - 1);
        lemma_style_index_stable(a, b, spec_run_style(line.runs@[n - 1], pixels_per_point));
    }
}

/// Committed rows do not change when the interner grows, as long as
/// every style the lines use is already interned.
proof fn lemma_commit_rows_stable(
    cache: Map<u128, Option<CachedGlyph>>,
    a: Seq<StyleKey>,
    b: Seq<StyleKey>,
    lines: Seq<ShapedLine>,
    offset_x: i64,
    pixels_per_point: i64,
    n: int,
)
    requires
        a.len() <= b.len(),
        forall|i: int| 0 <= i < a.len() ==> a[i] == #[trigger] b[i],
        styles_unique(b),
        lines_styles_interned(a, lines, pixels_per_point, n),
        n <= lines.len(),
    ensures
        spec_commit_rows(cache, a, lines, offset_x, pixels_per_point, n) == spec_commit_rows(
            cache,
            b,
            lines,
            offset_x,
            pixels_per_point,
            n,
        ),
    decreases n,
{
    if n > 0 {
        lemma_commit_rows_stable(cache, a, b, lines, offset_x, pixels_per_point, n - 1);
        lemma_line_placements_stable(
            cache,
            a,
            b,
            lines[n - 1],
            offset_x,
            pixels_per_point,
            lines[n - 1].runs@.len() as int,
        );
    }
}

/// A request that would rasterize one glyph of a run: the glyph's key,
/// the run's style properties at the scale, and the key's bin as a
/// fractional pixel offset.
pub open spec fn spec_request_for(
    req: RasterRequest,
    run: ShapedRun,
    key: GlyphKey,
    pixels_per_point: i64,
) -> bool {
    &&& req.key == key
    &&& req.font_blob_id == run.font_blob_id
    &&& req.font_size == spec_scaled(run.font_size as int, pixels_per_point as int) as i64
    &&& req.normalized_coords@ == run.normalized_coords@
    &&& req.skew == run.skew
    &&& req.frac_offset_x == (key.x_bin.0 as int * PX_ONE as int) / (GLYPH_X_BINS as int)
}

/// One glyph is covered: its key is already cached, or some request
/// asks for its bitmap.
pub open spec fn spec_glyph_covered(
    cache: Map<u128, Option<CachedGlyph>>,
    requests: Seq<RasterRequest>,
    styles: Seq<StyleKey>,
    run: ShapedRun,
    glyph: ShapedGlyph,
    offset_x: i64,
    pixels_per_point: i64,
) -> bool {
    let key = spec_glyph_key(
        glyph,
        spec_style_index(styles, spec_run_style(run, pixels_per_point)) as StyleId,
        offset_x,
        pixels_per_point,
    );
    cache.contains_key((key.spec_pack()) as u128) || exists|k: int|
        0 <= k < requests.len() && spec_request_for(
            #[trigger] requests[k],
            run,
            key,
            pixels_per_point,
        )
}

/// The first `n` glyphs of a run are covered.
pub open spec fn run_glyphs_covered(
    cache: Map<u128, Option<CachedGlyph>>,
    requests: Seq<RasterRequest>,
    styles: Seq<StyleKey>,
    run: ShapedRun,
    offset_x: i64,
    pixels_per_point: i64,
    n: int,
) -> bool
    decreases n,
{
    n <= 0 || (run_glyphs_covered(cache, requests, styles, run, offset_x, pixels_per_point, n - 1)
        && spec_glyph_covered(
        cache,
        requests,
        styles,
        run,
        run.glyphs@[n - 1],
        offset_x,
        pixels_per_point,
    ))
}

/// Every glyph of the first `n` runs of a line is covered.
pub open spec fn line_glyphs_covered(
    cache: Map<u128, Option<CachedGlyph>>,
    requests: Seq<RasterRequest>,
    styles: Seq<StyleKey>,
    line: ShapedLine,
    offset_x: i64,
    pixels_per_point: i64,
    n: int,
) -> bool
    decreases n,
{
    n <= 0 || (line_glyphs_covered(cache, requests, styles, line, offset_x, pixels_per_point, n - 1)
        && run_glyphs_covered(
        cache,
        requests,
        styles,
        line.runs@[n - 1],
        offset_x,
        pixels_per_point,
        line.runs@[n - 1].glyphs@.len() as int,
    ))
}

/// Every glyph of the first `n` lines is covered.
pub open spec fn lines_glyphs_covered(
    cache: Map<u128, Option<CachedGlyph>>,
    requests: Seq<RasterRequest>,
    styles: Seq<StyleKey>,
    lines: Seq<ShapedLine>,
    offset_x: i64,
    pixels_per_point: i64,
    n: int,
) -> bool
    decreases n,
{
    n <= 0 || (lines_glyphs_covered(cache, requests, styles, lines, offset_x, pixels_per_point, n - 1)
        && line_glyphs_covered(
        cache,
        requests,
        styles,
        lines[n - 1],
        offset_x,
        pixels_per_point,
        lines[n - 1].runs@.len() as int,
    ))
}

/// Coverage survives appending requests and growing the interner, as
/// long as the run's style is already interned.
proof fn lemma_run_covered_grow(
    cache: Map<u128, Option<CachedGlyph>>,
    reqs_a: Seq<RasterRequest>,
    reqs_b: Seq<RasterRequest>,
    styles_a: Seq<StyleKey>,
    styles_b: Seq<StyleKey>,
    run: ShapedRun,
    offset_x: i64,
    pixels_per_point: i64,
    n: int,
)
    requires
        reqs_a.len() <= reqs_b.len(),
        forall|i: int| 0 <= i < reqs_a.len() ==> reqs_a[i] == #[trigger] reqs_b[i],
        styles_a.len() <= styles_b.len(),
        forall|i: int| 0 <= i < styles_a.len() ==> styles_a[i] == #[trigger] styles_b[i],
        styles_unique(styles_b),
        style_interned(styles_a, spec_run_style(run, pixels_per_point)),
        run_glyphs_covered(cache, reqs_a, styles_a, run, offset_x, pixels_per_point, n),
    ensures
        run_glyphs_covered(cache, reqs_b, styles_b, run, offset_x, pixels_per_point, n),
    decreases n,
{
    if n > 0 {
        lemma_run_covered_grow(
            cache,
            reqs_a,
            reqs_b,
            styles_a,
            styles_b,
            run,
            offset_x,
            pixels_per_point,
            n - 1,
        );
        lemma_style_index_stable(styles_a, styles_b, spec_run_style(run, pixels_per_point));
        let key = spec_glyph_key(
            run.glyphs@[n - 1],
            spec_style_index(styles_a, spec_run_style(run, pixels_per_point)) as StyleId,
            offset_x,
            pixels_per_point,
        );
        if !cache.contains_key((key.spec_pack()) as u128) {
            let w = choose|k: int|
                0 <= k < reqs_a.len() && spec_request_for(
                    #[trigger] reqs_a[k],
                    run,
                    key,
                    pixels_per_point,
                );
            assert(spec_request_for(reqs_b[w], run, key, pixels_per_point));
        }
    }
}

/// Coverage of a line survives appending requests and growing the
/// interner.
proof fn lemma_line_covered_grow(
    cache: Map<u128, Option<CachedGlyph>>,
    reqs_a: Seq<RasterRequest>,
    reqs_b: Seq<RasterRequest>,
    styles_a: Seq<StyleKey>,
    styles_b: Seq<StyleKey>,
    line: ShapedLine,
    offset_x: i64,
    pixels_per_point: i64,
    n: int,
)
    requires
        reqs_a.len() <= reqs_b.len(),
        forall|i: int| 0 <= i < reqs_a.len() ==> reqs_a[i] == #[trigger] reqs_b[i],
        styles_a.len() <= styles_b.len(),
        forall|i: int| 0 <= i < styles_a.len() ==> styles_a[i] == #[trigger] styles_b[i],
        styles_unique(styles_b),
        line_styles_interned(styles_a, line, pixels_per_point, n),
        line_glyphs_covered(cache, reqs_a, styles_a, line, offset_x, pixels_per_point, n),
    ensures
        line_glyphs_covered(cache, reqs_b, styles_b, line, offset_x, pixels_per_point, n),
    decreases n,
{
    if n > 0 {
        lemma_line_covered_grow(
            cache,
            reqs_a,
            reqs_b,
            styles_a,
            styles_b,
            line,
            offset_x,
            pixels_per_point,
            n - 1,
        );
        lemma_run_covered_grow(
            cache,
            reqs_a,
            reqs_b,
            styles_a,
            styles_b,
            line.runs@[n - 1],
            offset_x,
            pixels_per_point,
            line.runs@[n - 1].glyphs@.len() as int,
        );
    }
}

/// Coverage of whole lines survives appending requests and growing the
/// interner.
proof fn lemma_lines_covered_grow(
    cache: Map<u128, Option<CachedGlyph>>,
    reqs_a: Seq<RasterRequest>,
    reqs_b: Seq<RasterRequest>,
    styles_a: Seq<StyleKey>,
    styles_b: Seq<StyleKey>,
    lines: Seq<ShapedLine>,
    offset_x: i64,
    pixels_per_point: i64,
    n: int,
)
    requires
        reqs_a.len() <= reqs_b.len(),
        forall|i: int| 0 <= i < reqs_a.len() ==> reqs_a[i] == #[trigger] reqs_b[i],
        styles_a.len() <= styles_b.len(),
        forall|i: int| 0 <= i < styles_a.len() ==> styles_a[i] == #[trigger] styles_b[i],
        styles_unique(styles_b),
        lines_styles_interned(styles_a, lines, pixels_per_point, n),
        lines_glyphs_covered(cache, reqs_a, styles_a, lines, offset_x, pixels_per_point, n),
    ensures
        lines_glyphs_covered(cache, reqs_b, styles_b, lines, offset_x, pixels_per_point, n),
    decreases n,
{
    if n > 0 {
        lemma_lines_covered_grow(
            cache,
            reqs_a,
            reqs_b,
            styles_a,
            styles_b,
            lines,
            offset_x,
            pixels_per_point,
            n - 1,
        );
        lemma_line_covered_grow(
            cache,
            reqs_a,
            reqs_b,
            styles_a,
            styles_b,
            lines[n - 1],
            offset_x,
            pixels_per_point,
            lines[n - 1].runs@.len() as int,
        );
    }
}

/// Unfolds whole-text coverage to one glyph: the glyph's key is cached
/// or requested.
pub proof fn lemma_covered_glyph(
    cache: Map<u128, Option<CachedGlyph>>,
    requests: Seq<RasterRequest>,
    styles: Seq<StyleKey>,
    lines: Seq<ShapedLine>,
    offset_x: i64,
    pixels_per_point: i64,
    n: int,
    li: int,
    ri: int,
    gi: int,
)
    requires
        lines_glyphs_covered(cache, requests, styles, lines, offset_x, pixels_per_point, n),
        0 <= li < n <= lines.len(),
        0 <= ri < lines[li].runs@.len(),
        0 <= gi < lines[li].runs@[ri].glyphs@.len(),
    ensures
        spec_glyph_covered(
            cache,
            requests,
            styles,
            lines[li].runs@[ri],
            lines[li].runs@[ri].glyphs@[gi],
            offset_x,
            pixels_per_point,
        ),
    decreases n + lines[li].runs@.len() + lines[li].runs@[ri].glyphs@.len(),
{
    if li < n - 1 {
        lemma_covered_glyph(
            cache,
            requests,
            styles,
            lines,
            offset_x,
            pixels_per_point,
            n - 1,
            li,
            ri,
            gi,
        );
    } else {
        lemma_covered_glyph_in_line(
            cache,
            requests,
            styles,
            lines[li],
            offset_x,
            pixels_per_point,
            lines[li].runs@.len() as int,
            ri,
            gi,
        );
    }
}

proof fn lemma_covered_glyph_in_line(
    cache: Map<u128, Option<CachedGlyph>>,
    requests: Seq<RasterRequest>,
    styles: Seq<StyleKey>,
    line: ShapedLine,
    offset_x: i64,
    pixels_per_point: i64,
    n: int,
    ri: int,
    gi: int,
)
    requires
        line_glyphs_covered(cache, requests, styles, line, offset_x, pixels_per_point, n),
        0 <= ri < n <= line.runs@.len(),
        0 <= gi < line.runs@[ri].glyphs@.len(),
    ensures
        spec_glyph_covered(
            cache,
            requests,
            styles,
            line.runs@[ri],
            line.runs@[ri].glyphs@[gi],
            offset_x,
            pixels_per_point,
        ),
    decreases n + line.runs@[ri].glyphs@.len(),
{
    if ri < n - 1 {
        lemma_covered_glyph_in_line(
            cache,
            requests,
            styles,
            line,
            offset_x,
            pixels_per_point,
            n - 1,
            ri,
            gi,
        );
    } else {
        lemma_covered_glyph_in_run(
            cache,
            requests,
            styles,
            line.runs@[ri],
            offset_x,
            pixels_per_point,
            line.runs@[ri].glyphs@.len() as int,
            gi,
        );
    }
}

proof fn lemma_covered_glyph_in_run(
    cache: Map<u128, Option<CachedGlyph>>,
    requests: Seq<RasterRequest>,
    styles: Seq<StyleKey>,
    run: ShapedRun,
    offset_x: i64,
    pixels_per_point: i64,
    n: int,
    gi: int,
)
    requires
        run_glyphs_covered(cache, requests, styles, run, offset_x, pixels_per_point, n),
        0 <= gi < n <= run.glyphs@.len(),
    ensures
        spec_glyph_covered(
            cache,
            requests,
            styles,
            run,
            run.glyphs@[gi],
            offset_x,
            pixels_per_point,
        ),
    decreases n,
{
    if gi < n - 1 {
        lemma_covered_glyph_in_run(
            cache,
            requests,
            styles,
            run,
            offset_x,
            pixels_per_point,
            n - 1,
            gi,
        );
    }
}

/// The text pipeline: one atlas, one glyph cache and one layout cache,
/// cleared together whenever the atlas fills up. The shaping and
/// rasterization capabilities stay outside: the caller shapes text into
/// plain `ShapedText` values and rasterizes the glyphs this engine asks
/// for; everything else - binning, caching, atlas packing, placement and
/// eviction - happens here.
pub struct Fonts {
    pub atlas: FontAtlas,
    pub glyph_rasterizer: GlyphRasterizer,
    pub layout_cache: LayoutCache,
}

impl Fonts {
    /// Every cached glyph's region was handed out by the atlas since its
    /// last clear: glyph cache and atlas are cleared together, so a
    /// cached region never outlives the bitmap area it points into.
    pub open spec fn glyphs_in_atlas(self) -> bool {
        forall|k: u128|
            #[trigger] self.glyph_rasterizer.spec_cache().contains_key(k)
                ==> match self.glyph_rasterizer.spec_cache()[k] {
                Some(g) => self.atlas.regions@.contains(g.uv) && -4096 <= g.baseline_offset.x
                    <= 4096 && -4096 <= g.baseline_offset.y <= 4096,
                None => true,
            }
    }

    pub open spec fn wf(self) -> bool {
        &&& self.atlas.wf()
        &&& self.glyph_rasterizer.wf()
        &&& self.layout_cache.wf()
        &&& self.glyphs_in_atlas()
    }

    /// Headroom left in the style interner for at least one more text.
    pub open spec fn style_headroom(self) -> bool {
        self.glyph_rasterizer.style_keys@.len() < 0xF000_0000
    }

    pub fn new(max_texture_side: i64) -> (fonts: Fonts)
        requires
            256 <= max_texture_side <= 4096,
        ensures
            fonts.wf(),
            fonts.style_headroom(),
            !fonts.atlas.spec_overflowed(),
            fonts.atlas.spec_max_texture_side() == max_texture_side,
            fonts.layout_cache.entries@.len() == 0,
    {
        Fonts {
            atlas: FontAtlas::new(max_texture_side),
            glyph_rasterizer: GlyphRasterizer::new(),
            layout_cache: LayoutCache::new(),
        }
    }

    /// Must be called once per frame before any layout queries: clears
    /// atlas and caches together when the atlas is nearly full or has
    /// overflowed, then sweeps layouts unused since the previous frame.
    pub fn begin_frame(&mut self)
        requires
            old(self).wf(),
        ensures
            final(self).wf(),
            old(self).style_headroom() ==> final(self).style_headroom(),
            !final(self).atlas.spec_overflowed(),
            !old(self).atlas.spec_needs_clear() ==> {
                &&& final(self).atlas == old(self).atlas
                &&& final(self).glyph_rasterizer == old(self).glyph_rasterizer
                &&& final(self).layout_cache.entries@ == flush_entries(
                    old(self).layout_cache.entries@,
                    old(self).layout_cache.current_generation,
                )
                &&& final(self).layout_cache.current_generation == wrap_inc(
                    old(self).layout_cache.current_generation,
                )
            },
            old(self).atlas.spec_needs_clear() ==> {
                &&& final(self).glyph_rasterizer.spec_cache() == Map::<
                    u128,
                    Option<CachedGlyph>,
                >::empty()
                &&& final(self).glyph_rasterizer.style_keys@.len() == 0
                &&& final(self).layout_cache.entries@.len() == 0
                &&& final(self).atlas.spec_fresh_bitmap()
                &&& final(self).atlas.spec_dirty()
                &&& final(self).atlas.spec_height() == old(self).atlas.spec_height()
            },
    {
        if self.atlas.needs_clear() {
            self.clear_atlas();
        }
        self.layout_cache.flush();
    }

    /// Clears atlas, glyph cache and layout cache together: cached
    /// glyph regions and layouts reference atlas content, so none of them
    /// survives an atlas clear.
    fn clear_atlas(&mut self)
        requires
            old(self).atlas.wf(),
        ensures
            final(self).wf(),
            final(self).style_headroom(),
            !final(self).atlas.spec_overflowed(),
            final(self).atlas.spec_max_texture_side() == old(self).atlas.spec_max_texture_side(),
            final(self).glyph_rasterizer.spec_cache() == Map::<u128, Option<CachedGlyph>>::empty(),
            final(self).glyph_rasterizer.style_keys@.len() == 0,
            final(self).layout_cache.entries@.len() == 0,
            final(self).layout_cache.current_generation == old(
                self,
            ).layout_cache.current_generation,
            final(self).atlas.spec_fresh_bitmap(),
            final(self).atlas.spec_dirty(),
            final(self).atlas.spec_height() == old(self).atlas.spec_height(),
    {
        self.atlas.clear();
        self.glyph_rasterizer.clear();
        self.layout_cache.clear();
    }

    /// Changes to the atlas bitmap since the last call, for the upload
    /// path.
    pub fn font_atlas_delta(&mut self) -> (delta: Option<AtlasDelta>)
        requires
            old(self).wf(),
        ensures
            final(self).wf(),
            final(self).style_headroom() == old(self).style_headroom(),
            delta is Some <==> old(self).atlas.spec_dirty(),
            delta matches Some(d) ==> d.bytes@ == old(self).atlas.spec_bytes(),
    {
        self.atlas.take_delta()
    }

    pub fn font_atlas(&self) -> (atlas: &FontAtlas)
        ensures
            atlas == &self.atlas,
    {
        &self.atlas
    }

    /// Looks up a whole layout by job and scale; a hit marks it used this
    /// frame. Equal jobs at an equal scale always map to the same cache
    /// entry, so a repeated query in one frame returns the cached layout
    /// instead of recomputing it.
    #[verifier::rlimit(100)]
    pub fn layout_cached(&mut self, job: &LayoutJob, pixels_per_point: i64) -> (r: Option<
        Arc<Layout>,
    >)
        requires
            old(self).wf(),
        ensures
            final(self).wf(),
            final(self).style_headroom() == old(self).style_headroom(),
            final(self).atlas == old(self).atlas,
            final(self).glyph_rasterizer == old(self).glyph_rasterizer,
            (r is Some) == contains_hash(
                old(self).layout_cache.entries@,
                spec_job_hash(*job, pixels_per_point),
            ),
            r matches Some(l) ==> exists|i: int|
                0 <= i < old(self).layout_cache.entries@.len() && (#[trigger] old(
                    self,
                ).layout_cache.entries@[i]).hash == spec_job_hash(*job, pixels_per_point) && l
                    == old(self).layout_cache.entries@[i].layout,
            r matches Some(l) ==> (l.wf() && 0 <= l.width <= COORD_LIMIT && l.job_hash
                == spec_job_hash(*job, pixels_per_point)),
            r is None ==> (final(self).layout_cache.entries@ == old(self).layout_cache.entries@
                && final(self).layout_cache.current_generation == old(
                self,
            ).layout_cache.current_generation),
    {
        let h = job_hash(job, pixels_per_point);
        self.layout_cache.get(h)
    }

    /// The full width, in whole logical pixels, of the layout cached for
    /// this job and scale; `None` if the layout has not been built this
    /// frame or last frame. A hit marks the layout as used.
    pub fn get_text_width(&mut self, job: &LayoutJob, pixels_per_point: i64) -> (r: Option<i64>)
        requires
            old(self).wf(),
        ensures
            final(self).wf(),
            (r is Some) == contains_hash(
                old(self).layout_cache.entries@,
                spec_job_hash(*job, pixels_per_point),
            ),
            r matches Some(w) ==> exists|i: int|
                0 <= i < old(self).layout_cache.entries@.len() && (#[trigger] old(self).layout_cache.entries@[i]).hash == spec_job_hash(*job, pixels_per_point)
                    && w == old(self).layout_cache.entries@[i].layout.width as int / (
                PX_ONE as int),
    {
        match self.layout_cached(job, pixels_per_point) {
            Some(layout) => {
                let w = layout.width_px();
                proof {
                    let h = spec_job_hash(*job, pixels_per_point);
                    let wi = choose|i: int|
                        0 <= i < old(self).layout_cache.entries@.len() && (#[trigger] old(self).layout_cache.entries@[i]).hash == h && layout
                            == old(self).layout_cache.entries@[i].layout;
                    assert(old(self).layout_cache.entries@[wi].hash == h && w == old(self).layout_cache.entries@[wi].layout.width as int / (PX_ONE as int));
                }
                Some(w)
            },
            None => None,
        }
    }

    /// Interns the style of one shaped run at the given scale and
    /// returns its style id. The id feeds glyph keys: equal styles get
    /// equal ids, distinct styles distinct ids.
    pub fn run_style_id(&mut self, run: &ShapedRun, pixels_per_point: i64) -> (id: StyleId)
        requires
            old(self).wf(),
            old(self).glyph_rasterizer.style_keys@.len() < 0xFFFF_0000,
            run.wf(),
            render_scale_ok(pixels_per_point),
        ensures
            final(self).wf(),
            final(self).atlas == old(self).atlas,
            final(self).layout_cache == old(self).layout_cache,
            final(self).glyph_rasterizer.spec_cache() == old(self).glyph_rasterizer.spec_cache(),
            final(self).glyph_rasterizer.style_keys@.len() >= old(
                self,
            ).glyph_rasterizer.style_keys@.len(),
            final(self).glyph_rasterizer.style_keys@.len() <= old(
                self,
            ).glyph_rasterizer.style_keys@.len() + 1,
            forall|i: int|
                0 <= i < old(self).glyph_rasterizer.style_keys@.len() ==> old(self).glyph_rasterizer.style_keys@[i] == #[trigger] final(self).glyph_rasterizer.style_keys@[i],
            (id as int) < final(self).glyph_rasterizer.style_keys@.len(),
            (id as int) == spec_style_index(
                final(self).glyph_rasterizer.style_keys@,
                spec_run_style(*run, pixels_per_point),
            ),
            style_interned(
                final(self).glyph_rasterizer.style_keys@,
                spec_run_style(*run, pixels_per_point),
            ),
    {
        proof {
            lemma_scaled_coord_ok(run.font_size, pixels_per_point, GLYPH_COORD_LIMIT);
        }
        let scaled_size = logical_to_physical(run.font_size, pixels_per_point);
        let key = StyleKey {
            font_blob_id: run.font_blob_id,
            font_size: scaled_size,
            normalized_coords: copy_i16s(&run.normalized_coords),
            skew: run.skew,
        };
        let id = self.glyph_rasterizer.get_style_id(key);
        proof {
            let styles = self.glyph_rasterizer.style_keys@;
            let want = spec_run_style(*run, pixels_per_point);
            assert(style_eq(styles[id as int], want));
            assert(styles_unique(styles)) by {
                assert forall|i: int, j: int| 0 <= i < j < styles.len() implies !style_eq(
                    #[trigger] styles[i],
                    #[trigger] styles[j],
                ) by {}
            };
            lemma_style_index_of(styles, want, id as int);
        }
        id
    }

    /// Stores one rasterization result: an empty or missing bitmap is
    /// cached as "renders nothing", anything else is packed into the
    /// atlas and cached under the key.
    pub fn insert_glyph(&mut self, key: &GlyphKey, raster: Option<RasterBitmap>) -> (r: Option<
        CachedGlyph,
    >)
        requires
            old(self).wf(),
            key.wf(),
            raster matches Some(b) ==> b.wf() && b.width <= old(self).atlas.spec_width()
                && b.height <= old(self).atlas.spec_max_texture_side(),
        ensures
            final(self).wf(),
            final(self).style_headroom() == old(self).style_headroom(),
            final(self).layout_cache == old(self).layout_cache,
            final(self).glyph_rasterizer.spec_cache() == old(
                self,
            ).glyph_rasterizer.spec_cache().insert((key.spec_pack()) as u128, r),
            r is None <==> (raster is None || raster.unwrap().spec_is_empty()),
    {
        let r = self.glyph_rasterizer.insert_rasterized(key, raster, &mut self.atlas);
        proof {
            let newk = (key.spec_pack()) as u128;
            assert forall|k: u128| #[trigger]
                self.glyph_rasterizer.spec_cache().contains_key(
                    k,
                ) implies match self.glyph_rasterizer.spec_cache()[k] {
                Some(g) => self.atlas.regions@.contains(g.uv) && -4096 <= g.baseline_offset.x
                    <= 4096 && -4096 <= g.baseline_offset.y <= 4096,
                None => true,
            } by {
                if k != newk {
                    assert(old(self).glyph_rasterizer.spec_cache().contains_key(k));
                    match old(self).glyph_rasterizer.spec_cache()[k] {
                        Some(g) => {
                            let w = choose|i: int|
                                0 <= i < old(self).atlas.regions@.len() && old(
                                    self,
                                ).atlas.regions@[i] == g.uv;
                            assert(self.atlas.regions@[w] == g.uv);
                        },
                        None => {},
                    }
                } else {
                    match r {
                        Some(g) => {
                            let last = self.atlas.regions@.len() - 1;
                            assert(self.atlas.regions@[last] == g.uv);
                        },
                        None => {},
                    }
                }
            }
        }
        r
    }

    /// The cached result for a glyph key, if any.
    pub fn glyph_lookup(&self, key: &GlyphKey) -> (r: Option<Option<CachedGlyph>>)
        requires
            key.wf(),
        ensures
            r == (if self.glyph_rasterizer.spec_cache().contains_key((key.spec_pack()) as u128) {
                Some(self.glyph_rasterizer.spec_cache()[(key.spec_pack()) as u128])
            } else {
                None::<Option<CachedGlyph>>
            }),
    {
        self.glyph_rasterizer.lookup(key)
    }

    /// The cache key and whole-pixel position of one shaped glyph of a
    /// run, after the alignment offset, at the given scale.
    pub fn glyph_key_at(
        &self,
        glyph: &ShapedGlyph,
        style_id: StyleId,
        offset_x: i64,
        pixels_per_point: i64,
    ) -> (r: (GlyphKey, crate::dpi::PhysicalPoint))
        requires
            -GLYPH_COORD_LIMIT <= glyph.x <= GLYPH_COORD_LIMIT,
            -GLYPH_COORD_LIMIT <= glyph.y <= GLYPH_COORD_LIMIT,
            -GLYPH_COORD_LIMIT <= offset_x <= 0,
            render_scale_ok(pixels_per_point),
        ensures
            r.0.wf(),
            r.0 == spec_glyph_key(*glyph, style_id, offset_x, pixels_per_point),
            r.1 == spec_glyph_pos(*glyph, offset_x, pixels_per_point),
            -0x40000 <= r.1.x <= 0x40000,
            -0x40000 <= r.1.y <= 0x40000,
    {
        proof {
            lemma_scaled_coord_ok(
                (glyph.x + offset_x) as i64,
                pixels_per_point,
                0x2000_0000,
            );
            lemma_scaled_coord_ok(glyph.y, pixels_per_point, GLYPH_COORD_LIMIT);
        }
        let gx = glyph.x + offset_x;
        let sx = logical_to_physical(gx, pixels_per_point);
        let sy = logical_to_physical(glyph.y, pixels_per_point);
        proof {
            crate::math::lemma_div_range(sx as int + 8192, 65536, -0x40000, 0x40000);
            crate::math::lemma_div_range(sy as int + 32768, 65536, -0x40000, 0x40000);
        }
        let (key, pos) = GlyphKey::from_position(
            glyph.glyph_id,
            style_id,
            sx,
            sy,
            pixels_per_point,
        );
        proof {
            assert(key.x_bin == spec_glyph_key(*glyph, style_id, offset_x, pixels_per_point).x_bin);
            assert(key == spec_glyph_key(*glyph, style_id, offset_x, pixels_per_point));
            assert(pos == spec_glyph_pos(*glyph, offset_x, pixels_per_point));
        }
        (key, pos)
    }

    /// The glyphs of a shaped text that are not yet in the glyph cache:
    /// each must be rasterized with the returned style properties, at the
    /// returned subpixel offset, and handed back through `insert_glyph`
    /// before `commit_layout` can place it. The atlas, the glyph cache
    /// and the layout cache are not touched; only styles may be interned.
    pub fn glyph_requests(
        &mut self,
        job: &LayoutJob,
        pixels_per_point: i64,
        shaped: &ShapedText,
    ) -> (requests: Vec<RasterRequest>)
        requires
            old(self).wf(),
            old(self).style_headroom(),
            shaped.wf(),
            render_scale_ok(pixels_per_point),
        ensures
            final(self).wf(),
            final(self).atlas == old(self).atlas,
            final(self).layout_cache == old(self).layout_cache,
            final(self).glyph_rasterizer.spec_cache() == old(self).glyph_rasterizer.spec_cache(),
            forall|i: int|
                0 <= i < requests@.len() ==> ((#[trigger] requests@[i]).key.wf() && !final(self).glyph_rasterizer.spec_cache().contains_key(
                    (requests@[i].key.spec_pack()) as u128,
                )),
            lines_glyphs_covered(
                final(self).glyph_rasterizer.spec_cache(),
                requests@,
                final(self).glyph_rasterizer.style_keys@,
                shaped.lines@,
                (spec_alignment_offset(job.alignment, shaped.full_width)) as i64,
                pixels_per_point,
                shaped.lines@.len() as int,
            ),
            forall|i: int|
                0 <= i < old(self).glyph_rasterizer.style_keys@.len() ==> old(self).glyph_rasterizer.style_keys@[i] == #[trigger] final(self).glyph_rasterizer.style_keys@[i],
    {
        let offset_x = alignment_offset(job, shaped.full_width);
        let mut requests: Vec<RasterRequest> = Vec::new();
        let mut l: usize = 0;
        while l < shaped.lines.len()
            invariant
                old(self).wf(),
                shaped.wf(),
                render_scale_ok(pixels_per_point),
                -GLYPH_COORD_LIMIT <= offset_x <= 0,
                offset_x == spec_alignment_offset(job.alignment, shaped.full_width),
                l <= shaped.lines@.len(),
                self.wf(),
                self.atlas == old(self).atlas,
                self.layout_cache == old(self).layout_cache,
                self.glyph_rasterizer.spec_cache() == old(self).glyph_rasterizer.spec_cache(),
                self.glyph_rasterizer.style_keys@.len() <= old(
                    self,
                ).glyph_rasterizer.style_keys@.len() + l * 256,
                old(self).glyph_rasterizer.style_keys@.len() < 0xF000_0000,
                old(self).glyph_rasterizer.style_keys@.len()
                    <= self.glyph_rasterizer.style_keys@.len(),
                forall|i: int|
                    0 <= i < old(self).glyph_rasterizer.style_keys@.len() ==> old(self).glyph_rasterizer.style_keys@[i] == #[trigger] self.glyph_rasterizer.style_keys@[i],
                forall|i: int|
                    0 <= i < requests@.len() ==> ((#[trigger] requests@[i]).key.wf()
                        && !self.glyph_rasterizer.spec_cache().contains_key(
                        (requests@[i].key.spec_pack()) as u128,
                    )),
                lines_styles_interned(
                    self.glyph_rasterizer.style_keys@,
                    shaped.lines@,
                    pixels_per_point,
                    l as int,
                ),
                lines_glyphs_covered(
                    old(self).glyph_rasterizer.spec_cache(),
                    requests@,
                    self.glyph_rasterizer.style_keys@,
                    shaped.lines@,
                    offset_x,
                    pixels_per_point,
                    l as int,
                ),
            decreases shaped.lines@.len() - l,
        {
            let line = &shaped.lines[l];
            let mut r: usize = 0;
            while r < line.runs.len()
                invariant
                    old(self).wf(),
                    shaped.wf(),
                    render_scale_ok(pixels_per_point),
                    -GLYPH_COORD_LIMIT <= offset_x <= 0,
                    offset_x == spec_alignment_offset(job.alignment, shaped.full_width),
                    l < shaped.lines@.len(),
                    line == &shaped.lines@[l as int],
                    r <= line.runs@.len(),
                    self.wf(),
                    self.atlas == old(self).atlas,
                    self.layout_cache == old(self).layout_cache,
                    self.glyph_rasterizer.spec_cache() == old(self).glyph_rasterizer.spec_cache(),
                    self.glyph_rasterizer.style_keys@.len() <= old(
                        self,
                    ).glyph_rasterizer.style_keys@.len() + l * 256 + r,
                    old(self).glyph_rasterizer.style_keys@.len() < 0xF000_0000,
                    old(self).glyph_rasterizer.style_keys@.len()
                        <= self.glyph_rasterizer.style_keys@.len(),
                    forall|i: int|
                        0 <= i < old(self).glyph_rasterizer.style_keys@.len() ==> old(self).glyph_rasterizer.style_keys@[i] == #[trigger] self.glyph_rasterizer.style_keys@[i],
                    forall|i: int|
                        0 <= i < requests@.len() ==> ((#[trigger] requests@[i]).key.wf()
                            && !self.glyph_rasterizer.spec_cache().contains_key(
                            (requests@[i].key.spec_pack()) as u128,
                        )),
                    lines_styles_interned(
                        self.glyph_rasterizer.style_keys@,
                        shaped.lines@,
                        pixels_per_point,
                        l as int,
                    ),
                    lines_glyphs_covered(
                        old(self).glyph_rasterizer.spec_cache(),
                        requests@,
                        self.glyph_rasterizer.style_keys@,
                        shaped.lines@,
                        offset_x,
                        pixels_per_point,
                        l as int,
                    ),
                    line_styles_interned(
                        self.glyph_rasterizer.style_keys@,
                        shaped.lines@[l as int],
                        pixels_per_point,
                        r as int,
                    ),
                    line_glyphs_covered(
                        old(self).glyph_rasterizer.spec_cache(),
                        requests@,
                        self.glyph_rasterizer.style_keys@,
                        shaped.lines@[l as int],
                        offset_x,
                        pixels_per_point,
                        r as int,
                    ),
                decreases line.runs@.len() - r,
            {
                let run = &line.runs[r];
                let ghost styles_pre = self.glyph_rasterizer.style_keys@;
                let style_id = self.run_style_id(run, pixels_per_point);
                proof {
                    let styles_now = self.glyph_rasterizer.style_keys@;
                    let cache = old(self).glyph_rasterizer.spec_cache();
                    assert(styles_unique(styles_now)) by {
                        assert forall|a: int, b: int|
                            0 <= a < b < styles_now.len() implies !style_eq(
                            #[trigger] styles_now[a],
                            #[trigger] styles_now[b],
                        ) by {}
                    };
                    lemma_lines_covered_grow(
                        cache,
                        requests@,
                        requests@,
                        styles_pre,
                        styles_now,
                        shaped.lines@,
                        offset_x,
                        pixels_per_point,
                        l as int,
                    );
                    lemma_line_covered_grow(
                        cache,
                        requests@,
                        requests@,
                        styles_pre,
                        styles_now,
                        shaped.lines@[l as int],
                        offset_x,
                        pixels_per_point,
                        r as int,
                    );
                    lemma_lines_styles_interned_grow(
                        styles_pre,
                        styles_now,
                        shaped.lines@,
                        pixels_per_point,
                        l as int,
                    );
                    lemma_line_styles_interned_grow(
                        styles_pre,
                        styles_now,
                        shaped.lines@[l as int],
                        pixels_per_point,
                        r as int,
                    );
                    assert forall|i: int|
                        0 <= i < old(self).glyph_rasterizer.style_keys@.len() implies old(self).glyph_rasterizer.style_keys@[i] == #[trigger] self.glyph_rasterizer.style_keys@[i] by {
                        assert(old(self).glyph_rasterizer.style_keys@[i] == styles_pre[i]);
                        assert(styles_pre[i] == styles_now[i]);
                    }
                }
                let mut g: usize = 0;
                while g < run.glyphs.len()
                    invariant
                        old(self).wf(),
                        shaped.wf(),
                        render_scale_ok(pixels_per_point),
                        -GLYPH_COORD_LIMIT <= offset_x <= 0,
                        offset_x == spec_alignment_offset(job.alignment, shaped.full_width),
                        l < shaped.lines@.len(),
                        line == &shaped.lines@[l as int],
                        r < line.runs@.len(),
                        run == &line.runs@[r as int],
                        g <= run.glyphs@.len(),
                        self.wf(),
                        self.atlas == old(self).atlas,
                        self.layout_cache == old(self).layout_cache,
                        self.glyph_rasterizer.spec_cache() == old(
                            self,
                        ).glyph_rasterizer.spec_cache(),
                        self.glyph_rasterizer.style_keys@.len() <= old(
                            self,
                        ).glyph_rasterizer.style_keys@.len() + l * 256 + r + 1,
                        old(self).glyph_rasterizer.style_keys@.len() < 0xF000_0000,
                        old(self).glyph_rasterizer.style_keys@.len()
                            <= self.glyph_rasterizer.style_keys@.len(),
                        forall|i: int|
                            0 <= i < old(self).glyph_rasterizer.style_keys@.len() ==> old(self).glyph_rasterizer.style_keys@[i] == #[trigger] self.glyph_rasterizer.style_keys@[i],
                        forall|i: int|
                            0 <= i < requests@.len() ==> ((#[trigger] requests@[i]).key.wf()
                                && !self.glyph_rasterizer.spec_cache().contains_key(
                                (requests@[i].key.spec_pack()) as u128,
                            )),
                        lines_styles_interned(
                            self.glyph_rasterizer.style_keys@,
                            shaped.lines@,
                            pixels_per_point,
                            l as int,
                        ),
                        lines_glyphs_covered(
                            old(self).glyph_rasterizer.spec_cache(),
                            requests@,
                            self.glyph_rasterizer.style_keys@,
                            shaped.lines@,
                            offset_x,
                            pixels_per_point,
                            l as int,
                        ),
                        line_styles_interned(
                            self.glyph_rasterizer.style_keys@,
                            shaped.lines@[l as int],
                            pixels_per_point,
                            r as int,
                        ),
                        line_glyphs_covered(
                            old(self).glyph_rasterizer.spec_cache(),
                            requests@,
                            self.glyph_rasterizer.style_keys@,
                            shaped.lines@[l as int],
                            offset_x,
                            pixels_per_point,
                            r as int,
                        ),
                        style_interned(
                            self.glyph_rasterizer.style_keys@,
                            spec_run_style(line.runs@[r as int], pixels_per_point),
                        ),
                        (style_id as int) == spec_style_index(
                            self.glyph_rasterizer.style_keys@,
                            spec_run_style(line.runs@[r as int], pixels_per_point),
                        ),
                        run_glyphs_covered(
                            old(self).glyph_rasterizer.spec_cache(),
                            requests@,
                            self.glyph_rasterizer.style_keys@,
                            line.runs@[r as int],
                            offset_x,
                            pixels_per_point,
                            g as int,
                        ),
                    decreases run.glyphs@.len() - g,
                {
                    let glyph = &run.glyphs[g];
                    let (key, _pos) = self.glyph_key_at(glyph, style_id, offset_x, pixels_per_point);
                    if self.glyph_rasterizer.lookup(&key).is_none() {
                        proof {
                            lemma_scaled_coord_ok(
                                run.font_size,
                                pixels_per_point,
                                GLYPH_COORD_LIMIT,
                            );
                        }
                        let font_size = logical_to_physical(run.font_size, pixels_per_point);
                        let frac_offset_x = key.x_bin.fractional_offset();
                        let request = RasterRequest {
                            key,
                            font_blob_id: run.font_blob_id,
                            font_size,
                            normalized_coords: copy_i16s(&run.normalized_coords),
                            skew: run.skew,
                            frac_offset_x,
                        };
                        let ghost reqs_pre = requests@;
                        requests.push(request);
                        proof {
                            let cache = old(self).glyph_rasterizer.spec_cache();
                            let styles = self.glyph_rasterizer.style_keys@;
                            lemma_lines_covered_grow(
                                cache,
                                reqs_pre,
                                requests@,
                                styles,
                                styles,
                                shaped.lines@,
                                offset_x,
                                pixels_per_point,
                                l as int,
                            );
                            lemma_line_covered_grow(
                                cache,
                                reqs_pre,
                                requests@,
                                styles,
                                styles,
                                shaped.lines@[l as int],
                                offset_x,
                                pixels_per_point,
                                r as int,
                            );
                            lemma_run_covered_grow(
                                cache,
                                reqs_pre,
                                requests@,
                                styles,
                                styles,
                                line.runs@[r as int],
                                offset_x,
                                pixels_per_point,
                                g as int,
                            );
                            assert(spec_request_for(
                                requests@[requests@.len() - 1],
                                line.runs@[r as int],
                                spec_glyph_key(
                                    line.runs@[r as int].glyphs@[g as int],
                                    style_id,
                                    offset_x,
                                    pixels_per_point,
                                ),
                                pixels_per_point,
                            ));
                        }
                    }
                    g += 1;
                }
                proof {
                    assert(line_glyphs_covered(
                        old(self).glyph_rasterizer.spec_cache(),
                        requests@,
                        self.glyph_rasterizer.style_keys@,
                        shaped.lines@[l as int],
                        offset_x,
                        pixels_per_point,
                        r + 1,
                    ));
                }
                r += 1;
            }
            l += 1;
        }
        requests
    }

    /// Builds the layout for a shaped text and caches it under the job's
    /// hash, marked as used this frame: rows of glyphs placed at their
    /// binned positions, each resolved against the glyph cache. Glyphs
    /// cached as "renders nothing" are skipped, as is any glyph the
    /// caller did not rasterize. Every placed glyph samples a region the
    /// atlas handed out since its last clear.
    #[verifier::rlimit(100)]
    pub fn commit_layout(
        &mut self,
        job: &LayoutJob,
        pixels_per_point: i64,
        shaped: &ShapedText,
    ) -> (r: Arc<Layout>)
        requires
            old(self).wf(),
            old(self).style_headroom(),
            shaped.wf(),
            render_scale_ok(pixels_per_point),
        ensures
            final(self).wf(),
            final(self).atlas == old(self).atlas,
            final(self).glyph_rasterizer.spec_cache() == old(self).glyph_rasterizer.spec_cache(),
            r.wf(),
            r.job_hash == spec_job_hash(*job, pixels_per_point),
            r.width == shaped.full_width,
            contains_hash(final(self).layout_cache.entries@, spec_job_hash(*job, pixels_per_point)),
            exists|i: int|
                0 <= i < final(self).layout_cache.entries@.len() && (#[trigger] final(self).layout_cache.entries@[i]).hash == spec_job_hash(*job, pixels_per_point)
                    && final(self).layout_cache.entries@[i].layout == r,
            forall|h2: u64|
                h2 != spec_job_hash(*job, pixels_per_point) ==> #[trigger] contains_hash(
                    final(self).layout_cache.entries@,
                    h2,
                ) == contains_hash(old(self).layout_cache.entries@, h2),
            forall|ri: int, gi: int|
                0 <= ri < r.rows@.len() && 0 <= gi < r.rows@[ri].glyphs@.len() ==> final(self).atlas.regions@.contains((#[trigger] r.rows@[ri].glyphs@[gi]).uv),
            rows_model(r.rows@) == spec_commit_rows(
                old(self).glyph_rasterizer.spec_cache(),
                final(self).glyph_rasterizer.style_keys@,
                shaped.lines@,
                (spec_alignment_offset(job.alignment, shaped.full_width)) as i64,
                pixels_per_point,
                shaped.lines@.len() as int,
            ),
            forall|i: int|
                0 <= i < old(self).glyph_rasterizer.style_keys@.len() ==> old(self).glyph_rasterizer.style_keys@[i] == #[trigger] final(self).glyph_rasterizer.style_keys@[i],
    {
        let h = job_hash(job, pixels_per_point);
        let offset_x = alignment_offset(job, shaped.full_width);
        let mut rows: Vec<LayoutRow> = Vec::new();
        let mut glyph_total: u64 = 0;
        let mut l: usize = 0;
        while l < shaped.lines.len()
            invariant
                old(self).wf(),
                shaped.wf(),
                render_scale_ok(pixels_per_point),
                -GLYPH_COORD_LIMIT <= offset_x <= 0,
                l <= shaped.lines@.len(),
                self.wf(),
                self.atlas == old(self).atlas,
                self.layout_cache == old(self).layout_cache,
                self.glyph_rasterizer.spec_cache() == old(self).glyph_rasterizer.spec_cache(),
                self.glyph_rasterizer.style_keys@.len() <= old(
                    self,
                ).glyph_rasterizer.style_keys@.len() + l * 256,
                old(self).glyph_rasterizer.style_keys@.len() < 0xF000_0000,
                glyph_total == crate::fonts::layout::rows_glyph_count(
                    rows@,
                    rows@.len() as int,
                ),
                glyph_total <= 0x40000 * rows@.len(),
                rows@.len() <= l,
                forall|ri: int, gi: int|
                    0 <= ri < rows@.len() && 0 <= gi < rows@[ri].glyphs@.len()
                        ==> self.atlas.regions@.contains((#[trigger] rows@[ri].glyphs@[gi]).uv),
                offset_x == spec_alignment_offset(job.alignment, shaped.full_width),
                old(self).glyph_rasterizer.style_keys@.len()
                    <= self.glyph_rasterizer.style_keys@.len(),
                forall|i: int|
                    0 <= i < old(self).glyph_rasterizer.style_keys@.len() ==> old(self).glyph_rasterizer.style_keys@[i] == #[trigger] self.glyph_rasterizer.style_keys@[i],
                lines_styles_interned(
                    self.glyph_rasterizer.style_keys@,
                    shaped.lines@,
                    pixels_per_point,
                    l as int,
                ),
                rows_model(rows@) == spec_commit_rows(
                    old(self).glyph_rasterizer.spec_cache(),
                    self.glyph_rasterizer.style_keys@,
                    shaped.lines@,
                    offset_x,
                    pixels_per_point,
                    l as int,
                ),
            decreases shaped.lines@.len() - l,
        {
            let line = &shaped.lines[l];
            let mut row_glyphs: Vec<RasterizedGlyph> = Vec::new();
            let mut r: usize = 0;
            while r < line.runs.len()
                invariant
                    old(self).wf(),
                    shaped.wf(),
                    render_scale_ok(pixels_per_point),
                    -GLYPH_COORD_LIMIT <= offset_x <= 0,
                    l < shaped.lines@.len(),
                    line == &shaped.lines@[l as int],
                    r <= line.runs@.len(),
                    self.wf(),
                    self.atlas == old(self).atlas,
                    self.layout_cache == old(self).layout_cache,
                    self.glyph_rasterizer.spec_cache() == old(self).glyph_rasterizer.spec_cache(),
                    self.glyph_rasterizer.style_keys@.len() <= old(
                        self,
                    ).glyph_rasterizer.style_keys@.len() + l * 256 + r,
                    old(self).glyph_rasterizer.style_keys@.len() < 0xF000_0000,
                    row_glyphs@.len() <= r * 1024,
                    forall|gi: int|
                        0 <= gi < row_glyphs@.len() ==> self.atlas.regions@.contains(
                            (#[trigger] row_glyphs@[gi]).uv,
                        ),
                    offset_x == spec_alignment_offset(job.alignment, shaped.full_width),
                    old(self).glyph_rasterizer.style_keys@.len()
                        <= self.glyph_rasterizer.style_keys@.len(),
                    forall|i: int|
                        0 <= i < old(self).glyph_rasterizer.style_keys@.len() ==> old(self).glyph_rasterizer.style_keys@[i] == #[trigger] self.glyph_rasterizer.style_keys@[i],
                    lines_styles_interned(
                        self.glyph_rasterizer.style_keys@,
                        shaped.lines@,
                        pixels_per_point,
                        l as int,
                    ),
                    rows_model(rows@) == spec_commit_rows(
                        old(self).glyph_rasterizer.spec_cache(),
                        self.glyph_rasterizer.style_keys@,
                        shaped.lines@,
                        offset_x,
                        pixels_per_point,
                        l as int,
                    ),
                    line_styles_interned(
                        self.glyph_rasterizer.style_keys@,
                        shaped.lines@[l as int],
                        pixels_per_point,
                        r as int,
                    ),
                    row_glyphs@ == spec_line_placements(
                        old(self).glyph_rasterizer.spec_cache(),
                        self.glyph_rasterizer.style_keys@,
                        shaped.lines@[l as int],
                        offset_x,
                        pixels_per_point,
                        r as int,
                    ),
                decreases line.runs@.len() - r,
            {
                let run = &line.runs[r];
                let ghost styles_pre = self.glyph_rasterizer.style_keys@;
                let style_id = self.run_style_id(run, pixels_per_point);
                proof {
                    let styles_now = self.glyph_rasterizer.style_keys@;
                    let cache = old(self).glyph_rasterizer.spec_cache();
                    assert(styles_unique(styles_now)) by {
                        assert forall|a: int, b: int|
                            0 <= a < b < styles_now.len() implies !style_eq(
                            #[trigger] styles_now[a],
                            #[trigger] styles_now[b],
                        ) by {}
                    };
                    lemma_commit_rows_stable(
                        cache,
                        styles_pre,
                        styles_now,
                        shaped.lines@,
                        offset_x,
                        pixels_per_point,
                        l as int,
                    );
                    lemma_line_placements_stable(
                        cache,
                        styles_pre,
                        styles_now,
                        shaped.lines@[l as int],
                        offset_x,
                        pixels_per_point,
                        r as int,
                    );
                    lemma_lines_styles_interned_grow(
                        styles_pre,
                        styles_now,
                        shaped.lines@,
                        pixels_per_point,
                        l as int,
                    );
                    lemma_line_styles_interned_grow(
                        styles_pre,
                        styles_now,
                        shaped.lines@[l as int],
                        pixels_per_point,
                        r as int,
                    );
                    assert forall|i: int|
                        0 <= i < old(self).glyph_rasterizer.style_keys@.len() implies old(self).glyph_rasterizer.style_keys@[i] == #[trigger] self.glyph_rasterizer.style_keys@[i] by {
                        assert(old(self).glyph_rasterizer.style_keys@[i] == styles_pre[i]);
                        assert(styles_pre[i] == styles_now[i]);
                    }
                }
                let mut g: usize = 0;
                while g < run.glyphs.len()
                    invariant
                        old(self).wf(),
                        shaped.wf(),
                        render_scale_ok(pixels_per_point),
                        -GLYPH_COORD_LIMIT <= offset_x <= 0,
                        l < shaped.lines@.len(),
                        line == &shaped.lines@[l as int],
                        r < line.runs@.len(),
                        run == &line.runs@[r as int],
                        g <= run.glyphs@.len(),
                        self.wf(),
                        self.atlas == old(self).atlas,
                        self.layout_cache == old(self).layout_cache,
                        self.glyph_rasterizer.spec_cache() == old(
                            self,
                        ).glyph_rasterizer.spec_cache(),
                        self.glyph_rasterizer.style_keys@.len() <= old(
                            self,
                        ).glyph_rasterizer.style_keys@.len() + l * 256 + r + 1,
                        old(self).glyph_rasterizer.style_keys@.len() < 0xF000_0000,
                        row_glyphs@.len() <= r * 1024 + g,
                        forall|gi: int|
                            0 <= gi < row_glyphs@.len() ==> self.atlas.regions@.contains(
                                (#[trigger] row_glyphs@[gi]).uv,
                            ),
                        offset_x == spec_alignment_offset(job.alignment, shaped.full_width),
                        old(self).glyph_rasterizer.style_keys@.len()
                            <= self.glyph_rasterizer.style_keys@.len(),
                        forall|i: int|
                            0 <= i < old(self).glyph_rasterizer.style_keys@.len() ==> old(self).glyph_rasterizer.style_keys@[i] == #[trigger] self.glyph_rasterizer.style_keys@[i],
                        lines_styles_interned(
                            self.glyph_rasterizer.style_keys@,
                            shaped.lines@,
                            pixels_per_point,
                            l as int,
                        ),
                        rows_model(rows@) == spec_commit_rows(
                            old(self).glyph_rasterizer.spec_cache(),
                            self.glyph_rasterizer.style_keys@,
                            shaped.lines@,
                            offset_x,
                            pixels_per_point,
                            l as int,
                        ),
                        line_styles_interned(
                            self.glyph_rasterizer.style_keys@,
                            shaped.lines@[l as int],
                            pixels_per_point,
                            r as int,
                        ),
                        style_interned(
                            self.glyph_rasterizer.style_keys@,
                            spec_run_style(line.runs@[r as int], pixels_per_point),
                        ),
                        (style_id as int) == spec_style_index(
                            self.glyph_rasterizer.style_keys@,
                            spec_run_style(line.runs@[r as int], pixels_per_point),
                        ),
                        row_glyphs@ == spec_line_placements(
                            old(self).glyph_rasterizer.spec_cache(),
                            self.glyph_rasterizer.style_keys@,
                            shaped.lines@[l as int],
                            offset_x,
                            pixels_per_point,
                            r as int,
                        ) + spec_run_placements(
                            old(self).glyph_rasterizer.spec_cache(),
                            line.runs@[r as int],
                            style_id,
                            offset_x,
                            pixels_per_point,
                            g as int,
                        ),
                    decreases run.glyphs@.len() - g,
                {
                    let glyph = &run.glyphs[g];
                    let (key, pos) = self.glyph_key_at(glyph, style_id, offset_x, pixels_per_point);
                    let ghost cache = old(self).glyph_rasterizer.spec_cache();
                    let ghost packed = (key.spec_pack()) as u128;
                    match self.glyph_rasterizer.lookup(&key) {
                        Some(Some(cached)) => {
                            let placed = place_glyph(
                                &self.atlas,
                                &cached,
                                pos,
                                run.color,
                                pixels_per_point,
                            );
                            row_glyphs.push(placed);
                            proof {
                                assert(cache.contains_key(packed) && cache[packed] is Some);
                                assert(cache[packed].unwrap() == cached);
                                assert(spec_run_placements(
                                    cache,
                                    line.runs@[r as int],
                                    style_id,
                                    offset_x,
                                    pixels_per_point,
                                    g + 1,
                                ) =~= spec_run_placements(
                                    cache,
                                    line.runs@[r as int],
                                    style_id,
                                    offset_x,
                                    pixels_per_point,
                                    g as int,
                                ) + seq![placed]);
                            }
                        },
                        _ => {
                            proof {
                                assert(spec_run_placements(
                                    cache,
                                    line.runs@[r as int],
                                    style_id,
                                    offset_x,
                                    pixels_per_point,
                                    g + 1,
                                ) == spec_run_placements(
                                    cache,
                                    line.runs@[r as int],
                                    style_id,
                                    offset_x,
                                    pixels_per_point,
                                    g as int,
                                ));
                            }
                        },
                    }
                    g += 1;
                }
                proof {
                    let cache = old(self).glyph_rasterizer.spec_cache();
                    let styles = self.glyph_rasterizer.style_keys@;
                    assert(row_glyphs@ =~= spec_line_placements(
                        cache,
                        styles,
                        shaped.lines@[l as int],
                        offset_x,
                        pixels_per_point,
                        r + 1,
                    ));
                }
                r += 1;
            }
            let ghost spec_row = spec_line_placements(
                old(self).glyph_rasterizer.spec_cache(),
                self.glyph_rasterizer.style_keys@,
                shaped.lines@[l as int],
                offset_x,
                pixels_per_point,
                shaped.lines@[l as int].runs@.len() as int,
            );
            if row_glyphs.len() > 0 {
                proof {
                    assert(row_glyphs@.len() <= 0x40000) by (nonlinear_arith)
                        requires
                            row_glyphs@.len() <= line.runs@.len() * 1024,
                            line.runs@.len() <= 256,
                    ;
                }
                let row_len = row_glyphs.len() as u64;
                let ghost rg = row_glyphs@;
                let row = LayoutRow { glyphs: row_glyphs };
                let ghost prev_rows = rows@;
                rows.push(row);
                glyph_total = glyph_total + row_len;
                proof {
                    crate::fonts::layout::lemma_rows_glyph_count_prefix(
                        rows@,
                        prev_rows,
                        prev_rows.len() as int,
                    );
                    assert(rows_model(rows@) =~= rows_model(prev_rows) + seq![rg]);
                    assert(spec_commit_rows(
                        old(self).glyph_rasterizer.spec_cache(),
                        self.glyph_rasterizer.style_keys@,
                        shaped.lines@,
                        offset_x,
                        pixels_per_point,
                        l + 1,
                    ) =~= rows_model(prev_rows) + seq![spec_row]);
                }
            } else {
                proof {
                    assert(spec_row.len() == 0);
                    assert(spec_commit_rows(
                        old(self).glyph_rasterizer.spec_cache(),
                        self.glyph_rasterizer.style_keys@,
                        shaped.lines@,
                        offset_x,
                        pixels_per_point,
                        l + 1,
                    ) == spec_commit_rows(
                        old(self).glyph_rasterizer.spec_cache(),
                        self.glyph_rasterizer.style_keys@,
                        shaped.lines@,
                        offset_x,
                        pixels_per_point,
                        l as int,
                    ));
                }
            }
            l += 1;
        }
        proof {
            assert(glyph_total <= 0x40000 * 1024) by (nonlinear_arith)
                requires
                    glyph_total <= 0x40000 * rows@.len(),
                    rows@.len() <= 1024,
            ;
        }
        let num_of_vertices = (4 * glyph_total) as usize;
        let num_of_indices = (6 * glyph_total) as usize;
        let layout = Layout {
            job_hash: h,
            rows,
            width: shaped.full_width,
            num_of_vertices,
            num_of_indices,
        };
        let shared = Arc::new(layout);
        let copy = arc_clone(&shared);
        self.layout_cache.insert(h, copy);
        proof {
            let w = choose|i: int|
                0 <= i < self.layout_cache.entries@.len() && (
                #[trigger] self.layout_cache.entries@[i]).hash == h
                    && self.layout_cache.entries@[i].layout == copy
                    && self.layout_cache.entries@[i].generation
                    == self.layout_cache.current_generation;
            assert(self.layout_cache.entries@[w].layout == shared);
        }
        shared
    }

}

/// Computes the horizontal alignment offset for a layout job over a text
/// of the given full width.
pub fn alignment_offset(job: &LayoutJob, full_width: i64) -> (r: i64)
    requires
        0 <= full_width <= GLYPH_COORD_LIMIT,
    ensures
        r == spec_alignment_offset(job.alignment, full_width),
        -GLYPH_COORD_LIMIT <= r <= 0,
{
    match &job.alignment {
        Some(crate::fonts::layout::Alignment::Center) => -(((full_width as u64) / 2) as i64),
        Some(crate::fonts::layout::Alignment::Max) => -full_width,
        _ => 0,
    }
}

/// Places one cached glyph at a whole-pixel position: the glyph's quad in
/// fixed-point logical pixels, its atlas region and its run color.
fn place_glyph(
    atlas: &FontAtlas,
    cached: &CachedGlyph,
    pos: crate::dpi::PhysicalPoint,
    color: Srgba,
    pixels_per_point: i64,
) -> (r: RasterizedGlyph)
    requires
        atlas.wf(),
        atlas.regions@.contains(cached.uv),
        -0x40000 <= pos.x <= 0x40000,
        -0x40000 <= pos.y <= 0x40000,
        -4096 <= cached.baseline_offset.x <= 4096,
        -4096 <= cached.baseline_offset.y <= 4096,
        render_scale_ok(pixels_per_point),
    ensures
        r == spec_place_glyph(*cached, pos, color, pixels_per_point),
        r.uv == cached.uv,
        r.color == color,
{
    proof {
        let w = choose|i: int|
            0 <= i < atlas.regions@.len() && atlas.regions@[i] == cached.uv;
        assert(atlas.region_in_bitmap(atlas.regions@[w]));
    }
    let glyph_w = cached.uv.max.x - cached.uv.min.x;
    let glyph_h = cached.uv.max.y - cached.uv.min.y;
    let min_x_phys = (pos.x + cached.baseline_offset.x) * PX_ONE;
    let min_y_phys = (pos.y + cached.baseline_offset.y) * PX_ONE;
    let max_x_phys = (pos.x + cached.baseline_offset.x + glyph_w) * PX_ONE;
    let max_y_phys = (pos.y + cached.baseline_offset.y + glyph_h) * PX_ONE;
    proof {
        lemma_unscaled_coord_ok(min_x_phys, pixels_per_point, 0x5_0000_0000);
        lemma_unscaled_coord_ok(min_y_phys, pixels_per_point, 0x5_0000_0000);
        lemma_unscaled_coord_ok(max_x_phys, pixels_per_point, 0x5_0000_0000);
        lemma_unscaled_coord_ok(max_y_phys, pixels_per_point, 0x5_0000_0000);
    }
    let rect = Rect::new(
        Point::new(
            physical_to_logical(min_x_phys, pixels_per_point),
            physical_to_logical(min_y_phys, pixels_per_point),
        ),
        Point::new(
            physical_to_logical(max_x_phys, pixels_per_point),
            physical_to_logical(max_y_phys, pixels_per_point),
        ),
    );
    let placed = RasterizedGlyph { rect, uv: cached.uv, color };
    proof {
        assert(placed.rect == spec_place_glyph(*cached, pos, color, pixels_per_point).rect);
        assert(placed == spec_place_glyph(*cached, pos, color, pixels_per_point));
    }
    placed
}

/// An element-wise copy of an `i16` vector.
fn copy_i16s(a: &Vec<i16>) -> (r: Vec<i16>)
    ensures
        r@ == a@,
{
    let mut r: Vec<i16> = Vec::new();
    let mut i: usize = 0;
    while i < a.len()
        invariant
            i <= a@.len(),
            r@ == a@.take(i as int),
        decreases a@.len() - i,
    {
        let v = a[i];
        r.push(v);
        proof {
            assert(a@.take(i + 1) =~= a@.take(i as int) + seq![a@[i as int]]);
        }
        i += 1;
    }
    proof {
        assert(a@.take(a@.len() as int) =~= a@);
    }
    r
}

} // verus!
