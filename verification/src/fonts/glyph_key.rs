use crate::dpi::{PhysicalPoint, scale_ok, scaled_coord_ok};
use crate::math::{PX_ONE, Point, coord_ok};
use vstd::prelude::*;

verus! {

/// Style ids are handed out by the glyph cache's style interner.
pub type StyleId = u32;

/// The whole-pixel part of a binned position: the position shifted by half
/// a bin width, rounded down to a pixel.
pub open spec fn spec_bin_position(position: i64, n: int) -> int {
    (position as int + PX_ONE as int / (2 * n)) / (PX_ONE as int)
}

/// The bin of the fractional part of a binned position: the fraction
/// scaled by the bin count and rounded to the nearest bin, wrapping the
/// topmost half-bin to bin zero.
pub open spec fn spec_bin_index(position: i64, n: int) -> int {
    (((position as int % (PX_ONE as int)) * n + PX_ONE as int / 2) / (PX_ONE as int)) % n
}

/// Grouping of fractional offsets into discrete bins for cache reuse.
/// Bins have width `1/NUM_OF_BINS` of a pixel and are centered around
/// `i/NUM_OF_BINS`.
#[derive(Clone, Copy, Debug, Eq, PartialEq, Hash)]
pub struct SubpixelBin<const NUM_OF_BINS: usize>(pub usize);

impl<const NUM_OF_BINS: usize> SubpixelBin<NUM_OF_BINS> {
    /// Splits a fixed-point position into a whole-pixel position and the
    /// subpixel bin of its fractional part.
    pub fn new(position: i64) -> (r: (i32, Self))
        requires
            coord_ok(position),
            1 <= NUM_OF_BINS <= 64,
        ensures
            r.0 == spec_bin_position(position, NUM_OF_BINS as int),
            r.1.0 == spec_bin_index(position, NUM_OF_BINS as int),
            r.1.0 < NUM_OF_BINS,
    {
        let n = NUM_OF_BINS as u64;
        let half_bin_width = ((PX_ONE as u64) / (2 * n)) as i64;
        let new_position = match (position + half_bin_width).checked_div_euclid(PX_ONE) {
            Some(q) => q,
            None => 0,  // unreachable: the divisor is a positive constant
        };
        let frac = match position.checked_rem_euclid(PX_ONE) {
            Some(m) => m,
            None => 0,  // unreachable: the divisor is a positive constant
        };
        proof {
            vstd::arithmetic::div_mod::lemma_mod_division_less_than_divisor(
                position as int,
                PX_ONE as int,
            );
        }
        proof {
            assert((frac as int) * (n as int) <= 65535 * 64) by (nonlinear_arith)
                requires
                    0 <= frac < 65536,
                    0 <= n <= 64,
            ;
        }
        let scaled = ((frac as u64) * n + (PX_ONE as u64) / 2) / (PX_ONE as u64);
        let bin = scaled % n;
        (new_position as i32, SubpixelBin(bin as usize))
    }

    /// The representative fractional offset of this bin, in fixed-point
    /// pixel units: `bin / NUM_OF_BINS` of a pixel.
    pub fn fractional_offset(&self) -> (r: i64)
        requires
            1 <= NUM_OF_BINS <= 64,
            self.0 < NUM_OF_BINS,
        ensures
            r == (self.0 * PX_ONE as int) / (NUM_OF_BINS as int),
            0 <= r < PX_ONE,
    {
        let r = ((self.0 as i64) * PX_ONE) / (NUM_OF_BINS as i64);
        proof {
            vstd::arithmetic::div_mod::lemma_div_pos_is_pos(
                self.0 as int * PX_ONE as int,
                NUM_OF_BINS as int,
            );
            assert((self.0 as int * PX_ONE as int) < (NUM_OF_BINS as int) * (PX_ONE as int)) by (
            nonlinear_arith)
                requires
                    self.0 < NUM_OF_BINS,
            ;
            vstd::arithmetic::div_mod::lemma_multiply_divide_lt(
                self.0 as int * PX_ONE as int,
                NUM_OF_BINS as int,
                PX_ONE as int,
            );
        }
        r
    }
}

/// Number of horizontal subpixel bins used for glyph caching.
pub const GLYPH_X_BINS: usize = 4;

/// Identifies one rasterized glyph bitmap at one fractional offset: glyph
/// and interned style, the horizontal subpixel bin, and the pixel scale.
/// The vertical position is rounded, not binned.
#[derive(Clone, Copy, Debug, Eq, PartialEq, Hash)]
pub struct GlyphKey {
    pub glyph_id: u16,
    pub style_id: StyleId,
    pub x_bin: SubpixelBin<GLYPH_X_BINS>,
    pub pixels_per_point: i64,
}

impl GlyphKey {
    pub open spec fn wf(self) -> bool {
        self.x_bin.0 < GLYPH_X_BINS && scale_ok(self.pixels_per_point)
    }

    /// The packed form under which this key is cached. Distinct
    /// well-formed keys pack to distinct values.
    pub open spec fn spec_pack(self) -> int {
        (self.glyph_id as u128) + (self.style_id as u128) * 0x1_0000 + (self.x_bin.0 as u128)
            * 0x1_0000_0000_0000 + (self.pixels_per_point as u128) * 0x100_0000_0000_0000
    }

    /// Builds the cache key and the whole-pixel position for a glyph at a
    /// scaled position: x is binned, y is rounded to the nearest pixel.
    pub fn from_position(
        glyph_id: u16,
        style_id: StyleId,
        x: i64,
        y: i64,
        pixels_per_point: i64,
    ) -> (r: (GlyphKey, PhysicalPoint))
        requires
            coord_ok(x),
            coord_ok(y),
            scale_ok(pixels_per_point),
        ensures
            r.0.wf(),
            r.0.glyph_id == glyph_id,
            r.0.style_id == style_id,
            r.0.pixels_per_point == pixels_per_point,
            r.0.x_bin.0 == spec_bin_index(x, GLYPH_X_BINS as int),
            r.1.x == spec_bin_position(x, GLYPH_X_BINS as int),
            r.1.y == (y + PX_ONE as int / 2) / (PX_ONE as int),
    {
        let (px, x_bin) = SubpixelBin::<GLYPH_X_BINS>::new(x);
        let py = match (y + PX_ONE / 2).checked_div_euclid(PX_ONE) {
            Some(q) => q,
            None => 0,  // unreachable: the divisor is a positive constant
        };
        let key = GlyphKey { glyph_id, style_id, x_bin, pixels_per_point };
        (key, Point::new(px as i64, py))
    }

    /// Packs the key into a cache index.
    pub fn pack(&self) -> (r: u128)
        requires
            self.wf(),
        ensures
            r as int == self.spec_pack(),
    {
        (self.glyph_id as u128) + (self.style_id as u128) * 0x1_0000 + (self.x_bin.0 as u128)
            * 0x1_0000_0000_0000 + (self.pixels_per_point as u128) * 0x100_0000_0000_0000
    }
}

/// Packing is injective on well-formed keys: the cache never conflates
/// two different glyphs, styles, bins or scales.
pub proof fn lemma_glyph_key_pack_injective(a: GlyphKey, b: GlyphKey)
    requires
        a.wf(),
        b.wf(),
        a.spec_pack() == b.spec_pack(),
    ensures
        a == b,
{
    assert(a.glyph_id == b.glyph_id && a.style_id == b.style_id && a.x_bin.0 == b.x_bin.0
        && a.pixels_per_point == b.pixels_per_point) by (nonlinear_arith)
        requires
            a.spec_pack() == b.spec_pack(),
            a.x_bin.0 < 4,
            b.x_bin.0 < 4,
            1 <= a.pixels_per_point <= 1024 * PX_ONE,
            1 <= b.pixels_per_point <= 1024 * PX_ONE,
    ;
    assert(a.x_bin == b.x_bin);
}

} // verus!
