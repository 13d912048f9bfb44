use crate::color::Srgba;
use crate::math::{Point, Rect, Size};
use vstd::prelude::*;

verus! {

/// Coordinates in texels of the font atlas bitmap.
pub struct FontAtlasSpace;

pub type FontAtlasPoint = Point<FontAtlasSpace>;

pub type FontAtlasSize = Size<FontAtlasSpace>;

pub type FontAtlasRect = Rect<FontAtlasSpace>;

/// Gap in texels kept between allocated regions.
pub const ATLAS_PADDING: i64 = 1;

/// Height of a freshly created atlas bitmap, grown on demand.
pub const ATLAS_INITIAL_HEIGHT: i64 = 256;

/// A bitmap height doubled until `required` rows fit.
pub open spec fn spec_grown_height(h: int, required: int) -> int
    decreases 2 * required - h,
{
    if h < 1 {
        required
    } else if h >= required {
        h
    } else {
        spec_grown_height(2 * h, required)
    }
}

/// Two regions share no texel.
pub open spec fn regions_disjoint(a: FontAtlasRect, b: FontAtlasRect) -> bool {
    a.max.x <= b.min.x || b.max.x <= a.min.x || a.max.y <= b.min.y || b.max.y <= a.min.y
}

/// No two regions of the sequence share a texel.
pub open spec fn regions_pairwise_disjoint(rs: Seq<FontAtlasRect>) -> bool {
    forall|i: int, j: int|
        0 <= i < j < rs.len() ==> regions_disjoint(#[trigger] rs[i], #[trigger] rs[j])
}

/// The byte of channel `k` of the texel at `(x, y)` in a row-major RGBA
/// bitmap of width `w`.
pub open spec fn pixel_byte(bytes: Seq<u8>, w: int, x: int, y: int, k: int) -> u8 {
    bytes[4 * (y * w + x) + k]
}

proof fn lemma_pixel_index_bounds(w: int, h: int, x: int, y: int)
    requires
        0 <= x < w,
        0 <= y < h,
    ensures
        0 <= 4 * (y * w + x),
        4 * (y * w + x) + 3 < 4 * w * h,
{
    assert(0 <= y * w + x && 4 * (y * w + x) + 3 < 4 * w * h) by (nonlinear_arith)
        requires
            0 <= x < w,
            0 <= y < h,
    ;
}

proof fn lemma_pixel_index_injective(w: int, x1: int, y1: int, x2: int, y2: int)
    requires
        0 <= x1 < w,
        0 <= x2 < w,
        0 <= y1,
        0 <= y2,
        x1 != x2 || y1 != y2,
    ensures
        y1 * w + x1 != y2 * w + x2,
{
    assert(y1 * w + x1 != y2 * w + x2) by (nonlinear_arith)
        requires
            0 <= x1 < w,
            0 <= x2 < w,
            0 <= y1,
            0 <= y2,
            x1 != x2 || y1 != y2,
    ;
}

/// One growable RGBA bitmap that hands out rectangular sub-regions for
/// glyph bitmaps, packing them row by row. A 1x1 white texel is reserved
/// at the origin for solid-color fills. When a row no longer fits below
/// the maximum texture side, the atlas restarts an interior row and marks
/// itself overflowed; the caller is expected to clear and rebuild it
/// before the next frame.
pub struct FontAtlas {
    pub max_texture_side: i64,
    pub width: i64,
    pub height: i64,
    pub bytes: Vec<u8>,
    pub cursor: FontAtlasPoint,
    pub current_row_height: i64,
    pub dirty: bool,
    pub overflowed: bool,
    /// All regions handed out since the last clear.
    pub regions: Ghost<Seq<FontAtlasRect>>,
}

impl FontAtlas {
    /// A region lies inside the bitmap.
    pub open spec fn region_in_bitmap(self, r: FontAtlasRect) -> bool {
        0 <= r.min.x <= r.max.x <= self.width && 0 <= r.min.y <= r.max.y <= self.height
    }

    /// Every region handed out so far, while the atlas has not
    /// overflowed, lies either in a finished row above the write cursor
    /// or to the left of the cursor in the current row.
    pub open spec fn frontier_ok(self) -> bool {
        forall|i: int|
            0 <= i < self.regions@.len() ==> ((#[trigger] self.regions@[i]).max.y
                <= self.cursor.y || (self.regions@[i].max.x <= self.cursor.x
                && self.regions@[i].max.y <= self.cursor.y + self.current_row_height))
    }

    pub open spec fn wf(self) -> bool {
        &&& 256 <= self.max_texture_side <= 4096
        &&& self.width == self.max_texture_side
        &&& ATLAS_INITIAL_HEIGHT <= self.height <= 8 * self.max_texture_side
        &&& self.bytes@.len() == 4 * self.width * self.height
        &&& 0 <= self.cursor.x <= self.width + ATLAS_PADDING
        &&& 0 <= self.cursor.y <= self.height
        &&& 0 <= self.current_row_height
        &&& self.cursor.y + self.current_row_height <= self.height
        &&& forall|i: int|
            0 <= i < self.regions@.len() ==> self.region_in_bitmap(#[trigger] self.regions@[i])
        &&& (!self.overflowed ==> regions_pairwise_disjoint(self.regions@) && self.frontier_ok())
    }

    pub open spec fn spec_width(self) -> i64 {
        self.width
    }

    pub open spec fn spec_height(self) -> i64 {
        self.height
    }

    pub open spec fn spec_max_texture_side(self) -> i64 {
        self.max_texture_side
    }

    pub open spec fn spec_overflowed(self) -> bool {
        self.overflowed
    }

    pub open spec fn spec_dirty(self) -> bool {
        self.dirty
    }

    pub open spec fn spec_bytes(self) -> Seq<u8> {
        self.bytes@
    }

    /// The atlas should be cleared before more allocations: it has
    /// overflowed, or over nine tenths of the maximum height is used.
    pub open spec fn spec_needs_clear(self) -> bool {
        self.overflowed || 10 * (self.cursor.y + self.current_row_height) > 9
            * self.max_texture_side
    }

    /// The cursor and row height after wrapping to a new row if the
    /// request does not fit the remaining row width.
    pub open spec fn spec_wrapped_cursor(self, size: FontAtlasSize) -> (int, int, int) {
        if self.cursor.x + size.width > self.width {
            (0, self.cursor.y + self.current_row_height + ATLAS_PADDING, size.height as int)
        } else {
            (
                self.cursor.x as int,
                self.cursor.y as int,
                if size.height > self.current_row_height {
                    size.height as int
                } else {
                    self.current_row_height as int
                },
            )
        }
    }

    /// Whether this request overflows the atlas: the row, extended by the
    /// request, would no longer fit under the maximum texture side.
    pub open spec fn spec_alloc_overflows(self, size: FontAtlasSize) -> bool {
        let (cx, cy, rh) = self.spec_wrapped_cursor(size);
        cy + rh > self.max_texture_side
    }

    /// Where the requested region is placed: at the (possibly wrapped)
    /// cursor, or at the interior fallback row on overflow.
    pub open spec fn spec_alloc_origin(self, size: FontAtlasSize) -> (int, int) {
        let (cx, cy, rh) = self.spec_wrapped_cursor(size);
        if cy + rh > self.max_texture_side {
            (0, self.height as int / 3)
        } else {
            (cx, cy)
        }
    }

    /// The bitmap height after this request: unchanged when the
    /// (possibly wrapped, possibly overflow-relocated) row still fits,
    /// otherwise doubled until it does.
    pub open spec fn spec_alloc_height(self, size: FontAtlasSize) -> int {
        let (cx, cy, rh) = self.spec_wrapped_cursor(size);
        let needed = if cy + rh > self.max_texture_side {
            self.height as int / 3 + size.height
        } else {
            cy + rh
        };
        if needed <= self.height {
            self.height as int
        } else {
            spec_grown_height(self.height as int, needed)
        }
    }

    /// Every texel is transparent except the reserved opaque-white
    /// texel at the origin.
    pub open spec fn spec_fresh_bitmap(self) -> bool {
        forall|x: int, y: int, k: int|
            0 <= x < self.width && 0 <= y < self.height && 0 <= k < 4 ==> #[trigger] pixel_byte(
                self.bytes@,
                self.width as int,
                x,
                y,
                k,
            ) == (if x == 0 && y == 0 {
                255u8
            } else {
                0u8
            })
    }

    /// A fresh atlas: full-width bitmap of the initial height, cleared to
    /// transparent, with the white texel reserved at the origin and the
    /// write cursor just past it. (The upper bound on the side is a
    /// machine limit: it keeps every byte index of the bitmap within the
    /// verifier's address range.)
    pub fn new(max_texture_side: i64) -> (atlas: FontAtlas)
        requires
            256 <= max_texture_side <= 4096,
        ensures
            atlas.wf(),
            !atlas.spec_overflowed(),
            !atlas.spec_needs_clear(),
            atlas.spec_dirty(),
            atlas.spec_width() == max_texture_side,
            atlas.spec_max_texture_side() == max_texture_side,
            atlas.spec_height() == ATLAS_INITIAL_HEIGHT,
            atlas.spec_fresh_bitmap(),
            atlas.cursor.x == 1 + ATLAS_PADDING && atlas.cursor.y == 0,
            atlas.current_row_height == 1,
            atlas.regions@.len() == 1,
            atlas.regions@[0].min.x == 0 && atlas.regions@[0].min.y == 0,
            atlas.regions@[0].max.x == 1 && atlas.regions@[0].max.y == 1,
    {
        let width = max_texture_side;
        let bytes = zeroed_bytes(width, ATLAS_INITIAL_HEIGHT);
        let mut atlas = FontAtlas {
            max_texture_side,
            width,
            height: ATLAS_INITIAL_HEIGHT,
            bytes,
            cursor: Point::zero(),
            current_row_height: 0,
            dirty: false,
            overflowed: false,
            regions: Ghost(Seq::empty()),
        };
        atlas.initialize();
        atlas
    }

    /// Reserves the white texel at the origin that solid-color fills
    /// sample.
    fn initialize(&mut self)
        requires
            old(self).wf(),
            !old(self).spec_overflowed(),
            old(self).cursor.x == 0,
            old(self).cursor.y == 0,
            old(self).current_row_height == 0,
            old(self).regions@.len() == 0,
            forall|i: int| 0 <= i < old(self).bytes@.len() ==> old(self).bytes@[i] == 0u8,
        ensures
            final(self).wf(),
            !final(self).spec_overflowed(),
            final(self).spec_dirty(),
            final(self).spec_width() == old(self).spec_width(),
            final(self).spec_max_texture_side() == old(self).spec_max_texture_side(),
            final(self).spec_height() == old(self).spec_height(),
            final(self).spec_fresh_bitmap(),
            final(self).cursor.x == 1 + ATLAS_PADDING && final(self).cursor.y == 0,
            final(self).current_row_height == 1,
            final(self).regions@.len() == 1,
            final(self).regions@[0].min.x == 0 && final(self).regions@[0].min.y == 0,
            final(self).regions@[0].max.x == 1 && final(self).regions@[0].max.y == 1,
    {
        let sz = Size::new(1, 1);
        let region = self.allocate(sz);
        proof {
            assert(!old(self).spec_alloc_overflows(sz));
            assert(old(self).spec_alloc_height(sz) == old(self).height as int);
            assert(self.bytes@ == old(self).bytes@);
        }
        let ghost mid = *self;
        let white: Vec<u8> = alpha_row(255);
        self.write_mask(region, &white);
        proof {
            assert forall|x: int, y: int, k: int|
                0 <= x < self.width && 0 <= y < self.height && 0 <= k < 4 implies #[trigger] pixel_byte(
                self.bytes@,
                self.width as int,
                x,
                y,
                k,
            ) == (if x == 0 && y == 0 {
                255u8
            } else {
                0u8
            }) by {
                if x == 0 && y == 0 {
                    assert(region.spec_contains(x, y));
                } else {
                    assert(!region.spec_contains(x, y));
                    assert(pixel_byte(self.bytes@, self.width as int, x, y, k) == pixel_byte(
                        mid.bytes@,
                        mid.width as int,
                        x,
                        y,
                        k,
                    ));
                    lemma_pixel_index_bounds(self.width as int, self.height as int, x, y);
                    assert(mid.bytes@[4 * (y * self.width + x) + k] == 0u8);
                }
            }
        }
    }

    /// Returns an unused region of the requested size, placed at
    /// `spec_alloc_origin`. Never fails: when the packing no longer fits
    /// under the maximum texture side, the atlas is marked overflowed and
    /// an interior row is sacrificed instead. As long as the atlas has
    /// not overflowed, the returned region is disjoint from every region
    /// handed out since the last clear.
    pub fn allocate(&mut self, size: FontAtlasSize) -> (region: FontAtlasRect)
        requires
            old(self).wf(),
            1 <= size.width <= old(self).spec_width(),
            1 <= size.height <= old(self).spec_max_texture_side(),
        ensures
            final(self).wf(),
            final(self).regions@ == old(self).regions@.push(region),
            region.min.x == old(self).spec_alloc_origin(size).0,
            region.min.y == old(self).spec_alloc_origin(size).1,
            region.max.x - region.min.x == size.width,
            region.max.y - region.min.y == size.height,
            final(self).region_in_bitmap(region),
            final(self).spec_dirty(),
            final(self).spec_width() == old(self).spec_width(),
            final(self).spec_max_texture_side() == old(self).spec_max_texture_side(),
            final(self).spec_height() >= old(self).spec_height(),
            final(self).spec_height() == old(self).spec_alloc_height(size),
            final(self).cursor.x == old(self).spec_alloc_origin(size).0 + size.width
                + ATLAS_PADDING,
            final(self).cursor.y == old(self).spec_alloc_origin(size).1,
            final(self).current_row_height == (if old(self).spec_alloc_overflows(size) {
                size.height as int
            } else {
                old(self).spec_wrapped_cursor(size).2
            }),
            final(self).spec_bytes().subrange(0, old(self).spec_bytes().len() as int) == old(
                self,
            ).spec_bytes(),
            final(self).spec_height() == old(self).spec_height() ==> final(self).spec_bytes()
                == old(self).spec_bytes(),
            final(self).spec_overflowed() == (old(self).spec_overflowed() || old(
                self,
            ).spec_alloc_overflows(size)),
            !final(self).spec_overflowed() ==> forall|i: int|
                0 <= i < old(self).regions@.len() ==> regions_disjoint(
                    #[trigger] old(self).regions@[i],
                    region,
                ),
    {
        if self.cursor.x + size.width > self.width {
            self.cursor = Point::new(0, self.cursor.y + self.current_row_height + ATLAS_PADDING);
            self.current_row_height = 0;
        }
        if size.height > self.current_row_height {
            self.current_row_height = size.height;
        }

        let required_atlas_height = self.cursor.y + self.current_row_height;
        if required_atlas_height > self.max_texture_side {
            // Restart an interior row, sacrificing old glyphs; a full
            // clear and rebuild follows before the next frame.
            let fallback_y = ((self.height as u64) / 3) as i64;
            self.cursor = Point::new(0, fallback_y);
            self.current_row_height = size.height;
            self.overflowed = true;
            if self.cursor.y + self.current_row_height > self.height {
                let needed = self.cursor.y + self.current_row_height;
                self.grow_height(needed);
            }
        } else if required_atlas_height > self.height {
            self.grow_height(required_atlas_height);
        }

        let pos = self.cursor;
        self.cursor = Point::new(self.cursor.x + size.width + ATLAS_PADDING, self.cursor.y);
        self.dirty = true;

        let region = Rect::from_origin_and_size(pos, size);
        proof {
            self.regions@ = self.regions@.push(region);
        }
        region
    }

    /// Doubles the bitmap height until `required` rows fit, keeping the
    /// existing content and filling new rows with transparent texels.
    fn grow_height(&mut self, required: i64)
        requires
            256 <= old(self).max_texture_side <= 4096,
            old(self).width == old(self).max_texture_side,
            ATLAS_INITIAL_HEIGHT <= old(self).height <= 8 * old(self).max_texture_side,
            old(self).bytes@.len() == 4 * old(self).width * old(self).height,
            old(self).height < required <= 4 * old(self).max_texture_side,
        ensures
            required <= final(self).height <= 8 * final(self).max_texture_side,
            final(self).height == spec_grown_height(old(self).height as int, required as int),
            final(self).bytes@.len() == 4 * final(self).width * final(self).height,
            final(self).bytes@.subrange(0, old(self).bytes@.len() as int) == old(self).bytes@,
            *final(self) == (FontAtlas {
                height: final(self).height,
                bytes: final(self).bytes,
                ..*old(self)
            }),
    {
        let mut new_height = self.height;
        while new_height < required
            invariant
                ATLAS_INITIAL_HEIGHT <= new_height <= 8 * old(self).max_texture_side,
                new_height < required ==> new_height < 4 * old(self).max_texture_side,
                new_height >= old(self).height,
                required <= 4 * old(self).max_texture_side,
                256 <= old(self).max_texture_side <= 4096,
                spec_grown_height(new_height as int, required as int) == spec_grown_height(
                    old(self).height as int,
                    required as int,
                ),
            decreases 8 * old(self).max_texture_side - new_height,
        {
            new_height = new_height * 2;
        }
        let extended = extend_image_height(
            &self.bytes,
            self.width,
            self.height,
            new_height,
            Srgba::transparent(),
        );
        self.bytes = extended;
        self.height = new_height;
    }

    /// Fills a region with opaque white texels whose alpha channel comes
    /// from `alpha`, row-major. Texels outside the region keep their
    /// bytes.
    pub fn write_mask(&mut self, region: FontAtlasRect, alpha: &Vec<u8>)
        requires
            old(self).wf(),
            old(self).region_in_bitmap(region),
            alpha@.len() == (region.max.x - region.min.x) * (region.max.y - region.min.y),
        ensures
            final(self).wf(),
            *final(self) == (FontAtlas { bytes: final(self).bytes, dirty: true, ..*old(self) }),
            final(self).spec_bytes().len() == old(self).spec_bytes().len(),
            forall|x: int, y: int, k: int|
                0 <= x < final(self).spec_width() && 0 <= y < final(self).spec_height() && 0 <= k
                    < 4 && !region.spec_contains(x, y) ==> pixel_byte(
                    final(self).spec_bytes(),
                    final(self).spec_width() as int,
                    x,
                    y,
                    k,
                ) == pixel_byte(old(self).spec_bytes(), old(self).spec_width() as int, x, y, k),
            forall|x: int, y: int|
                #![trigger region.spec_contains(x, y)]
                region.spec_contains(x, y) ==> {
                    let w = final(self).spec_width() as int;
                    let b = final(self).spec_bytes();
                    pixel_byte(b, w, x, y, 0) == 255 && pixel_byte(b, w, x, y, 1) == 255
                        && pixel_byte(b, w, x, y, 2) == 255 && pixel_byte(b, w, x, y, 3)
                        == alpha@[(y - region.min.y) * (region.max.x - region.min.x) + (x
                        - region.min.x)]
                },
    {
        let rw = region.max.x - region.min.x;
        let ghost w = self.width as int;
        let ghost orig = self.bytes@;
        let mut y = region.min.y;
        while y < region.max.y
            invariant
                old(self).wf(),
                old(self).region_in_bitmap(region),
                alpha@.len() == (region.max.x - region.min.x) * (region.max.y - region.min.y),
                rw == region.max.x - region.min.x,
                w == old(self).spec_width() as int,
                orig == old(self).spec_bytes(),
                region.min.y <= y <= region.max.y,
                *self == (FontAtlas { bytes: self.bytes, ..*old(self) }),
                self.bytes@.len() == orig.len(),
                forall|x2: int, y2: int, k2: int|
                    0 <= x2 < w && 0 <= y2 < old(self).spec_height() && 0 <= k2 < 4 && !(
                    region.spec_contains(x2, y2) && y2 < y) ==> pixel_byte(
                        self.bytes@,
                        w,
                        x2,
                        y2,
                        k2,
                    ) == pixel_byte(orig, w, x2, y2, k2),
                forall|x2: int, y2: int|
                    #![trigger region.spec_contains(x2, y2)]
                    region.spec_contains(x2, y2) && y2 < y ==> pixel_byte(self.bytes@, w, x2, y2, 0)
                        == 255 && pixel_byte(self.bytes@, w, x2, y2, 1) == 255 && pixel_byte(
                        self.bytes@,
                        w,
                        x2,
                        y2,
                        2,
                    ) == 255 && pixel_byte(self.bytes@, w, x2, y2, 3) == alpha@[(y2 - region.min.y)
                        * rw + (x2 - region.min.x)],
            decreases region.max.y - y,
        {
            let mut x = region.min.x;
            while x < region.max.x
                invariant
                    old(self).wf(),
                    old(self).region_in_bitmap(region),
                    alpha@.len() == (region.max.x - region.min.x) * (region.max.y - region.min.y),
                    rw == region.max.x - region.min.x,
                    w == old(self).spec_width() as int,
                    orig == old(self).spec_bytes(),
                    region.min.y <= y < region.max.y,
                    region.min.x <= x <= region.max.x,
                    *self == (FontAtlas { bytes: self.bytes, ..*old(self) }),
                    self.bytes@.len() == orig.len(),
                    forall|x2: int, y2: int, k2: int|
                        0 <= x2 < w && 0 <= y2 < old(self).spec_height() && 0 <= k2 < 4 && !(
                        region.spec_contains(x2, y2) && (y2 < y || (y2 == y && x2 < x))) ==>
                            pixel_byte(self.bytes@, w, x2, y2, k2) == pixel_byte(
                            orig,
                            w,
                            x2,
                            y2,
                            k2,
                        ),
                    forall|x2: int, y2: int|
                        #![trigger region.spec_contains(x2, y2)]
                        region.spec_contains(x2, y2) && (y2 < y || (y2 == y && x2 < x)) ==>
                            pixel_byte(self.bytes@, w, x2, y2, 0) == 255 && pixel_byte(
                            self.bytes@,
                            w,
                            x2,
                            y2,
                            1,
                        ) == 255 && pixel_byte(self.bytes@, w, x2, y2, 2) == 255 && pixel_byte(
                            self.bytes@,
                            w,
                            x2,
                            y2,
                            3,
                        ) == alpha@[(y2 - region.min.y) * rw + (x2 - region.min.x)],
                decreases region.max.x - x,
            {
                proof {
                    lemma_pixel_index_bounds(
                        w,
                        old(self).spec_height() as int,
                        x as int,
                        y as int,
                    );
                    assert(0 <= (y - region.min.y) * (rw as int) + (x - region.min.x)
                        < alpha@.len()) by (nonlinear_arith)
                        requires
                            region.min.x <= x < region.max.x,
                            region.min.y <= y < region.max.y,
                            rw == region.max.x - region.min.x,
                            alpha@.len() == (region.max.x - region.min.x) * (region.max.y
                                - region.min.y),
                    ;
                    let ghost hh = old(self).spec_height() as int;
                    assert((y as int) * w + (x as int) <= 4096 * 32768 && 4 * (w * hh) <= 4 * 4096
                        * 32768 && 4 * w * hh == 4 * (w * hh)) by (nonlinear_arith)
                        requires
                            0 <= x < w,
                            0 <= (y as int) < hh,
                            w <= 4096,
                            hh <= 32768,
                    ;
                    assert(self.bytes@.len() <= 536870912);
                    assert(0 <= (y - region.min.y) * (rw as int)) by (nonlinear_arith)
                        requires
                            region.min.y <= y,
                            0 <= rw,
                    ;
                    assert((y - region.min.y) * (rw as int) + (x - region.min.x) <= 32768 * 4096)
                        by (nonlinear_arith)
                        requires
                            region.min.y <= y < region.max.y,
                            region.min.x <= x < region.max.x,
                            rw == region.max.x - region.min.x,
                            0 <= region.min.x,
                            region.max.x <= 4096,
                            0 <= region.min.y,
                            region.max.y <= 32768,
                    ;
                }
                let a = alpha[((y - region.min.y) * rw + (x - region.min.x)) as usize];
                let base = (4 * (y * self.width + x)) as usize;
                let ghost before = self.bytes@;
                self.bytes.set(base, 255);
                self.bytes.set(base + 1, 255);
                self.bytes.set(base + 2, 255);
                self.bytes.set(base + 3, a);
                proof {
                    assert forall|x2: int, y2: int, k2: int|
                        0 <= x2 < w && 0 <= y2 < old(self).spec_height() && 0 <= k2 < 4 && !(x2 == x
                            && y2 == y) implies pixel_byte(self.bytes@, w, x2, y2, k2)
                        == pixel_byte(before, w, x2, y2, k2) by {
                        lemma_pixel_index_injective(w, x2, y2, x as int, y as int);
                        lemma_pixel_index_bounds(w, old(self).spec_height() as int, x2, y2);
                    }
                }
                x = x + 1;
            }
            y = y + 1;
        }
        self.dirty = true;
    }

    /// Hands out the bitmap and clears the dirty flag; `Some` exactly
    /// when the bitmap changed since the previous call.
    pub fn take_delta(&mut self) -> (delta: Option<AtlasDelta>)
        requires
            old(self).wf(),
        ensures
            final(self).wf(),
            *final(self) == (FontAtlas { dirty: false, ..*old(self) }),
            delta is Some <==> old(self).spec_dirty(),
            delta matches Some(d) ==> d.width == old(self).spec_width() && d.height == old(
                self,
            ).spec_height() && d.bytes@ == old(self).spec_bytes(),
    {
        let dirty = self.dirty;
        self.dirty = false;
        if dirty {
            Some(AtlasDelta { width: self.width, height: self.height, bytes: self.bytes.clone() })
        } else {
            None
        }
    }

    /// The caller should clear the atlas (and the caches coupled to it)
    /// when this returns true: the atlas has overflowed, or more than
    /// nine tenths of the maximum height is in use.
    pub fn needs_clear(&self) -> (r: bool)
        requires
            self.wf(),
        ensures
            r == self.spec_needs_clear(),
    {
        self.overflowed || 10 * (self.cursor.y + self.current_row_height) > 9
            * self.max_texture_side
    }

    pub fn is_overflowed(&self) -> (r: bool)
        ensures
            r == self.spec_overflowed(),
    {
        self.overflowed
    }

    /// Resets the atlas to a fresh state: every texel transparent, every
    /// previously returned region forgotten, the white texel re-reserved
    /// at the origin. The atlas is left dirty so the cleared bitmap is
    /// re-uploaded.
    pub fn clear(&mut self)
        requires
            old(self).wf(),
        ensures
            final(self).wf(),
            !final(self).spec_overflowed(),
            final(self).spec_dirty(),
            final(self).spec_width() == old(self).spec_width(),
            final(self).spec_max_texture_side() == old(self).spec_max_texture_side(),
            final(self).spec_height() == old(self).spec_height(),
            final(self).spec_fresh_bitmap(),
            final(self).cursor.x == 1 + ATLAS_PADDING && final(self).cursor.y == 0,
            final(self).current_row_height == 1,
            !final(self).spec_needs_clear(),
            final(self).regions@.len() == 1,
            final(self).regions@[0].min.x == 0 && final(self).regions@[0].min.y == 0,
            final(self).regions@[0].max.x == 1 && final(self).regions@[0].max.y == 1,
    {
        self.bytes = zeroed_bytes(self.width, self.height);
        self.cursor = Point::zero();
        self.current_row_height = 0;
        self.dirty = false;
        self.overflowed = false;
        proof {
            self.regions@ = Seq::empty();
        }
        self.initialize();
    }

    /// Read access to the bitmap bytes, row-major RGBA.
    pub fn image(&self) -> (bytes: &Vec<u8>)
        ensures
            bytes@ == self.spec_bytes(),
    {
        &self.bytes
    }

    pub fn size(&self) -> (s: FontAtlasSize)
        ensures
            s.width == self.spec_width(),
            s.height == self.spec_height(),
    {
        Size::new(self.width, self.height)
    }
}

/// Every pair of regions an atlas has handed out since its last clear is
/// disjoint, as long as the atlas has not overflowed.
pub proof fn lemma_atlas_regions_disjoint(atlas: FontAtlas)
    requires
        atlas.wf(),
        !atlas.spec_overflowed(),
    ensures
        regions_pairwise_disjoint(atlas.regions@),
{
}

/// The bitmap plus a flag telling the upload path that it changed.
pub struct AtlasDelta {
    pub width: i64,
    pub height: i64,
    pub bytes: Vec<u8>,
}

/// A single-entry alpha row, used for the reserved white texel.
fn alpha_row(a: u8) -> (r: Vec<u8>)
    ensures
        r@ =~= seq![a],
{
    let mut v: Vec<u8> = Vec::new();
    v.push(a);
    v
}

/// A zero-filled RGBA byte buffer for a `width x height` bitmap.
fn zeroed_bytes(width: i64, height: i64) -> (r: Vec<u8>)
    requires
        1 <= width <= 4096,
        1 <= height <= 32768,
    ensures
        r@.len() == 4 * width * height,
        forall|i: int| 0 <= i < r@.len() ==> r@[i] == 0u8,
{
    proof {
        assert(0 <= 4 * width as int * height as int <= 4 * 4096 * 32768) by (nonlinear_arith)
            requires
                1 <= width <= 4096,
                1 <= height <= 32768,
        ;
    }
    let total = (4 * width * height) as usize;
    let mut v: Vec<u8> = Vec::new();
    let mut i: usize = 0;
    while i < total
        invariant
            v@.len() == i,
            i <= total,
            forall|j: int| 0 <= j < i ==> v@[j] == 0u8,
        decreases total - i,
    {
        v.push(0);
        i += 1;
    }
    v
}

/// A copy of the bitmap with its height extended to `new_height`; the
/// old content is kept and the new rows are filled with `fill_color`.
pub fn extend_image_height(
    image: &Vec<u8>,
    width: i64,
    old_height: i64,
    new_height: i64,
    fill_color: Srgba,
) -> (r: Vec<u8>)
    requires
        1 <= width <= 4096,
        1 <= old_height <= new_height <= 32768,
        image@.len() == 4 * width * old_height,
    ensures
        r@.len() == 4 * width * new_height,
        r@.subrange(0, image@.len() as int) == image@,
{
    proof {
        assert(0 <= 4 * width as int * old_height as int <= 4 * width as int * new_height as int
            <= 4 * 4096 * 32768) by (nonlinear_arith)
            requires
                1 <= width <= 4096,
                1 <= old_height <= new_height <= 32768,
        ;
    }
    let old_len = image.len();
    let total = (4 * width * new_height) as usize;
    let mut v: Vec<u8> = Vec::new();
    let mut i: usize = 0;
    while i < old_len
        invariant
            v@.len() == i,
            i <= old_len,
            old_len == image@.len(),
            forall|j: int| 0 <= j < i ==> v@[j] == image@[j],
        decreases old_len - i,
    {
        let b = image[i];
        v.push(b);
        i += 1;
    }
    while i < total
        invariant
            v@.len() == i,
            old_len <= i <= total,
            old_len == image@.len(),
            forall|j: int| 0 <= j < old_len ==> v@[j] == image@[j],
        decreases total - i,
    {
        let channel = fill_color.0[i % 4];
        v.push(channel);
        i += 1;
    }
    assert(v@.subrange(0, image@.len() as int) =~= image@);
    v
}

} // verus!
