use crate::color::Srgba;
use crate::dpi::LogicalRect;
use crate::fonts::atlas::FontAtlasRect;
use crate::hashing::{i64_le_bytes, spec_fnv1a, u64_le_bytes, fnv1a, push_i64, push_u64};
use vstd::prelude::*;

verus! {

/// Horizontal placement of laid-out text relative to its anchor.
#[derive(Clone, Copy, Debug, PartialEq, Eq, Structural)]
pub enum Alignment {
    /// The anchor is the start of the text; nothing is shifted.
    Min,
    /// The text is centered on the anchor.
    Center,
    /// The text ends at the anchor.
    Max,
}

/// Whether a synthetic italic slant is applied.
#[derive(Clone, Copy, Debug, PartialEq, Eq, Structural)]
pub enum FontStyle {
    Normal,
    Italic,
}

/// The font family a layout job asks for.
#[derive(Clone, Debug, PartialEq, Eq)]
pub enum FontFamily {
    /// A family by name.
    Named(String),
    /// The generic monospace family.
    Monospace,
    /// The generic proportional family.
    SansSerif,
}

/// One colored slice of a layout job's text.
#[derive(Clone, Debug)]
pub struct LayoutSegment {
    pub text: String,
    pub color: Srgba,
}

/// A styled run description: ordered colored text segments plus the font
/// parameters they are laid out with. Sizes are fixed-point logical
/// pixels. Hashed as a unit; immutable once built.
pub struct LayoutJob {
    pub segments: Vec<LayoutSegment>,
    pub font_family: FontFamily,
    pub font_size: i64,
    pub line_height: i64,
    pub alignment: Option<Alignment>,
    pub font_weight: Option<i64>,
    pub font_style: FontStyle,
}

impl LayoutJob {
    pub fn new(
        font_family: FontFamily,
        font_size: i64,
        line_height: i64,
        alignment: Option<Alignment>,
        font_weight: Option<i64>,
        font_style: FontStyle,
    ) -> (job: LayoutJob)
        ensures
            job.segments@.len() == 0,
            job.font_family == font_family,
            job.font_size == font_size,
            job.line_height == line_height,
            job.alignment == alignment,
            job.font_weight == font_weight,
            job.font_style == font_style,
    {
        LayoutJob {
            segments: Vec::new(),
            font_family,
            font_size,
            line_height,
            alignment,
            font_weight,
            font_style,
        }
    }

    /// Adds one colored text segment to the job.
    pub fn append(&mut self, text: String, color: Srgba)
        ensures
            final(self).segments@ == old(self).segments@.push(
                LayoutSegment { text: text, color: color },
            ),
            final(self).font_family == old(self).font_family,
            final(self).font_size == old(self).font_size,
            final(self).line_height == old(self).line_height,
            final(self).alignment == old(self).alignment,
            final(self).font_weight == old(self).font_weight,
            final(self).font_style == old(self).font_style,
    {
        self.segments.push(LayoutSegment { text, color });
    }
}

/// The canonical encoding of one segment: text length, text bytes, color.
pub open spec fn encode_segment(seg: LayoutSegment) -> Seq<u8> {
    let text_bytes = vstd::utf8::encode_utf8(seg.text@);
    u64_le_bytes(text_bytes.len() as u64) + text_bytes + seq![
        seg.color.0[0],
        seg.color.0[1],
        seg.color.0[2],
        seg.color.0[3],
    ]
}

/// The canonical encoding of a sequence of segments.
pub open spec fn encode_segments(segs: Seq<LayoutSegment>) -> Seq<u8>
    decreases segs.len(),
{
    if segs.len() == 0 {
        Seq::empty()
    } else {
        encode_segments(segs.drop_last()) + encode_segment(segs.last())
    }
}

/// The canonical encoding of a font family.
pub open spec fn encode_family(family: FontFamily) -> Seq<u8> {
    match family {
        FontFamily::Named(name) => seq![0u8] + u64_le_bytes(
            vstd::utf8::encode_utf8(name@).len() as u64,
        ) + vstd::utf8::encode_utf8(name@),
        FontFamily::Monospace => seq![1u8],
        FontFamily::SansSerif => seq![2u8],
    }
}

/// The canonical encoding of a layout job and the scale it is laid out
/// at. Two equal (job, scale) pairs always encode to the same bytes, so
/// they hash alike and hit the same cache entry.
#[verifier::opaque]
pub open spec fn encode_job(job: LayoutJob, pixels_per_point: i64) -> Seq<u8> {
    u64_le_bytes(job.segments@.len() as u64) + encode_segments(job.segments@) + encode_family(
        job.font_family,
    ) + i64_le_bytes(job.font_size) + i64_le_bytes(job.line_height) + (match job.alignment {
        None => seq![0u8],
        Some(Alignment::Min) => seq![1u8],
        Some(Alignment::Center) => seq![2u8],
        Some(Alignment::Max) => seq![3u8],
    }) + (match job.font_weight {
        None => seq![0u8],
        Some(w) => seq![1u8] + i64_le_bytes(w),
    }) + (match job.font_style {
        FontStyle::Normal => seq![0u8],
        FontStyle::Italic => seq![1u8],
    }) + i64_le_bytes(pixels_per_point)
}

/// The cache hash of a layout job at a scale.
pub open spec fn spec_job_hash(job: LayoutJob, pixels_per_point: i64) -> u64 {
    spec_fnv1a(encode_job(job, pixels_per_point))
}

/// Computes the cache hash of a layout job at a scale.
#[verifier::rlimit(100)]
pub fn job_hash(job: &LayoutJob, pixels_per_point: i64) -> (r: u64)
    ensures
        r == spec_job_hash(*job, pixels_per_point),
{
    proof {
        reveal(encode_job);
    }
    let mut out: Vec<u8> = Vec::new();
    push_u64(&mut out, job.segments.len() as u64);
    let mut i: usize = 0;
    while i < job.segments.len()
        invariant
            i <= job.segments@.len(),
            out@ == u64_le_bytes(job.segments@.len() as u64) + encode_segments(
                job.segments@.take(i as int),
            ),
        decreases job.segments@.len() - i,
    {
        let seg = &job.segments[i];
        let text_bytes = seg.text.as_str().as_bytes_vec();
        push_u64(&mut out, text_bytes.len() as u64);
        let mut k: usize = 0;
        while k < text_bytes.len()
            invariant
                k <= text_bytes@.len(),
                out@ == u64_le_bytes(job.segments@.len() as u64) + encode_segments(
                    job.segments@.take(i as int),
                ) + u64_le_bytes(text_bytes@.len() as u64) + text_bytes@.take(k as int),
                i < job.segments@.len(),
                text_bytes@ == vstd::utf8::encode_utf8(job.segments@[i as int].text@),
            decreases text_bytes@.len() - k,
        {
            let b = text_bytes[k];
            out.push(b);
            proof {
                assert(text_bytes@.take(k + 1) =~= text_bytes@.take(k as int) + seq![
                    text_bytes@[k as int],
                ]);
            }
            k += 1;
        }
        out.push(seg.color.0[0]);
        out.push(seg.color.0[1]);
        out.push(seg.color.0[2]);
        out.push(seg.color.0[3]);
        proof {
            assert(text_bytes@.take(text_bytes@.len() as int) =~= text_bytes@);
            assert(job.segments@.take(i + 1).drop_last() =~= job.segments@.take(i as int));
            assert(job.segments@.take(i + 1).last() == job.segments@[i as int]);
            assert(out@ =~= u64_le_bytes(job.segments@.len() as u64) + encode_segments(
                job.segments@.take(i + 1),
            ));
        }
        i += 1;
    }
    proof {
        assert(job.segments@.take(job.segments@.len() as int) =~= job.segments@);
    }
    match &job.font_family {
        FontFamily::Named(name) => {
            out.push(0);
            let name_bytes = name.as_str().as_bytes_vec();
            push_u64(&mut out, name_bytes.len() as u64);
            let mut k: usize = 0;
            let ghost prefix = out@;
            while k < name_bytes.len()
                invariant
                    k <= name_bytes@.len(),
                    out@ == prefix + name_bytes@.take(k as int),
                decreases name_bytes@.len() - k,
            {
                let b = name_bytes[k];
                out.push(b);
                proof {
                    assert(name_bytes@.take(k + 1) =~= name_bytes@.take(k as int) + seq![
                        name_bytes@[k as int],
                    ]);
                }
                k += 1;
            }
            proof {
                assert(name_bytes@.take(name_bytes@.len() as int) =~= name_bytes@);
            }
        },
        FontFamily::Monospace => out.push(1),
        FontFamily::SansSerif => out.push(2),
    }
    push_i64(&mut out, job.font_size);
    push_i64(&mut out, job.line_height);
    match &job.alignment {
        None => out.push(0),
        Some(Alignment::Min) => out.push(1),
        Some(Alignment::Center) => out.push(2),
        Some(Alignment::Max) => out.push(3),
    }
    match &job.font_weight {
        None => out.push(0),
        Some(w) => {
            out.push(1);
            let wv = *w;
            push_i64(&mut out, wv);
        },
    }
    match &job.font_style {
        FontStyle::Normal => out.push(0),
        FontStyle::Italic => out.push(1),
    }
    push_i64(&mut out, pixels_per_point);
    proof {
        assert(out@ =~= encode_job(*job, pixels_per_point));
    }
    fnv1a(&out)
}

/// One glyph resolved against the atlas: where it is drawn (in
/// fixed-point logical pixels, relative to the layout origin), which
/// atlas region it samples, and its segment color.
#[derive(Clone, Copy)]
pub struct RasterizedGlyph {
    pub rect: LogicalRect,
    pub uv: FontAtlasRect,
    pub color: Srgba,
}

/// One visual row of resolved glyphs.
pub struct LayoutRow {
    pub glyphs: Vec<RasterizedGlyph>,
}

/// A finished, cached layout: rows of resolved glyph placements, the full
/// width of the laid-out text (fixed-point logical pixels), and the
/// number of vertices and indices its quads expand to.
pub struct Layout {
    pub job_hash: u64,
    pub rows: Vec<LayoutRow>,
    pub width: i64,
    pub num_of_vertices: usize,
    pub num_of_indices: usize,
}

/// Total number of glyphs over a prefix of the rows.
pub open spec fn rows_glyph_count(rows: Seq<LayoutRow>, n: int) -> int
    decreases n,
{
    if n <= 0 {
        0
    } else {
        rows_glyph_count(rows, n - 1) + rows[n - 1].glyphs@.len()
    }
}

/// The glyph count over a prefix depends only on the rows in that prefix.
pub proof fn lemma_rows_glyph_count_prefix(a: Seq<LayoutRow>, b: Seq<LayoutRow>, n: int)
    requires
        0 <= n <= a.len(),
        n <= b.len(),
        forall|i: int| 0 <= i < n ==> a[i] == b[i],
    ensures
        rows_glyph_count(a, n) == rows_glyph_count(b, n),
    decreases n,
{
    if n > 0 {
        lemma_rows_glyph_count_prefix(a, b, n - 1);
    }
}

impl Layout {
    /// The vertex and index counts match the glyphs: four vertices and
    /// six indices per glyph quad.
    pub open spec fn wf(self) -> bool {
        &&& self.num_of_vertices == 4 * rows_glyph_count(self.rows@, self.rows@.len() as int)
        &&& self.num_of_indices == 6 * rows_glyph_count(self.rows@, self.rows@.len() as int)
    }

    /// The full width of the laid-out text, in whole logical pixels.
    pub fn width_px(&self) -> (w: i64)
        requires
            0 <= self.width,
        ensures
            w == self.width as int / (crate::math::PX_ONE as int),
    {
        self.width / crate::math::PX_ONE
    }
}

} // verus!
