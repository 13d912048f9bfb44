use crate::color::{Srgba, spec_from_hex};
use crate::fonts::layout::{Alignment, FontFamily, FontStyle, LayoutJob};
use crate::math::PX_ONE;
use vstd::prelude::*;

verus! {

/// A decimal digit.
pub open spec fn is_digit(c: char) -> bool {
    48 <= c as u32 && c as u32 <= 57
}

/// The length of the color escape code starting at `i`, or zero: `^`
/// followed by one digit, or `^x`/`^X` followed by six hex digits.
pub open spec fn esc_len_at(s: Seq<char>, i: int) -> int {
    if i + 1 < s.len() && s[i] == '^' && is_digit(s[i + 1]) {
        2
    } else if i + 7 < s.len() && s[i] == '^' && (s[i + 1] == 'x' || s[i + 1] == 'X')
        && crate::color::all_hex_digits(s.subrange(i + 2, i + 8)) {
        8
    } else {
        0
    }
}

/// The text from `i` on with every color escape code removed.
pub open spec fn strip_from(s: Seq<char>, i: int) -> Seq<char>
    decreases s.len() - i,
{
    if i < 0 || i >= s.len() {
        Seq::empty()
    } else {
        let l = esc_len_at(s, i);
        if l > 0 {
            strip_from(s, i + l)
        } else {
            seq![s[i]] + strip_from(s, i + 1)
        }
    }
}

/// The text with every color escape code removed.
pub open spec fn spec_strip_escapes(s: Seq<char>) -> Seq<char> {
    strip_from(s, 0)
}

/// The palette color of a one-digit escape code.
pub open spec fn palette_color(d: int) -> Srgba {
    if d == 0 {
        Srgba([0u8, 0u8, 0u8, 255u8])
    } else if d == 1 {
        Srgba([255u8, 0u8, 0u8, 255u8])
    } else if d == 2 {
        Srgba([0u8, 255u8, 0u8, 255u8])
    } else if d == 3 {
        Srgba([0u8, 0u8, 255u8, 255u8])
    } else if d == 4 {
        Srgba([255u8, 255u8, 0u8, 255u8])
    } else if d == 5 {
        Srgba([255u8, 0u8, 255u8, 255u8])
    } else if d == 6 {
        Srgba([0u8, 255u8, 255u8, 255u8])
    } else if d == 7 {
        Srgba([255u8, 255u8, 255u8, 255u8])
    } else if d == 8 {
        Srgba([178u8, 178u8, 178u8, 255u8])
    } else {
        Srgba([102u8, 102u8, 102u8, 255u8])
    }
}

/// The color of the escape code at `i`: a palette color for a digit
/// code, the parsed hex color for a hex code (white if it cannot be
/// parsed).
pub open spec fn esc_color_at(s: Seq<char>, i: int) -> Srgba {
    if esc_len_at(s, i) == 2 {
        palette_color(s[i + 1] as u32 - 48)
    } else {
        match spec_from_hex(s.subrange(i + 2, i + 8)) {
            Ok(c) => c,
            Err(_) => Srgba([255u8, 255u8, 255u8, 255u8]),
        }
    }
}

/// The position of the first escape code at or after `i`, or the text
/// length if there is none.
pub open spec fn next_esc(s: Seq<char>, i: int) -> int
    decreases s.len() - i,
{
    if i < 0 || i >= s.len() {
        s.len() as int
    } else if esc_len_at(s, i) > 0 {
        i
    } else {
        next_esc(s, i + 1)
    }
}

/// The first escape position never lies before where the search starts.
pub proof fn lemma_next_esc_ge(s: Seq<char>, i: int)
    requires
        i <= s.len(),
    ensures
        i <= next_esc(s, i) <= s.len(),
    decreases s.len() - i,
{
    if 0 <= i < s.len() && !(esc_len_at(s, i) > 0) {
        lemma_next_esc_ge(s, i + 1);
    }
}

/// The colored segments from the escape code at `i` on: each code colors
/// the text up to the next code.
pub open spec fn segments_at(s: Seq<char>, i: int) -> Seq<(Option<Srgba>, Seq<char>)>
    decreases s.len() - i,
    via segments_at_decreases
{
    if !(0 <= i < s.len() && esc_len_at(s, i) > 0) {
        Seq::empty()
    } else {
        let l = esc_len_at(s, i);
        let color = esc_color_at(s, i);
        let nxt = next_esc(s, i + l);
        if nxt >= s.len() {
            seq![(Some(color), s.subrange(i + l, s.len() as int))]
        } else {
            seq![(Some(color), s.subrange(i + l, nxt))] + segments_at(s, nxt)
        }
    }
}

#[via_fn]
proof fn segments_at_decreases(s: Seq<char>, i: int) {
    if 0 <= i < s.len() && esc_len_at(s, i) > 0 {
        lemma_next_esc_ge(s, i + esc_len_at(s, i));
    }
}

/// A text split into colored segments: an uncolored leading segment if
/// the text does not start with an escape code (the whole text if it has
/// none), then one segment per code.
pub open spec fn spec_segments(s: Seq<char>) -> Seq<(Option<Srgba>, Seq<char>)> {
    let first = next_esc(s, 0);
    if first >= s.len() {
        seq![(None::<Srgba>, s)]
    } else if first > 0 {
        seq![(None::<Srgba>, s.subrange(0, first))] + segments_at(s, first)
    } else {
        segments_at(s, 0)
    }
}

/// A piece of script-visible text: it may hold color escape codes that
/// change the color of the text that follows them.
pub struct PoBString<'a>(pub &'a str);

/// The length of the escape code starting at `i`, or zero.
fn escape_len_at(s: &str, n: usize, i: usize) -> (r: usize)
    requires
        n == s@.len(),
        i < n,
    ensures
        r == esc_len_at(s@, i as int),
        r == 0 || r == 2 || r == 8,
        i + r <= n,
{
    let c = s.get_char(i);
    if c != '^' {
        return 0;
    }
    if i + 1 >= n {
        return 0;
    }
    let c1 = s.get_char(i + 1);
    let c1u = c1 as u32;
    if 48 <= c1u && c1u <= 57 {
        return 2;
    }
    if (c1 == 'x' || c1 == 'X') && n - i > 7 {
        let mut k: usize = 0;
        while k < 6
            invariant
                n == s@.len(),
                i + 7 < n,
                k <= 6,
                s@[i as int] == '^',
                s@[i as int + 1] == 'x' || s@[i as int + 1] == 'X',
                !is_digit(s@[i as int + 1]),
                forall|j: int|
                    0 <= j < k ==> crate::color::is_hex_digit(#[trigger] s@[i + 2 + j]),
            decreases 6 - k,
        {
            let cu = s.get_char(i + 2 + k) as u32;
            if !((48 <= cu && cu <= 57) || (97 <= cu && cu <= 102) || (65 <= cu && cu <= 70)) {
                assert(!crate::color::is_hex_digit(s@[i + 2 + k]));
                assert(s@.subrange(i as int + 2, i as int + 8)[k as int] == s@[i + 2 + k as int]);
                assert(!crate::color::all_hex_digits(s@.subrange(i as int + 2, i as int + 8)));
                return 0;
            }
            k += 1;
        }
        proof {
            assert forall|j: int| 0 <= j < 6 implies crate::color::is_hex_digit(
                #[trigger] s@.subrange(i as int + 2, i as int + 8)[j],
            ) by {
                assert(s@.subrange(i as int + 2, i as int + 8)[j] == s@[i + 2 + j]);
            }
        }
        return 8;
    }
    0
}

impl<'a> PoBString<'a> {
    /// The text with every color escape code removed.
    pub fn strip_escapes(&self) -> (r: String)
        ensures
            r@ == spec_strip_escapes(self.0@),
    {
        let s = self.0;
        let n = s.unicode_len();
        let mut out = String::new();
        let mut i: usize = 0;
        while i < n
            invariant
                n == s@.len(),
                i <= n,
                out@ + strip_from(s@, i as int) == strip_from(s@, 0),
            decreases n - i,
        {
            let l = escape_len_at(s, n, i);
            if l > 0 {
                i += l;
            } else {
                let piece = s.substring_char(i, i + 1);
                out.append(piece);
                proof {
                    assert(piece@ =~= seq![s@[i as int]]);
                }
                i += 1;
            }
        }
        out
    }

    /// The text split into colored segments, in order: `None` marks text
    /// before the first escape code, which keeps the caller's current
    /// color.
    pub fn segments(&self) -> (r: Vec<(Option<Srgba>, String)>)
        ensures
            r@.len() == spec_segments(self.0@).len(),
            forall|k: int|
                0 <= k < r@.len() ==> ((#[trigger] r@[k]).0 == spec_segments(self.0@)[k].0
                    && r@[k].1@ == spec_segments(self.0@)[k].1),
    {
        let s = self.0;
        let n = s.unicode_len();
        let mut out: Vec<(Option<Srgba>, String)> = Vec::new();
        let first = find_next_esc(s, n, 0);
        if first >= n {
            let whole = s.substring_char(0, n);
            out.push((None, String::from_str(whole)));
            proof {
                assert(s@.subrange(0, n as int) =~= s@);
            }
            return out;
        }
        if first > 0 {
            let head = s.substring_char(0, first);
            out.push((None, String::from_str(head)));
        }
        let mut i: usize = first;
        while i < n
            invariant
                s == self.0,
                n == s@.len(),
                i < n,
                esc_len_at(s@, i as int) > 0,
                out@.len() + segments_at(s@, i as int).len() == spec_segments(s@).len(),
                forall|k: int|
                    0 <= k < out@.len() ==> ((#[trigger] out@[k]).0 == spec_segments(s@)[k].0
                        && out@[k].1@ == spec_segments(s@)[k].1),
                forall|k: int|
                    0 <= k < segments_at(s@, i as int).len() ==> (#[trigger] segments_at(
                        s@,
                        i as int,
                    )[k]) == spec_segments(s@)[out@.len() + k],
            decreases n - i,
        {
            let l = escape_len_at(s, n, i);
            let color = escape_color_at(s, n, i);
            let nxt = find_next_esc(s, n, i + l);
            let piece = s.substring_char(i + l, nxt);
            let ghost pre_len = out@.len() as int;
            out.push((Some(color), String::from_str(piece)));
            if nxt >= n {
                proof {
                    assert(segments_at(s@, i as int) =~= seq![
                        (
                            Some(esc_color_at(s@, i as int)),
                            s@.subrange(i as int + l, s@.len() as int),
                        ),
                    ]);
                    assert(segments_at(s@, i as int)[0] == spec_segments(s@)[pre_len]);
                    assert(out@[pre_len].0 == spec_segments(s@)[pre_len].0);
                    assert(out@[pre_len].1@ == spec_segments(s@)[pre_len].1);
                }
                return out;
            }
            proof {
                assert(segments_at(s@, i as int) =~= seq![
                    (Some(esc_color_at(s@, i as int)), s@.subrange(i as int + l, nxt as int)),
                ] + segments_at(s@, nxt as int));
                assert(segments_at(s@, i as int)[0] == spec_segments(s@)[pre_len]);
                assert(out@[pre_len].0 == spec_segments(s@)[pre_len].0);
                assert(out@[pre_len].1@ == spec_segments(s@)[pre_len].1);
                assert forall|k: int| 0 <= k < segments_at(s@, nxt as int).len() implies (
                #[trigger] segments_at(s@, nxt as int)[k]) == spec_segments(s@)[out@.len() + k] by {
                    assert(segments_at(s@, i as int)[k + 1] == segments_at(s@, nxt as int)[k]);
                }
            }
            i = nxt;
        }
        out
    }
}

/// The position of the first escape code at or after `i`, or the text
/// length.
fn find_next_esc(s: &str, n: usize, i: usize) -> (r: usize)
    requires
        n == s@.len(),
        i <= n,
    ensures
        r == next_esc(s@, i as int),
        i <= r <= n,
        r < n ==> esc_len_at(s@, r as int) > 0,
    decreases n - i,
{
    let mut j: usize = i;
    while j < n
        invariant
            n == s@.len(),
            i <= j <= n,
            next_esc(s@, i as int) == next_esc(s@, j as int),
        decreases n - j,
    {
        let l = escape_len_at(s, n, j);
        if l > 0 {
            return j;
        }
        j += 1;
    }
    n
}

/// The color of the escape code at `i`.
fn escape_color_at(s: &str, n: usize, i: usize) -> (c: Srgba)
    requires
        n == s@.len(),
        i < n,
        esc_len_at(s@, i as int) > 0,
    ensures
        c == esc_color_at(s@, i as int),
{
    let l = escape_len_at(s, n, i);
    if l == 2 {
        let d = (s.get_char(i + 1) as u32) - 48;
        if d == 0 {
            Srgba::from_rgb(0, 0, 0)
        } else if d == 1 {
            Srgba::from_rgb(255, 0, 0)
        } else if d == 2 {
            Srgba::from_rgb(0, 255, 0)
        } else if d == 3 {
            Srgba::from_rgb(0, 0, 255)
        } else if d == 4 {
            Srgba::from_rgb(255, 255, 0)
        } else if d == 5 {
            Srgba::from_rgb(255, 0, 255)
        } else if d == 6 {
            Srgba::from_rgb(0, 255, 255)
        } else if d == 7 {
            Srgba::from_rgb(255, 255, 255)
        } else if d == 8 {
            Srgba::from_rgb(178, 178, 178)
        } else {
            Srgba::from_rgb(102, 102, 102)
        }
    } else {
        let hex = s.substring_char(i + 2, i + 8);
        match Srgba::from_hex(hex) {
            Ok(c) => c,
            Err(_) => Srgba::from_rgb(255, 255, 255),
        }
    }
}

impl Srgba {
    /// The color set by the first escape code found in the string, or
    /// white if it holds none.
    pub fn from_escape_code(escape_str: &str) -> (c: Srgba)
        ensures
            c == (if next_esc(escape_str@, 0) < escape_str@.len() {
                esc_color_at(escape_str@, next_esc(escape_str@, 0))
            } else {
                Srgba([255u8, 255u8, 255u8, 255u8])
            }),
    {
        let n = escape_str.unicode_len();
        let p = find_next_esc(escape_str, n, 0);
        if p < n {
            escape_color_at(escape_str, n, p)
        } else {
            Srgba::from_rgb(255, 255, 255)
        }
    }
}

/// How the scripting host anchors a string: plain left anchoring, two
/// screen-relative modes, and two position-relative modes.
#[derive(Clone, Copy, Debug, PartialEq, Eq, Structural)]
pub enum PoBTextAlignment {
    /// The position is the top-left corner of the text.
    Left,
    /// Centered in screen space: the position's x offsets the text
    /// center from the screen center.
    Center,
    /// Right-aligned in screen space: the position's x is the distance
    /// from the text's right edge to the screen's right edge.
    Right,
    /// Centered on the position.
    CenterX,
    /// Right-aligned to the position.
    RightX,
}

/// The fonts the scripting host can ask for.
#[derive(Clone, Copy, Debug, PartialEq, Eq, Structural)]
pub enum PoBFontType {
    Fixed,
    Var,
    VarBold,
    FontinSmallcaps,
    FontinSmallcapsItalic,
    Fontin,
    FontinItalic,
}

/// A malformed selector from the scripting layer, reported to the
/// caller rather than silently defaulted.
#[derive(Clone, Copy, Debug, PartialEq, Eq, Structural)]
pub enum SelectorParseError {
    UnknownAlignment,
    UnknownFontType,
}

/// Equality of two texts, character by character.
fn str_eq(a: &str, b: &str) -> (r: bool)
    ensures
        r == (a@ == b@),
{
    let na = a.unicode_len();
    let nb = b.unicode_len();
    if na != nb {
        assert(a@ != b@);
        return false;
    }
    let mut i: usize = 0;
    while i < na
        invariant
            na == a@.len() == b@.len(),
            i <= na,
            forall|j: int| 0 <= j < i ==> a@[j] == b@[j],
        decreases na - i,
    {
        if a.get_char(i) != b.get_char(i) {
            return false;
        }
        i += 1;
    }
    proof {
        assert(a@ =~= b@);
    }
    true
}

/// The alignment selector grammar.
pub open spec fn spec_parse_alignment(s: Seq<char>) -> Result<
    PoBTextAlignment,
    SelectorParseError,
> {
    if s == "LEFT"@ {
        Ok(PoBTextAlignment::Left)
    } else if s == "CENTER"@ {
        Ok(PoBTextAlignment::Center)
    } else if s == "RIGHT"@ {
        Ok(PoBTextAlignment::Right)
    } else if s == "CENTER_X"@ {
        Ok(PoBTextAlignment::CenterX)
    } else if s == "RIGHT_X"@ {
        Ok(PoBTextAlignment::RightX)
    } else {
        Err(SelectorParseError::UnknownAlignment)
    }
}

impl PoBTextAlignment {
    /// Parses an alignment selector; an unknown selector is a typed
    /// error, never a silent default.
    pub fn parse(s: &str) -> (r: Result<PoBTextAlignment, SelectorParseError>)
        ensures
            r == spec_parse_alignment(s@),
    {
        if str_eq(s, "LEFT") {
            Ok(PoBTextAlignment::Left)
        } else if str_eq(s, "CENTER") {
            Ok(PoBTextAlignment::Center)
        } else if str_eq(s, "RIGHT") {
            Ok(PoBTextAlignment::Right)
        } else if str_eq(s, "CENTER_X") {
            Ok(PoBTextAlignment::CenterX)
        } else if str_eq(s, "RIGHT_X") {
            Ok(PoBTextAlignment::RightX)
        } else {
            Err(SelectorParseError::UnknownAlignment)
        }
    }
}

/// The font type selector grammar.
pub open spec fn spec_parse_font_type(s: Seq<char>) -> Result<PoBFontType, SelectorParseError> {
    if s == "FIXED"@ {
        Ok(PoBFontType::Fixed)
    } else if s == "VAR"@ {
        Ok(PoBFontType::Var)
    } else if s == "VAR BOLD"@ {
        Ok(PoBFontType::VarBold)
    } else if s == "FONTIN SC"@ {
        Ok(PoBFontType::FontinSmallcaps)
    } else if s == "FONTIN SC ITALIC"@ {
        Ok(PoBFontType::FontinSmallcapsItalic)
    } else if s == "FONTIN"@ {
        Ok(PoBFontType::Fontin)
    } else if s == "FONTIN ITALIC"@ {
        Ok(PoBFontType::FontinItalic)
    } else {
        Err(SelectorParseError::UnknownFontType)
    }
}

impl PoBFontType {
    /// Parses a font type selector; an unknown selector is a typed
    /// error, never a silent default.
    pub fn parse(s: &str) -> (r: Result<PoBFontType, SelectorParseError>)
        ensures
            r == spec_parse_font_type(s@),
    {
        if str_eq(s, "FIXED") {
            Ok(PoBFontType::Fixed)
        } else if str_eq(s, "VAR") {
            Ok(PoBFontType::Var)
        } else if str_eq(s, "VAR BOLD") {
            Ok(PoBFontType::VarBold)
        } else if str_eq(s, "FONTIN SC") {
            Ok(PoBFontType::FontinSmallcaps)
        } else if str_eq(s, "FONTIN SC ITALIC") {
            Ok(PoBFontType::FontinSmallcapsItalic)
        } else if str_eq(s, "FONTIN") {
            Ok(PoBFontType::Fontin)
        } else if str_eq(s, "FONTIN ITALIC") {
            Ok(PoBFontType::FontinItalic)
        } else {
            Err(SelectorParseError::UnknownFontType)
        }
    }
}

/// The font weight a font type implies, if any.
pub open spec fn spec_font_weight(t: PoBFontType) -> Option<i64> {
    match t {
        PoBFontType::VarBold => Some(((700 * PX_ONE as int)) as i64),
        _ => None,
    }
}

/// The synthetic style a font type implies.
pub open spec fn spec_font_style(t: PoBFontType) -> FontStyle {
    match t {
        PoBFontType::FontinSmallcapsItalic => FontStyle::Italic,
        _ => FontStyle::Normal,
    }
}

/// The font size for a requested line height: two pixels less, clamped
/// between 11 and 32, in fixed-point units.
pub open spec fn spec_font_size(line_height: i64) -> int {
    let v = line_height - 2;
    (if v < 11 {
        11int
    } else if v > 32 {
        32int
    } else {
        v as int
    }) * PX_ONE as int
}

/// The family name each font type maps to.
fn font_family_of(font_type: &PoBFontType) -> (r: FontFamily)
    ensures
        r matches FontFamily::Named(n) && n@ == spec_font_family_name(*font_type),
{
    match font_type {
        PoBFontType::Fixed => FontFamily::Named(String::from_str("Bitstream Vera Sans Mono")),
        PoBFontType::Var => FontFamily::Named(String::from_str("Liberation Sans")),
        PoBFontType::VarBold => FontFamily::Named(String::from_str("Liberation Sans")),
        PoBFontType::Fontin => FontFamily::Named(String::from_str("Fontin")),
        PoBFontType::FontinItalic => FontFamily::Named(String::from_str("Fontin")),
        PoBFontType::FontinSmallcaps => FontFamily::Named(String::from_str("Fontin SmallCaps")),
        PoBFontType::FontinSmallcapsItalic => FontFamily::Named(
            String::from_str("Fontin SmallCaps"),
        ),
    }
}

/// The family name each font type maps to.
pub open spec fn spec_font_family_name(t: PoBFontType) -> Seq<char> {
    match t {
        PoBFontType::Fixed => "Bitstream Vera Sans Mono"@,
        PoBFontType::Var => "Liberation Sans"@,
        PoBFontType::VarBold => "Liberation Sans"@,
        PoBFontType::Fontin => "Fontin"@,
        PoBFontType::FontinItalic => "Fontin"@,
        PoBFontType::FontinSmallcaps => "Fontin SmallCaps"@,
        PoBFontType::FontinSmallcapsItalic => "Fontin SmallCaps"@,
    }
}

/// Builds the layout job for one script-issued string: the text is split
/// at its color escape codes into colored segments (uncolored text keeps
/// the current draw color), the font type picks the family, weight and
/// style, and the font size follows the line height.
pub fn build_layout_job(
    text: &str,
    current_color: Srgba,
    font_type: PoBFontType,
    line_height: i64,
    alignment: Option<Alignment>,
) -> (job: LayoutJob)
    requires
        0 <= line_height <= 4096,
    ensures
        job.segments@.len() == spec_segments(text@).len(),
        forall|k: int|
            0 <= k < job.segments@.len() ==> ((#[trigger] job.segments@[k]).text@
                == spec_segments(text@)[k].1 && job.segments@[k].color == (match spec_segments(
                text@,
            )[k].0 {
                Some(c) => c,
                None => current_color,
            })),
        job.font_family matches FontFamily::Named(n) && n@ == spec_font_family_name(font_type),
        job.font_size == spec_font_size(line_height),
        job.line_height == line_height * PX_ONE,
        job.alignment == alignment,
        job.font_weight == spec_font_weight(font_type),
        job.font_style == spec_font_style(font_type),
{
    let font_family = font_family_of(&font_type);
    let font_weight: Option<i64> = match font_type {
        PoBFontType::VarBold => Some(700 * PX_ONE),
        _ => None,
    };
    let font_style = match font_type {
        PoBFontType::FontinSmallcapsItalic => FontStyle::Italic,
        _ => FontStyle::Normal,
    };
    let v = line_height - 2;
    let clamped: i64 = if v < 11 {
        11
    } else if v > 32 {
        32
    } else {
        v
    };
    let font_size = clamped * PX_ONE;
    let mut job = LayoutJob::new(
        font_family,
        font_size,
        line_height * PX_ONE,
        alignment,
        font_weight,
        font_style,
    );
    let pieces = PoBString(text).segments();
    let n = pieces.len();
    let mut i: usize = 0;
    while i < n
        invariant
            n == pieces@.len(),
            i <= n,
            n == spec_segments(text@).len(),
            forall|k: int|
                0 <= k < n ==> ((#[trigger] pieces@[k]).0 == spec_segments(text@)[k].0
                    && pieces@[k].1@ == spec_segments(text@)[k].1),
            job.segments@.len() == i,
            forall|k: int|
                0 <= k < i ==> ((#[trigger] job.segments@[k]).text@ == spec_segments(text@)[k].1
                    && job.segments@[k].color == (match spec_segments(text@)[k].0 {
                    Some(c) => c,
                    None => current_color,
                })),
            job.font_family matches FontFamily::Named(fam) && fam@ == spec_font_family_name(
                font_type,
            ),
            job.font_size == spec_font_size(line_height),
            job.line_height == line_height * PX_ONE,
            job.alignment == alignment,
            job.font_weight == spec_font_weight(font_type),
            job.font_style == spec_font_style(font_type),
            0 <= line_height <= 4096,
        decreases n - i,
    {
        let piece = &pieces[i];
        let color = match &piece.0 {
            Some(c) => *c,
            None => current_color,
        };
        let seg_text = String::from_str(piece.1.as_str());
        job.append(seg_text, color);
        i += 1;
    }
    job
}

/// Where a script-anchored string is laid out: the adjusted anchor, how
/// the layout is aligned, and whether the anchor is already in screen
/// space (so the viewport origin must not be added again).
pub struct AnchoredText {
    pub x: i64,
    pub y: i64,
    pub is_absolute_position: bool,
    pub alignment: Alignment,
}

/// Turns a script anchoring mode into a layout alignment and an
/// adjusted anchor: screen-centered text anchors at the screen center
/// plus the given offset; screen-right-aligned text anchors at the
/// distance from the right screen edge; both are then absolute.
pub fn anchor_text(x: i64, y: i64, alignment: PoBTextAlignment, screen_width: i64) -> (r:
    AnchoredText)
    requires
        -crate::math::COORD_LIMIT / 2 <= x <= crate::math::COORD_LIMIT / 2,
        0 <= screen_width <= crate::math::COORD_LIMIT / 2,
    ensures
        r.y == y,
        alignment is Left ==> (r.x == x && !r.is_absolute_position && r.alignment
            == Alignment::Min),
        alignment is Center ==> (r.x == x + screen_width / 2 && r.is_absolute_position
            && r.alignment == Alignment::Center),
        alignment is Right ==> (r.x == screen_width - x && r.is_absolute_position && r.alignment
            == Alignment::Max),
        alignment is CenterX ==> (r.x == x && !r.is_absolute_position && r.alignment
            == Alignment::Center),
        alignment is RightX ==> (r.x == x && !r.is_absolute_position && r.alignment
            == Alignment::Max),
{
    match alignment {
        PoBTextAlignment::Left => AnchoredText {
            x,
            y,
            is_absolute_position: false,
            alignment: Alignment::Min,
        },
        PoBTextAlignment::Center => AnchoredText {
            x: x + ((screen_width as u64) / 2) as i64,
            y,
            is_absolute_position: true,
            alignment: Alignment::Center,
        },
        PoBTextAlignment::Right => AnchoredText {
            x: screen_width - x,
            y,
            is_absolute_position: true,
            alignment: Alignment::Max,
        },
        PoBTextAlignment::CenterX => AnchoredText {
            x,
            y,
            is_absolute_position: false,
            alignment: Alignment::Center,
        },
        PoBTextAlignment::RightX => AnchoredText {
            x,
            y,
            is_absolute_position: false,
            alignment: Alignment::Max,
        },
    }
}

} // verus!
