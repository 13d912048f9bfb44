use vstd::prelude::*;

verus! {

/// `sRGB` color with unmultiplied alpha, one byte per channel.
#[derive(Clone, Copy, Debug, Eq, Hash, PartialEq)]
pub struct Srgba(pub [u8; 4]);

/// Why a hex color string was rejected.
#[derive(Clone, Copy, Debug, Eq, PartialEq)]
pub enum HexColorError {
    /// The string (after an optional `#`) is not 3, 4, 6 or 8 characters long.
    UnexpectedLength,
    /// A character is not a hexadecimal digit.
    InvalidDigit,
}

pub open spec fn is_hex_digit(c: char) -> bool {
    (48 <= c as u32 && c as u32 <= 57) || (97 <= c as u32 && c as u32 <= 102) || (65 <= c as u32
        && c as u32 <= 70)
}

pub open spec fn hex_digit_value(c: char) -> u8 {
    if 48 <= c as u32 && c as u32 <= 57 {
        ((c as u32) - 48) as u8
    } else if 97 <= c as u32 && c as u32 <= 102 {
        ((c as u32) - 87) as u8
    } else {
        ((c as u32) - 55) as u8
    }
}

/// All characters of `s` are hexadecimal digits.
pub open spec fn all_hex_digits(s: Seq<char>) -> bool {
    forall|i: int| 0 <= i < s.len() ==> is_hex_digit(#[trigger] s[i])
}

/// Value of the two-digit hex number `s[i], s[i+1]`.
pub open spec fn hex_byte(s: Seq<char>, i: int) -> u8 {
    (16 * hex_digit_value(s[i]) + hex_digit_value(s[i + 1])) as u8
}

/// A single digit expanded to a byte by repetition (`0xC` becomes `0xCC`).
pub open spec fn hex_nibble_doubled(s: Seq<char>, i: int) -> u8 {
    (17 * hex_digit_value(s[i])) as u8
}

/// The color characters of a hex color string: everything after an
/// optional leading `#`.
pub open spec fn spec_hex_tail(s: Seq<char>) -> Seq<char> {
    if s.len() > 0 && s[0] == '#' {
        s.skip(1)
    } else {
        s
    }
}

/// The hex color grammar: an optional `#`, then `RGB`, `RGBA`, `RRGGBB`
/// or `RRGGBBAA` hex digits.
pub open spec fn spec_from_hex(s: Seq<char>) -> Result<Srgba, HexColorError> {
    let t = spec_hex_tail(s);
    if t.len() == 3 || t.len() == 4 || t.len() == 6 || t.len() == 8 {
        if all_hex_digits(t) {
            if t.len() == 3 {
                Ok(
                    Srgba(
                        [
                            hex_nibble_doubled(t, 0),
                            hex_nibble_doubled(t, 1),
                            hex_nibble_doubled(t, 2),
                            255,
                        ],
                    ),
                )
            } else if t.len() == 4 {
                Ok(
                    Srgba(
                        [
                            hex_nibble_doubled(t, 0),
                            hex_nibble_doubled(t, 1),
                            hex_nibble_doubled(t, 2),
                            hex_nibble_doubled(t, 3),
                        ],
                    ),
                )
            } else if t.len() == 6 {
                Ok(Srgba([hex_byte(t, 0), hex_byte(t, 2), hex_byte(t, 4), 255]))
            } else {
                Ok(Srgba([hex_byte(t, 0), hex_byte(t, 2), hex_byte(t, 4), hex_byte(t, 6)]))
            }
        } else {
            Err(HexColorError::InvalidDigit)
        }
    } else {
        Err(HexColorError::UnexpectedLength)
    }
}

impl Srgba {
    pub fn new(r: u8, g: u8, b: u8, a: u8) -> (c: Srgba)
        ensures
            c == Srgba([r, g, b, a]),
    {
        Srgba([r, g, b, a])
    }

    pub fn from_rgb(r: u8, g: u8, b: u8) -> (c: Srgba)
        ensures
            c == Srgba([r, g, b, 255u8]),
    {
        Srgba([r, g, b, 255])
    }

    /// Fully opaque white.
    pub fn white() -> (c: Srgba)
        ensures
            c == Srgba([255u8, 255u8, 255u8, 255u8]),
    {
        Srgba([255, 255, 255, 255])
    }

    /// Fully transparent black.
    pub fn transparent() -> (c: Srgba)
        ensures
            c == Srgba([0u8, 0u8, 0u8, 0u8]),
    {
        Srgba([0, 0, 0, 0])
    }

    /// Parses a hex color string such as `#FC0`, `FC0F`, `FFCC00` or
    /// `FFCC00FF`, with an optional leading `#`.
    pub fn from_hex(hex: &str) -> (r: Result<Srgba, HexColorError>)
        ensures
            r == spec_from_hex(hex@),
    {
        let len = hex.unicode_len();
        let start: usize = if len > 0 && hex.get_char(0) == '#' {
            1
        } else {
            0
        };
        let t = hex.substring_char(start, len);
        assert(t@ =~= spec_hex_tail(hex@));
        let tlen = len - start;
        if !(tlen == 3 || tlen == 4 || tlen == 6 || tlen == 8) {
            return Err(HexColorError::UnexpectedLength);
        }
        let mut digits: Vec<u8> = Vec::new();
        let mut i: usize = 0;
        while i < tlen
            invariant
                i <= tlen,
                tlen == t@.len(),
                t@ == spec_hex_tail(hex@),
                tlen == 3 || tlen == 4 || tlen == 6 || tlen == 8,
                digits@.len() == i,
                forall|j: int|
                    0 <= j < i ==> is_hex_digit(#[trigger] t@[j]) && digits@[j]
                        == hex_digit_value(t@[j]),
            decreases tlen - i,
        {
            let c = t.get_char(i);
            let cu = c as u32;
            let v: u8 = if 48 <= cu && cu <= 57 {
                (cu - 48) as u8
            } else if 97 <= cu && cu <= 102 {
                (cu - 87) as u8
            } else if 65 <= cu && cu <= 70 {
                (cu - 55) as u8
            } else {
                assert(!all_hex_digits(t@));
                return Err(HexColorError::InvalidDigit);
            };
            digits.push(v);
            i += 1;
        }
        if tlen == 3 {
            Ok(Srgba([17 * digits[0], 17 * digits[1], 17 * digits[2], 255]))
        } else if tlen == 4 {
            Ok(Srgba([17 * digits[0], 17 * digits[1], 17 * digits[2], 17 * digits[3]]))
        } else if tlen == 6 {
            Ok(
                Srgba(
                    [
                        16 * digits[0] + digits[1],
                        16 * digits[2] + digits[3],
                        16 * digits[4] + digits[5],
                        255,
                    ],
                ),
            )
        } else {
            Ok(
                Srgba(
                    [
                        16 * digits[0] + digits[1],
                        16 * digits[2] + digits[3],
                        16 * digits[4] + digits[5],
                        16 * digits[6] + digits[7],
                    ],
                ),
            )
        }
    }
}

} // verus!
