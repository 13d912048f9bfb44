use render_core::Srgba;
use render_core::color::HexColorError;
use render_core::fonts::layout::Alignment;
use render_core::math::PX_ONE;
use render_core::text::{
    PoBFontType, PoBString, PoBTextAlignment, SelectorParseError, anchor_text,
};

#[test]
fn hex_color_forms() {
    assert_eq!(Srgba::from_hex("#FC0"), Ok(Srgba([255, 204, 0, 255])));
    assert_eq!(Srgba::from_hex("FC0F"), Ok(Srgba([255, 204, 0, 255])));
    assert_eq!(Srgba::from_hex("FFCC00"), Ok(Srgba([255, 204, 0, 255])));
    assert_eq!(Srgba::from_hex("#ffcc00ff"), Ok(Srgba([255, 204, 0, 255])));
    assert_eq!(Srgba::from_hex("102030"), Ok(Srgba([16, 32, 48, 255])));
}

#[test]
fn hex_color_errors() {
    assert_eq!(Srgba::from_hex(""), Err(HexColorError::UnexpectedLength));
    assert_eq!(Srgba::from_hex("#12345"), Err(HexColorError::UnexpectedLength));
    assert_eq!(Srgba::from_hex("GGGGGG"), Err(HexColorError::InvalidDigit));
    assert_eq!(Srgba::from_hex("#12 456"), Err(HexColorError::InvalidDigit));
}

#[test]
fn strip_escapes_removes_codes() {
    assert_eq!(PoBString("^1red^2green").strip_escapes(), "redgreen");
    assert_eq!(PoBString("plain").strip_escapes(), "plain");
    assert_eq!(PoBString("a^xFFCC00b").strip_escapes(), "ab");
    assert_eq!(PoBString("dangling^").strip_escapes(), "dangling^");
    assert_eq!(PoBString("^xNOHEX0 stays").strip_escapes(), "^xNOHEX0 stays");
}

#[test]
fn segments_split_by_color() {
    let segs = PoBString("lead^1red^xFFCC00gold").segments();
    assert_eq!(segs.len(), 3);
    assert_eq!(segs[0].0, None);
    assert_eq!(segs[0].1, "lead");
    assert_eq!(segs[1].0, Some(Srgba([255, 0, 0, 255])));
    assert_eq!(segs[1].1, "red");
    assert_eq!(segs[2].0, Some(Srgba([255, 204, 0, 255])));
    assert_eq!(segs[2].1, "gold");

    let whole = PoBString("no codes").segments();
    assert_eq!(whole.len(), 1);
    assert_eq!(whole[0].0, None);
    assert_eq!(whole[0].1, "no codes");
}

#[test]
fn escape_code_colors() {
    assert_eq!(Srgba::from_escape_code("^7"), Srgba([255, 255, 255, 255]));
    assert_eq!(Srgba::from_escape_code("^1"), Srgba([255, 0, 0, 255]));
    assert_eq!(Srgba::from_escape_code("^8"), Srgba([178, 178, 178, 255]));
    assert_eq!(Srgba::from_escape_code("^xFFCC00"), Srgba([255, 204, 0, 255]));
    assert_eq!(Srgba::from_escape_code("no code"), Srgba([255, 255, 255, 255]));
}

#[test]
fn selector_parsing() {
    assert_eq!(PoBTextAlignment::parse("LEFT"), Ok(PoBTextAlignment::Left));
    assert_eq!(PoBTextAlignment::parse("CENTER_X"), Ok(PoBTextAlignment::CenterX));
    assert_eq!(
        PoBTextAlignment::parse("MIDDLE"),
        Err(SelectorParseError::UnknownAlignment)
    );
    assert_eq!(PoBFontType::parse("FIXED"), Ok(PoBFontType::Fixed));
    assert_eq!(PoBFontType::parse("VAR BOLD"), Ok(PoBFontType::VarBold));
    assert_eq!(
        PoBFontType::parse("COMIC"),
        Err(SelectorParseError::UnknownFontType)
    );
}

#[test]
fn text_anchoring_modes() {
    let w = 800 * PX_ONE;
    let left = anchor_text(10 * PX_ONE, 5 * PX_ONE, PoBTextAlignment::Left, w);
    assert_eq!((left.x, left.y), (10 * PX_ONE, 5 * PX_ONE));
    assert!(!left.is_absolute_position);
    assert_eq!(left.alignment, Alignment::Min);

    let center = anchor_text(10 * PX_ONE, 0, PoBTextAlignment::Center, w);
    assert_eq!(center.x, 410 * PX_ONE);
    assert!(center.is_absolute_position);
    assert_eq!(center.alignment, Alignment::Center);

    let right = anchor_text(10 * PX_ONE, 0, PoBTextAlignment::Right, w);
    assert_eq!(right.x, 790 * PX_ONE);
    assert!(right.is_absolute_position);
    assert_eq!(right.alignment, Alignment::Max);

    let center_x = anchor_text(10 * PX_ONE, 0, PoBTextAlignment::CenterX, w);
    assert_eq!(center_x.x, 10 * PX_ONE);
    assert!(!center_x.is_absolute_position);
    assert_eq!(center_x.alignment, Alignment::Center);
}
