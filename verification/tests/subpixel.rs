use render_core::fonts::glyph_key::SubpixelBin;
use render_core::math::PX_ONE;

/// A float position in the fixed-point units the library uses.
fn fixed(x: f32) -> i64 {
    (x * PX_ONE as f32).round() as i64
}

#[test]
fn test_subpixel_bins() {
    assert_eq!(SubpixelBin::<4>::new(fixed(3.14)), (3, SubpixelBin(1)));
    assert_eq!(SubpixelBin::<4>::new(fixed(0.11)), (0, SubpixelBin(0)));
    assert_eq!(SubpixelBin::<4>::new(fixed(-0.8)), (-1, SubpixelBin(1)));
    assert_eq!(SubpixelBin::<2>::new(fixed(0.24)), (0, SubpixelBin(0)));
    assert_eq!(SubpixelBin::<2>::new(fixed(0.26)), (0, SubpixelBin(1)));
    assert_eq!(SubpixelBin::<2>::new(fixed(0.76)), (1, SubpixelBin(0)));
    assert_eq!(SubpixelBin::<2>::new(fixed(-0.76)), (-1, SubpixelBin(0)));
    assert_eq!(SubpixelBin::<2>::new(fixed(-0.25)), (0, SubpixelBin(0)));
}

#[test]
fn subpixel_bin_fractional_offsets() {
    // Bin i of N represents the fraction i/N of a pixel.
    let (_, bin) = SubpixelBin::<4>::new(fixed(3.14));
    assert_eq!(bin.fractional_offset(), PX_ONE / 4);
    let (_, bin0) = SubpixelBin::<4>::new(fixed(2.0));
    assert_eq!(bin0.fractional_offset(), 0);
}

#[test]
fn subpixel_bin_wraps_top_half_bin() {
    // A fraction in the topmost half bin rounds to the next pixel, bin zero.
    assert_eq!(SubpixelBin::<4>::new(fixed(0.9)), (1, SubpixelBin(0)));
    assert_eq!(SubpixelBin::<4>::new(fixed(0.55)), (0, SubpixelBin(2)));
}
