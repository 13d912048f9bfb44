use render_core::fonts::atlas::FontAtlas;

fn overlaps(a: (i64, i64, i64, i64), b: (i64, i64, i64, i64)) -> bool {
    !(a.2 <= b.0 || b.2 <= a.0 || a.3 <= b.1 || b.3 <= a.1)
}

#[test]
fn atlas_reserves_white_pixel() {
    let atlas = FontAtlas::new(1024);
    let bytes = atlas.image();
    // The texel at the origin is opaque white.
    assert_eq!(&bytes[0..4], &[255, 255, 255, 255]);
    let size = atlas.size();
    assert_eq!(size.width, 1024);
    assert_eq!(size.height, 256);
}

#[test]
fn atlas_allocations_do_not_overlap() {
    let mut atlas = FontAtlas::new(1024);
    let mut regions: Vec<(i64, i64, i64, i64)> = vec![(0, 0, 1, 1)];
    let sizes = [
        (20, 30),
        (500, 8),
        (600, 40),
        (1024, 16),
        (3, 200),
        (50, 50),
        (1000, 2),
    ];
    for (w, h) in sizes {
        let r = atlas.allocate(render_core::math::Size::new(w, h));
        assert_eq!(r.max.x - r.min.x, w);
        assert_eq!(r.max.y - r.min.y, h);
        assert!(!atlas.is_overflowed());
        regions.push((r.min.x, r.min.y, r.max.x, r.max.y));
    }
    for i in 0..regions.len() {
        for j in 0..i {
            assert!(
                !overlaps(regions[i], regions[j]),
                "regions {:?} and {:?} overlap",
                regions[i],
                regions[j]
            );
        }
    }
}

#[test]
fn atlas_grows_height_on_demand() {
    let mut atlas = FontAtlas::new(1024);
    // A tall request forces the bitmap to double its height.
    let r = atlas.allocate(render_core::math::Size::new(10, 300));
    assert_eq!(r.max.y - r.min.y, 300);
    assert!(atlas.size().height >= 304);
    assert!(!atlas.is_overflowed());
    // The white pixel survives growth.
    assert_eq!(&atlas.image()[0..4], &[255, 255, 255, 255]);
}

#[test]
fn atlas_overflow_recovers_without_failing() {
    let mut atlas = FontAtlas::new(256);
    // Fill the atlas beyond its maximum height with full-width rows.
    for _ in 0..18 {
        atlas.allocate(render_core::math::Size::new(256, 16));
    }
    assert!(atlas.is_overflowed());
    assert!(atlas.needs_clear());
    // Allocation still returned a region inside the bitmap; clearing
    // restores a fresh atlas.
    atlas.clear();
    assert!(!atlas.is_overflowed());
    assert_eq!(&atlas.image()[0..4], &[255, 255, 255, 255]);
    // The cleared bitmap must be re-uploaded.
    assert!(atlas.take_delta().is_some());
}

#[test]
fn atlas_delta_is_consumed_once() {
    let mut atlas = FontAtlas::new(512);
    let first = atlas.take_delta();
    assert!(first.is_some());
    let second = atlas.take_delta();
    assert!(second.is_none());
    atlas.allocate(render_core::math::Size::new(4, 4));
    assert!(atlas.take_delta().is_some());
}

#[test]
fn atlas_write_mask_sets_white_with_alpha() {
    let mut atlas = FontAtlas::new(512);
    let region = atlas.allocate(render_core::math::Size::new(2, 2));
    atlas.write_mask(region, &vec![10, 20, 30, 40]);
    let bytes = atlas.image();
    let w = atlas.size().width;
    let idx = |x: i64, y: i64| (4 * (y * w + x)) as usize;
    assert_eq!(bytes[idx(region.min.x, region.min.y) + 3], 10);
    assert_eq!(bytes[idx(region.min.x + 1, region.min.y) + 3], 20);
    assert_eq!(bytes[idx(region.min.x, region.min.y + 1) + 3], 30);
    assert_eq!(bytes[idx(region.min.x + 1, region.min.y + 1) + 3], 40);
    assert_eq!(bytes[idx(region.min.x, region.min.y)], 255);
}
