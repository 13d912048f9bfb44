use render_core::Srgba;
use render_core::fonts::layout::Alignment;
use render_core::fonts::glyph_key::{GlyphKey, SubpixelBin};
use render_core::fonts::rasterizer::RasterBitmap;
use render_core::fonts::{Fonts, ShapedGlyph, ShapedLine, ShapedRun, ShapedText};
use render_core::layers::Layers;
use render_core::math::{PX_ONE, Point, Rect, Size};
use render_core::mode::frame_identical;
use render_core::renderer::primitives::{
    ClippedPrimitive, DrawPrimitive, RectPrimitive, RectTexture,
};
use render_core::renderer::tessellator::Tessellator;
use render_core::text::{PoBFontType, build_layout_job};
use std::sync::Arc;

fn white() -> Srgba {
    Srgba([255, 255, 255, 255])
}

fn shaped_hi() -> ShapedText {
    ShapedText {
        full_width: 16 * PX_ONE,
        lines: vec![ShapedLine {
            runs: vec![ShapedRun {
                font_blob_id: 7,
                font_size: 14 * PX_ONE,
                normalized_coords: vec![],
                skew: 0,
                color: white(),
                glyphs: vec![
                    ShapedGlyph { glyph_id: 1, x: 0, y: 10 * PX_ONE },
                    ShapedGlyph { glyph_id: 2, x: 8 * PX_ONE, y: 10 * PX_ONE },
                ],
            }],
        }],
    }
}

fn resolve_all(fonts: &mut Fonts, job: &render_core::fonts::layout::LayoutJob, shaped: &ShapedText) {
    let requests = fonts.glyph_requests(job, PX_ONE, shaped);
    for req in &requests {
        let bitmap = RasterBitmap {
            width: 6,
            height: 10,
            left: 1,
            top: 8,
            alpha: vec![255; 60],
        };
        fonts.insert_glyph(&req.key, Some(bitmap));
    }
}

#[test]
fn layout_cache_idempotence() {
    let mut fonts = Fonts::new(1024);
    fonts.begin_frame();
    let job = build_layout_job("Hi", white(), PoBFontType::Fixed, 16, Some(Alignment::Min));
    let shaped = shaped_hi();
    assert!(fonts.layout_cached(&job, PX_ONE).is_none());
    resolve_all(&mut fonts, &job, &shaped);
    let first = fonts.commit_layout(&job, PX_ONE, &shaped);
    // A second query with a bit-identical job and scale in the same frame
    // returns the same cached instance, not a recomputation.
    let job_again = build_layout_job("Hi", white(), PoBFontType::Fixed, 16, Some(Alignment::Min));
    let second = fonts.layout_cached(&job_again, PX_ONE).expect("cached layout");
    assert!(Arc::ptr_eq(&first, &second));
    // A different scale is a different cache entry.
    assert!(fonts.layout_cached(&job, 2 * PX_ONE).is_none());
}

#[test]
fn generation_eviction() {
    let mut fonts = Fonts::new(1024);
    fonts.begin_frame();
    let job = build_layout_job("Hi", white(), PoBFontType::Fixed, 16, Some(Alignment::Min));
    let shaped = shaped_hi();
    resolve_all(&mut fonts, &job, &shaped);

    // Queried in frame one, not queried in frame two: evicted by the
    // start of frame three.
    fonts.commit_layout(&job, PX_ONE, &shaped);
    fonts.begin_frame(); // frame two starts; the layout survives one unused frame
    assert_eq!(fonts.layout_cache.entries.len(), 1);
    fonts.begin_frame(); // frame three starts; now it is gone
    assert!(fonts.layout_cached(&job, PX_ONE).is_none());

    // Queried every frame: never evicted.
    resolve_all(&mut fonts, &job, &shaped);
    fonts.commit_layout(&job, PX_ONE, &shaped);
    for _ in 0..5 {
        fonts.begin_frame();
        assert!(fonts.layout_cached(&job, PX_ONE).is_some());
    }
}

fn issue_frame(layers: &mut Layers) -> u64 {
    layers.reset();
    layers.set_viewport(Rect::new(Point::zero(), Point::new(800 * PX_ONE, 600 * PX_ONE)));
    layers.set_draw_color(Srgba([10, 20, 30, 255]));
    layers.draw_rect(
        None,
        Rect::new(Point::new(PX_ONE, PX_ONE), Point::new(50 * PX_ONE, 50 * PX_ONE)),
        Rect::new(Point::zero(), Point::new(PX_ONE, PX_ONE)),
        0,
    );
    layers.set_draw_layer(2, 1);
    layers.draw_rect(
        Some(9),
        Rect::new(Point::zero(), Point::new(10 * PX_ONE, 10 * PX_ONE)),
        Rect::new(Point::zero(), Point::new(PX_ONE, PX_ONE)),
        0,
    );
    layers.get_hash()
}

#[test]
fn frame_elision_on_identical_frames() {
    let mut layers = Layers::new();
    let h1 = issue_frame(&mut layers);
    layers.consume_layers();
    let h2 = issue_frame(&mut layers);
    layers.consume_layers();
    assert_eq!(h1, h2);
    assert!(frame_identical(h2, h1, true, false));
    // Pending texture uploads or a forced redraw suppress elision.
    assert!(!frame_identical(h2, h1, false, false));
    assert!(!frame_identical(h2, h1, true, true));

    // A frame with different content hashes differently.
    layers.reset();
    layers.set_viewport(Rect::new(Point::zero(), Point::new(800 * PX_ONE, 600 * PX_ONE)));
    layers.draw_rect(
        None,
        Rect::new(Point::zero(), Point::new(2 * PX_ONE, 2 * PX_ONE)),
        Rect::new(Point::zero(), Point::new(PX_ONE, PX_ONE)),
        0,
    );
    let h3 = layers.get_hash();
    assert_ne!(h1, h3);
    assert!(!frame_identical(h3, h1, true, false));
}

#[test]
fn layers_order_by_layer_key_then_insertion() {
    let mut layers = Layers::new();
    layers.set_viewport(Rect::new(Point::zero(), Point::new(100 * PX_ONE, 100 * PX_ONE)));
    let uv = Rect::new(Point::zero(), Point::new(PX_ONE, PX_ONE));
    let r = |x: i64| Rect::new(Point::new(x, 0), Point::new(x + PX_ONE, PX_ONE));
    layers.set_draw_layer(5, 0);
    layers.draw_rect(Some(1), r(PX_ONE), uv, 0);
    layers.set_draw_layer(0, 0);
    layers.draw_rect(Some(2), r(2 * PX_ONE), uv, 0);
    layers.set_draw_layer(5, 0);
    layers.draw_rect(Some(3), r(3 * PX_ONE), uv, 0);
    layers.set_draw_sublayer(-1);
    layers.draw_rect(Some(4), r(4 * PX_ONE), uv, 0);
    let prims = layers.consume_layers();
    let ids: Vec<u64> = prims.iter().map(|p| p.primitive.texture_id()).collect();
    // Ascending (layer, sublayer) order, insertion order within a bucket.
    assert_eq!(ids, vec![2, 4, 1, 3]);
}

fn rect_prim(clip: (i64, i64), tex: u64) -> ClippedPrimitive {
    ClippedPrimitive {
        clip_rect: Rect::new(Point::zero(), Point::new(clip.0, clip.1)),
        primitive: DrawPrimitive::Rect(RectPrimitive {
            rect: Rect::new(Point::zero(), Point::new(PX_ONE, PX_ONE)),
            color: Srgba([1, 2, 3, 4]),
            texture: Some(RectTexture {
                texture_id: tex,
                uv: Rect::new(Point::zero(), Point::new(PX_ONE, PX_ONE)),
                layer_idx: 0,
            }),
        }),
    }
}

#[test]
fn batch_merging_three_batches() {
    let clip_a = (400 * PX_ONE, 300 * PX_ONE);
    let clip_b = (500 * PX_ONE, 300 * PX_ONE);
    let prims = vec![
        rect_prim(clip_a, 11),
        rect_prim(clip_a, 11),
        rect_prim(clip_a, 12),
        rect_prim(clip_b, 12),
    ];
    let mut tess = Tessellator::new();
    let meshes = tess.convert_clipped_primitives(prims, Size::new(1024, 256));
    assert_eq!(meshes.len(), 3);
    // The first batch holds both same-clip same-texture rectangles.
    assert_eq!(meshes[0].mesh.vertices.len(), 8);
    assert_eq!(meshes[0].mesh.indices.len(), 12);
    assert_eq!(meshes[0].mesh.texture_id, 11);
    assert_eq!(meshes[1].mesh.vertices.len(), 4);
    assert_eq!(meshes[1].mesh.texture_id, 12);
    assert_eq!(meshes[2].mesh.vertices.len(), 4);
    assert_eq!(meshes[2].mesh.texture_id, 12);
    assert_eq!(meshes[2].clip_rect.max.x, clip_b.0);
}

#[test]
fn fully_clipped_primitives_are_dropped() {
    let prims = vec![rect_prim((0, 0), 11)];
    let mut tess = Tessellator::new();
    let meshes = tess.convert_clipped_primitives(prims, Size::new(1024, 256));
    assert_eq!(meshes.len(), 0);
}

#[test]
fn end_to_end_text_frame() {
    // One frame: a viewport, one short string, one non-empty batch bound
    // to the font atlas texture.
    let mut fonts = Fonts::new(1024);
    fonts.begin_frame();
    let job = build_layout_job("Hi", white(), PoBFontType::Fixed, 16, Some(Alignment::Min));
    let shaped = shaped_hi();
    resolve_all(&mut fonts, &job, &shaped);
    let layout = fonts.commit_layout(&job, PX_ONE, &shaped);
    assert_eq!(layout.rows.len(), 1);
    assert_eq!(layout.rows[0].glyphs.len(), 2);
    assert_eq!(layout.num_of_vertices, 8);
    assert_eq!(layout.num_of_indices, 12);
    assert_eq!(fonts.get_text_width(&job, PX_ONE), Some(16));

    let mut layers = Layers::new();
    let viewport = Rect::new(Point::zero(), Point::new(800 * PX_ONE, 600 * PX_ONE));
    layers.set_viewport(viewport);
    layers.draw_text(Point::new(10 * PX_ONE, 10 * PX_ONE), layout, false);
    let prims = layers.consume_layers();
    assert_eq!(prims.len(), 1);

    let mut tess = Tessellator::new();
    let meshes = tess.convert_clipped_primitives(prims, fonts.font_atlas().size());
    assert_eq!(meshes.len(), 1);
    assert_eq!(meshes[0].clip_rect.min.x, 0);
    assert_eq!(meshes[0].clip_rect.min.y, 0);
    assert_eq!(meshes[0].clip_rect.max.x, 800 * PX_ONE);
    assert_eq!(meshes[0].clip_rect.max.y, 600 * PX_ONE);
    // Text binds the reserved font atlas texture.
    assert_eq!(meshes[0].mesh.texture_id, 0);
    assert_eq!(meshes[0].mesh.vertices.len(), 8);
    assert!(!meshes[0].mesh.vertices.is_empty());
}

#[test]
fn whitespace_only_text_emits_no_batch() {
    // A glyph cached as "renders nothing" contributes no geometry, and a
    // batch left empty is discarded rather than submitted.
    let mut fonts = Fonts::new(1024);
    fonts.begin_frame();
    let job = build_layout_job(" ", white(), PoBFontType::Fixed, 16, None);
    let shaped = ShapedText {
        full_width: 8 * PX_ONE,
        lines: vec![ShapedLine {
            runs: vec![ShapedRun {
                font_blob_id: 7,
                font_size: 14 * PX_ONE,
                normalized_coords: vec![],
                skew: 0,
                color: white(),
                glyphs: vec![ShapedGlyph { glyph_id: 3, x: 0, y: 0 }],
            }],
        }],
    };
    let requests = fonts.glyph_requests(&job, PX_ONE, &shaped);
    for req in &requests {
        fonts.insert_glyph(&req.key, None);
    }
    let layout = fonts.commit_layout(&job, PX_ONE, &shaped);
    assert_eq!(layout.rows.len(), 0);

    let mut layers = Layers::new();
    layers.set_viewport(Rect::new(Point::zero(), Point::new(800 * PX_ONE, 600 * PX_ONE)));
    layers.draw_text(Point::zero(), layout, false);
    let prims = layers.consume_layers();
    let mut tess = Tessellator::new();
    let meshes = tess.convert_clipped_primitives(prims, fonts.font_atlas().size());
    assert_eq!(meshes.len(), 0);
}

#[test]
fn atlas_overflow_clears_caches_together() {
    let mut fonts = Fonts::new(1024);
    fonts.begin_frame();
    let job = build_layout_job("Hi", white(), PoBFontType::Fixed, 16, Some(Alignment::Min));
    let shaped = shaped_hi();
    resolve_all(&mut fonts, &job, &shaped);
    fonts.commit_layout(&job, PX_ONE, &shaped);
    assert!(fonts.layout_cached(&job, PX_ONE).is_some());

    // Two huge glyphs overflow the atlas; the next frame start must
    // clear atlas, glyph cache and layout cache together, since cached
    // regions point into the discarded bitmap.
    for id in 0..2u16 {
        let key = GlyphKey {
            glyph_id: 1000 + id,
            style_id: 0,
            x_bin: SubpixelBin(0),
            pixels_per_point: PX_ONE,
        };
        let bitmap = RasterBitmap {
            width: 1000,
            height: 900,
            left: 0,
            top: 0,
            alpha: vec![128; 900_000],
        };
        fonts.insert_glyph(&key, Some(bitmap));
    }
    assert!(fonts.font_atlas().needs_clear());
    fonts.begin_frame();
    assert!(!fonts.font_atlas().is_overflowed());
    assert!(fonts.layout_cached(&job, PX_ONE).is_none());
    let probe = GlyphKey {
        glyph_id: 1000,
        style_id: 0,
        x_bin: SubpixelBin(0),
        pixels_per_point: PX_ONE,
    };
    assert!(fonts.glyph_lookup(&probe).is_none());
}
