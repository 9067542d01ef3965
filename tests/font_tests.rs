use std::sync::Arc;

use gfx_font::font::{
    BackendType, Color, DrawOptions, Font, FontGroup, RunMetrics, TextDecoration, TextRun,
    DEFAULT_DRAW_FIELDS, FALLBACK_ADVANCE, NOTDEF_GLYPH,
};
use gfx_font::geometry::{to_nearest_px, Au, Point2D, Rect, Size2D};
use gfx_font::glyph::{CharRange, GlyphEntry, GlyphStore, PositionedGlyph};
use gfx_font::platform::{
    FontHandle, FontHandleMethods, FontTable, FontTableMethods, FontTableTagConversions,
};
use gfx_font::style::{
    FontDescriptor, FontMetrics, FontSelector, FontSlant, FontStyle, FontWeight,
};

fn metrics(ascent: i32, descent: i32) -> FontMetrics {
    FontMetrics {
        underline_size: Au(60),
        underline_offset: Au(-120),
        strikeout_size: Au(60),
        strikeout_offset: Au(240),
        leading: Au(0),
        x_height: Au(300),
        em_size: Au(720),
        ascent: Au(ascent),
        descent: Au(descent),
        max_advance: Au(720),
    }
}

fn handle(id: &str, cmap: Vec<(char, u32)>, advances: Vec<(u32, Au)>) -> FontHandle {
    FontHandle {
        face_identifier: id.to_string(),
        family_name: "Serif".to_string(),
        face_name: "Serif Regular".to_string(),
        italic: false,
        boldness: FontWeight::Weight400,
        metrics: metrics(11, 3),
        cmap,
        advances,
        tables: vec![(0x68656164, FontTable { data: vec![1, 2, 3] })],
    }
}

fn style() -> FontStyle {
    FontStyle::new(1200, FontWeight::Weight400, FontSlant::Normal, vec!["Serif".to_string()])
}

fn abc_font() -> Font {
    let h = handle(
        "/fonts/serif.ttf",
        vec![('a', 1), ('b', 2), ('c', 3)],
        vec![(1, Au(300)), (2, Au(-60)), (3, Au(360))],
    );
    Font::new_from_adopted_handle(h, &style(), BackendType::Skia)
}

fn store(advances: &[i32]) -> GlyphStore {
    let mut s = GlyphStore::new(advances.len(), false);
    for (i, a) in advances.iter().enumerate() {
        s.add_glyph(GlyphEntry { id: i as u32 + 1, advance: Au(*a), offset: None, char_index: i });
    }
    s
}

#[test]
fn measure_three_glyph_scenario() {
    let font = abc_font();
    let glyphs = store(&[5, -1, 6]);
    let m = font.measure_text_for_slice(&glyphs, &CharRange::new(0, 3));
    let expected = RunMetrics {
        advance_width: Au(10),
        ascent: Au(11),
        descent: Au(3),
        bounding_box: Rect {
            origin: Point2D { x: Au(0), y: Au(-11) },
            size: Size2D { width: Au(10), height: Au(14) },
        },
    };
    assert_eq!(m, expected);
    assert_eq!(RunMetrics::new(Au(10), Au(11), Au(3)), expected);
}

#[test]
fn measure_text_of_run_uses_font_metrics() {
    let mut font = abc_font();
    let run = TextRun::new(&mut font, "abc".to_string(), TextDecoration::default_none());
    let m = font.measure_text(&run, &CharRange::new(0, 3));
    assert_eq!(m.advance_width, Au(600));
    assert_eq!(m.ascent, Au(11));
    assert_eq!(m.descent, Au(3));
    assert_eq!(m.bounding_box.size.height, Au(14));
    let part = font.measure_text(&run, &CharRange::new(1, 1));
    assert_eq!(part.advance_width, Au(-60));
}

#[test]
fn measurement_is_additive_over_partitions() {
    let font = abc_font();
    let glyphs = store(&[5, -1, 6, 7, -3]);
    let whole = font.measure_text_for_slice(&glyphs, &CharRange::new(0, 5)).advance_width.0;
    let cuts = [0usize, 1, 1, 4, 5];
    let mut sum = 0;
    for w in cuts.windows(2) {
        sum += font.measure_text_for_slice(&glyphs, &CharRange::new(w[0], w[1] - w[0])).advance_width.0;
    }
    assert_eq!(whole, 14);
    assert_eq!(sum, whole);
}

#[test]
fn shaping_twice_returns_the_same_store() {
    let mut font = abc_font();
    let first = font.shape_text("cab".to_string(), false);
    let second = font.shape_text("cab".to_string(), true);
    assert!(Arc::ptr_eq(&first, &second));
    assert_eq!(first.entries, second.entries);
    assert!(!second.is_whitespace);
    assert_eq!(font.shape_cache.entries.len(), 1);
    let ids: Vec<u32> = first.entries.iter().map(|g| g.id).collect();
    assert_eq!(ids, vec![3, 1, 2]);
    let advances: Vec<Au> = first.entries.iter().map(|g| g.advance).collect();
    assert_eq!(advances, vec![Au(360), Au(300), Au(-60)]);
    assert!(font.shaper.is_some());
}

#[test]
fn shaping_new_text_grows_the_cache() {
    let mut font = abc_font();
    let a = font.shape_text("ab".to_string(), false);
    let b = font.shape_text(" ".to_string(), true);
    assert!(!Arc::ptr_eq(&a, &b));
    assert_eq!(font.shape_cache.entries.len(), 2);
    assert!(b.is_whitespace);
    assert_eq!(b.char_len, 1);
    assert_eq!(b.entries[0].id, NOTDEF_GLYPH);
    assert_eq!(b.entries[0].advance, Au(FALLBACK_ADVANCE));
}

#[test]
fn shaping_empty_text() {
    let mut font = abc_font();
    let g = font.shape_text(String::new(), false);
    assert_eq!(g.char_len, 0);
    assert!(g.entries.is_empty());
}

#[test]
fn glyph_advance_is_stable_and_falls_back() {
    let mut font = abc_font();
    assert_eq!(font.glyph_h_advance(2), Au(-60));
    assert_eq!(font.glyph_h_advance(2), Au(-60));
    assert_eq!(font.glyph_h_advance(99), Au(FALLBACK_ADVANCE));
    assert_eq!(font.glyph_h_advance(99), Au(600));
    assert_eq!(font.glyph_advance_cache.len(), 2);
}

#[test]
fn descriptor_round_trip() {
    let mut font = abc_font();
    font.shape_text("abc".to_string(), false);
    let desc = font.get_descriptor();
    let FontSelector::SelectorPlatformIdentifier(id) = &desc.selector;
    assert_eq!(id, "/fonts/serif.ttf");
    let reloaded = handle(
        id,
        vec![('a', 1), ('b', 2), ('c', 3)],
        vec![(1, Au(300)), (2, Au(-60)), (3, Au(360))],
    );
    let other = Font::new_from_adopted_handle(reloaded, &desc.style, BackendType::Cairo);
    assert_eq!(other.metrics, font.metrics);
    assert!(other.style == font.style);
    assert!(other.get_descriptor() == desc);
    assert_eq!(other.handle.family_name(), font.handle.family_name());
    assert_eq!(other.handle.boldness(), font.handle.boldness());
    assert_eq!(other.handle.is_italic(), font.handle.is_italic());
    assert!(other.shape_cache.entries.is_empty());
    assert!(other.glyph_advance_cache.is_empty());
}

#[test]
fn descriptors_differ_by_selector_and_style() {
    let font = abc_font();
    let d = font.get_descriptor();
    let other_face = FontDescriptor::new(
        style(),
        FontSelector::SelectorPlatformIdentifier("/fonts/sans.ttf".to_string()),
    );
    assert!(d != other_face);
    let bigger = FontStyle::new(1400, FontWeight::Weight400, FontSlant::Normal, vec!["Serif".to_string()]);
    let other_style = FontDescriptor::new(
        bigger,
        FontSelector::SelectorPlatformIdentifier("/fonts/serif.ttf".to_string()),
    );
    assert!(d != other_style);
    assert!(d.clone() == d);
}

#[test]
fn new_from_buffer_reports_load_failure() {
    assert!(Font::new_from_buffer(Err(()), &style(), BackendType::Skia).is_err());
    let h = handle("/fonts/serif.ttf", vec![], vec![]);
    let f = Font::new_from_buffer(Ok(h), &style(), BackendType::Skia).unwrap();
    assert_eq!(f.metrics.ascent, Au(11));
    assert!(f.azure_font.is_none());
    assert!(f.shaper.is_none());
}

#[test]
fn draw_empty_range_makes_no_call() {
    let mut font = abc_font();
    let run = TextRun::new(&mut font, "abc".to_string(), TextDecoration::default_none());
    let color = Color { r: 0, g: 0, b: 0, a: 255 };
    let call = font.draw_text_into_context(&run, &CharRange::new(1, 0), Point2D::zero(), color);
    assert!(call.is_none());
    assert!(font.azure_font.is_none());
    let call = font.draw_text_into_context(&run, &CharRange::new(3, 0), Point2D::zero(), color);
    assert!(call.is_none());
    assert!(font.azure_font.is_none());
}

#[test]
fn shaping_again_after_other_calls_returns_the_same_store() {
    let mut font = abc_font();
    let first = font.shape_text("ab".to_string(), false);
    font.glyph_h_advance(3);
    font.shape_text("c".to_string(), false);
    let run = TextRun::new(&mut font, "ca".to_string(), TextDecoration::default_none());
    font.draw_text_into_context(&run, &CharRange::new(0, 2), Point2D::zero(), Color { r: 0, g: 0, b: 0, a: 255 });
    let again = font.shape_text("ab".to_string(), true);
    assert!(Arc::ptr_eq(&first, &again));
    assert_eq!(font.shape_cache.entries.len(), 3);
    assert_eq!(font.glyph_h_advance(3), Au(360));
}

#[test]
fn draw_places_glyphs_at_rounded_pen_positions() {
    let mut font = abc_font();
    let run = TextRun::new(&mut font, "abc".to_string(), TextDecoration::default_none());
    let color = Color { r: 10, g: 20, b: 30, a: 255 };
    let origin = Point2D::new(Au(600), Au(1200));
    let call = font
        .draw_text_into_context(&run, &CharRange::new(0, 3), origin, color)
        .unwrap();
    assert_eq!(
        call.glyphs,
        vec![
            PositionedGlyph { id: 1, x: 10, y: 20 },
            PositionedGlyph { id: 2, x: 15, y: 20 },
            PositionedGlyph { id: 3, x: 14, y: 20 },
        ]
    );
    assert_eq!(call.pattern.color, color);
    assert_eq!(call.options, DrawOptions { alpha: 255, fields: DEFAULT_DRAW_FIELDS });
    assert_eq!(call.font.face_identifier, "/fonts/serif.ttf");
    assert_eq!(call.font.pt_size, 1200);
    assert_eq!(call.font.backend, BackendType::Skia);
    assert!(font.azure_font.is_some());
    let again = font
        .draw_text_into_context(&run, &CharRange::new(2, 1), origin, color)
        .unwrap();
    assert_eq!(again.glyphs, vec![PositionedGlyph { id: 3, x: 10, y: 20 }]);
}

#[test]
fn draw_uses_glyph_offsets() {
    let mut font = abc_font();
    let mut s = GlyphStore::new(1, false);
    s.add_glyph(GlyphEntry {
        id: 7,
        advance: Au(120),
        offset: Some(Point2D::new(Au(45), Au(-29))),
        char_index: 0,
    });
    let run = TextRun {
        text: "x".to_string(),
        decoration: TextDecoration::default_none(),
        glyphs: Arc::new(s),
    };
    let call = font
        .draw_text_into_context(&run, &CharRange::new(0, 1), Point2D::zero(), Color { r: 0, g: 0, b: 0, a: 0 })
        .unwrap();
    assert_eq!(call.glyphs, vec![PositionedGlyph { id: 7, x: 1, y: 0 }]);
}

#[test]
fn group_shapes_with_its_first_font_only() {
    let a = abc_font();
    let b = Font::new_from_adopted_handle(
        handle("/fonts/other.ttf", vec![('x', 40), ('a', 41)], vec![(40, Au(100))]),
        &style(),
        BackendType::Skia,
    );
    let mut group = FontGroup::new(vec!["Serif".to_string(), "Other".to_string()], &style(), vec![a, b]);
    let run = group.create_textrun("ax".to_string(), TextDecoration::default_none());
    let ids: Vec<u32> = run.glyphs.entries.iter().map(|g| g.id).collect();
    assert_eq!(ids, vec![1, NOTDEF_GLYPH]);
    assert_eq!(run.text, "ax");
    assert_eq!(group.fonts[0].shape_cache.entries.len(), 1);
    assert!(group.fonts[1].shape_cache.entries.is_empty());
    assert!(group.fonts[1].shaper.is_none());
}

#[test]
fn glyph_index_and_tables() {
    let font = abc_font();
    assert_eq!(font.glyph_index('b'), Some(2));
    assert_eq!(font.glyph_index('z'), None);
    let t = font.get_table_for_tag(0x68656164).unwrap();
    assert_eq!(t.buffer(), &[1u8, 2, 3][..]);
    assert!(font.get_table_for_tag(0x676c7966).is_none());
}

#[test]
fn tag_to_str_reads_high_byte_first() {
    assert_eq!(0x68656164u32.tag_to_str(), "head");
    assert_eq!(0x4f532f32u32.tag_to_str(), "OS/2");
}

#[test]
fn nearest_px_rounds_halves_away_from_zero() {
    assert_eq!(to_nearest_px(30), 1);
    assert_eq!(to_nearest_px(29), 0);
    assert_eq!(to_nearest_px(-30), -1);
    assert_eq!(to_nearest_px(-29), 0);
    assert_eq!(to_nearest_px(125), 2);
}

#[test]
fn first_cmap_entry_wins() {
    let h = handle("f", vec![('a', 5), ('a', 6)], vec![(5, Au(1)), (5, Au(2))]);
    assert_eq!(h.glyph_index('a'), Some(5));
    assert_eq!(h.glyph_h_advance(5), Some(Au(1)));
    assert_eq!(h.glyph_h_advance(6), None);
    assert_eq!(h.face_identifier(), "f");
}

#[test]
fn fallback_advance_can_be_configured() {
    let mut font = abc_font();
    assert_eq!(font.glyph_h_advance(42), Au(600));
    font.shape_text("z".to_string(), false);
    let mut font = font.with_fallback_advance(Au(240));
    assert!(font.shape_cache.entries.is_empty());
    assert_eq!(font.glyph_h_advance(42), Au(240));
    assert_eq!(font.glyph_h_advance(1), Au(300));
    let g = font.shape_text("z".to_string(), false);
    assert_eq!(g.entries[0].advance, Au(240));
}
