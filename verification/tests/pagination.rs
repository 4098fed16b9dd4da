//! Behavioural tests for the pagination driver.

use scorefall::layout::{
    paginate, viewport_width_units, HighlightRect, MeasureLayout, Primitive, Rect, STAVE_SPACE,
};

fn plain(width: u32) -> MeasureLayout {
    MeasureLayout { primitives: vec![], width, highlight: None }
}

fn with_highlight(width: u32, r: Rect) -> MeasureLayout {
    MeasureLayout { primitives: vec![], width, highlight: Some(r) }
}

#[test]
fn fixed_width_page_renders_exact_count() {
    // Five measures of width 100; the viewport fits exactly two of
    // them past the stave margin.
    let layouts: Vec<MeasureLayout> = (0..5).map(|_| plain(100)).collect();
    let viewport = STAVE_SPACE + 2 * 100;
    let page = paginate(layouts, viewport);
    assert_eq!(page.placed.len(), 2);
    assert_eq!(page.placed[0].offset, STAVE_SPACE as u64);
    assert_eq!(page.placed[1].offset, STAVE_SPACE as u64 + 100);
    // Offset after the last rendered measure reaches the viewport
    // width; the offset before it was still short of it.
    assert!(STAVE_SPACE + 2 * 100 >= viewport);
    assert!(STAVE_SPACE + 100 < viewport);
    assert_eq!(page.highlight, None);
}

#[test]
fn pagination_is_deterministic() {
    let build = || {
        vec![
            with_highlight(300, Rect { x: 7, y: 2, width: 40, height: 50 }),
            plain(500),
            plain(200),
        ]
    };
    let first = paginate(build(), 1700);
    let second = paginate(build(), 1700);
    assert_eq!(first, second);
}

#[test]
fn pagination_stops_at_last_measure() {
    let layouts = vec![plain(100), plain(100)];
    let page = paginate(layouts, 50_000);
    assert_eq!(page.placed.len(), 2);
}

#[test]
fn first_measure_always_rendered() {
    let layouts = vec![plain(100_000)];
    let page = paginate(layouts, STAVE_SPACE + 200);
    assert_eq!(page.placed.len(), 1);
}

#[test]
fn empty_document_renders_nothing() {
    let page = paginate(vec![], 10_000);
    assert_eq!(page.placed.len(), 0);
    assert_eq!(page.highlight, None);
}

#[test]
fn highlight_is_translated_by_measure_offset() {
    let layouts = vec![
        plain(500),
        with_highlight(400, Rect { x: 10, y: 5, width: 20, height: 30 }),
    ];
    let page = paginate(layouts, 50_000);
    // The second measure starts one margin plus one width in.
    assert_eq!(
        page.highlight,
        Some(HighlightRect {
            x: 10 + (STAVE_SPACE as i64 + 500),
            y: 5,
            width: 20,
            height: 30,
        })
    );
}

#[test]
fn later_highlight_wins() {
    let layouts = vec![
        with_highlight(500, Rect { x: 1, y: 1, width: 1, height: 1 }),
        with_highlight(400, Rect { x: 2, y: 2, width: 2, height: 2 }),
    ];
    let page = paginate(layouts, 50_000);
    assert_eq!(
        page.highlight,
        Some(HighlightRect {
            x: 2 + (STAVE_SPACE as i64 + 500),
            y: 2,
            width: 2,
            height: 2,
        })
    );
}

#[test]
fn primitives_are_carried_through_unchanged() {
    let prims = vec![
        Primitive::Rect(Rect { x: 0, y: 0, width: 10, height: 4 }),
        Primitive::Glyph { id: 0xE050, x: 3, y: 8 },
        Primitive::Path { d: String::from("M 0 0 L 4 4") },
    ];
    let layouts = vec![MeasureLayout {
        primitives: prims.clone(),
        width: 800,
        highlight: None,
    }];
    let page = paginate(layouts, 50_000);
    assert_eq!(page.placed.len(), 1);
    assert_eq!(page.placed[0].primitives, prims);
}

#[test]
fn failed_measure_is_skipped_not_fatal() {
    // The middle measure could not be rendered: its primitives are
    // skipped, but it keeps its width, so the page neither aborts nor
    // shifts the measures after it.
    let prims = vec![Primitive::Glyph { id: 0xE0A2, x: 1, y: 1 }];
    let layouts = vec![
        MeasureLayout { primitives: prims.clone(), width: 300, highlight: None },
        MeasureLayout::failed(250),
        MeasureLayout { primitives: prims.clone(), width: 300, highlight: None },
    ];
    let page = paginate(layouts, 50_000);
    assert_eq!(page.placed.len(), 3);
    assert_eq!(page.placed[1].primitives.len(), 0);
    assert_eq!(page.placed[2].offset, STAVE_SPACE as u64 + 300 + 250);
    assert_eq!(page.placed[2].primitives, prims);
}

#[test]
fn viewport_width_from_pixels() {
    // 64000 * 1920 / 1080 == 113777 (integer division).
    assert_eq!(viewport_width_units(1920, 1080), 113_777);
    // A square viewport spans exactly the fixed vertical scale.
    assert_eq!(viewport_width_units(1000, 1000), 64_000);
    // An absurdly wide viewport saturates.
    assert_eq!(viewport_width_units(u32::MAX, 1), u32::MAX);
}
