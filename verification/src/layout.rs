//! The pagination driver.
//!
//! A layout backend turns one measure's musical content into a list of
//! drawing primitives, a rendered width, and — when the selected
//! marking falls inside that measure — a highlight rectangle in the
//! measure's local coordinate space.  This driver owns the global
//! layout: it places measures left to right from index 0, starting one
//! stave-space margin in, stops exactly after the measure whose right
//! edge meets or passes the viewport width (or after the document's
//! last measure, whichever comes first), and translates the local
//! highlight rectangle into page coordinates.
//!
//! The driver is a pure function of its inputs, so re-running it after
//! a resize with the same per-measure layouts yields the same page.

use vstd::prelude::*;

verus! {

/// Layout units per stave space; also the left margin the first
/// measure is placed at.
pub const STAVE_SPACE: u32 = 1000;

/// Height of the viewport, in stave spaces: the fixed vertical scale
/// the visible width is derived from.
pub const VIEWPORT_HEIGHT_SPACES: u32 = 64;

/// A rectangle in a measure's local coordinate space.
#[derive(Clone, Copy, PartialEq, Eq, Structural, Debug)]
pub struct Rect {
    pub x: i32,
    pub y: i32,
    pub width: u32,
    pub height: u32,
}

/// The cursor-highlight rectangle, in page coordinates.
#[derive(Clone, Copy, PartialEq, Eq, Structural, Debug)]
pub struct HighlightRect {
    pub x: i64,
    pub y: i32,
    pub width: u32,
    pub height: u32,
}

/// One primitive drawing instruction, in a measure's local
/// coordinates.
#[derive(Clone, PartialEq, Eq, Debug)]
pub enum Primitive {
    /// A filled rectangle.
    Rect(Rect),
    /// A glyph stamp, referenced by identifier.
    Glyph { id: u64, x: i32, y: i32 },
    /// A path, in the backend's path-data syntax.
    Path { d: String },
}

/// What the layout backend produced for one measure.
#[derive(Clone, PartialEq, Eq, Debug)]
pub struct MeasureLayout {
    /// The measure's drawing primitives, in local coordinates.
    pub primitives: Vec<Primitive>,
    /// The measure's rendered width, in layout units.
    pub width: u32,
    /// The selected marking's rectangle, when it lies in this measure.
    pub highlight: Option<Rect>,
}

/// One measure placed on the page.
#[derive(Clone, PartialEq, Eq, Debug)]
pub struct PlacedMeasure {
    /// Horizontal offset of the measure's left edge, in layout units.
    pub offset: u64,
    /// The measure's drawing primitives, still in local coordinates.
    pub primitives: Vec<Primitive>,
}

/// A rendered page: the placed measures, in index order from measure
/// 0, and the selected marking's rectangle in page coordinates when it
/// fell on the page.
#[derive(Clone, PartialEq, Eq, Debug)]
pub struct Page {
    pub placed: Vec<PlacedMeasure>,
    pub highlight: Option<HighlightRect>,
}

impl MeasureLayout {
    /// What a measure the backend failed to render contributes to the
    /// page: no primitives and no highlight, but still its width, so
    /// one corrupt measure is skipped rather than blanking the whole
    /// page or shifting its neighbours.
    pub fn failed(width: u32) -> (r: MeasureLayout)
        ensures
            r.primitives@.len() == 0,
            r.width == width,
            r.highlight is None,
    {
        MeasureLayout { primitives: Vec::new(), width, highlight: None }
    }
}

/// Horizontal offset of measure `i`'s left edge: one stave-space
/// margin plus the widths of the measures before it.
pub open spec fn offset_at(ls: Seq<MeasureLayout>, i: int) -> int
    decreases i,
{
    if i <= 0 {
        STAVE_SPACE as int
    } else {
        offset_at(ls, i - 1) + ls[i - 1].width
    }
}

/// `n` is the number of measures the driver renders: the first measure
/// is always rendered, rendering continues while the running offset
/// stays below the viewport width, and it never runs past the last
/// measure the document has.
pub open spec fn is_rendered_count(ls: Seq<MeasureLayout>, v: int, n: int) -> bool {
    &&& 0 <= n <= ls.len()
    &&& (ls.len() > 0 ==> n >= 1)
    &&& (forall|j: int| 1 <= j < n ==> offset_at(ls, j) < v)
    &&& (n < ls.len() ==> offset_at(ls, n) >= v)
}

/// The local rectangle `r`, shifted right by the measure's page
/// offset.
pub open spec fn spec_translate(r: Rect, off: int) -> HighlightRect {
    HighlightRect { x: (r.x + off) as i64, y: r.y, width: r.width, height: r.height }
}

/// The page-coordinate highlight rectangle after the first `n`
/// measures: the translated rectangle of the last of them that
/// reported one, if any did.
pub open spec fn spec_highlight(ls: Seq<MeasureLayout>, n: int) -> Option<HighlightRect>
    decreases n,
{
    if n <= 0 {
        None
    } else {
        match ls[n - 1].highlight {
            Some(r) => Some(spec_translate(r, offset_at(ls, n - 1))),
            None => spec_highlight(ls, n - 1),
        }
    }
}

/// Everything [`paginate`] promises of the page it returns.
pub open spec fn paginate_post(ls: Seq<MeasureLayout>, v: int, page: Page) -> bool {
    let n = page.placed@.len() as int;
    &&& is_rendered_count(ls, v, n)
    &&& forall|j: int| 0 <= j < n ==> (#[trigger] page.placed@[j]).offset == offset_at(ls, j)
    &&& forall|j: int|
        0 <= j < n ==> (#[trigger] page.placed@[j]).primitives == ls[j].primitives
    &&& page.highlight == spec_highlight(ls, n)
}

/// Lays the given per-measure layouts out into a viewport of the given
/// width, in layout units.
///
/// Measures are placed in index order from measure 0; each measure is
/// rendered at the running offset, then the offset advances by the
/// measure's width; the pass stops once the offset meets or passes the
/// viewport width, or after the last measure. The highlight rectangle
/// reported by a rendered measure is translated by that measure's
/// offset into page coordinates.
pub fn paginate(layouts: Vec<MeasureLayout>, viewport_width: u32) -> (page: Page)
    ensures
        paginate_post(layouts@, viewport_width as int, page),
{
    let ghost ls = layouts@;
    let total = layouts.len();
    let mut rest = layouts;
    let mut placed: Vec<PlacedMeasure> = Vec::new();
    let mut highlight: Option<HighlightRect> = None;
    let mut offset: u64 = STAVE_SPACE as u64;
    let mut i: usize = 0;
    while i < total
        invariant_except_break
            offset <= u32::MAX as u64,
            forall|j: int| 1 <= j <= i ==> offset_at(ls, j) < viewport_width as int,
        invariant
            total == ls.len(),
            i <= total,
            rest@ == ls.subrange(i as int, total as int),
            placed@.len() == i,
            offset == offset_at(ls, i as int),
            forall|j: int| 0 <= j < i ==> (#[trigger] placed@[j]).offset == offset_at(ls, j),
            forall|j: int| 0 <= j < i ==> (#[trigger] placed@[j]).primitives == ls[j].primitives,
            highlight == spec_highlight(ls, i as int),
            forall|j: int| 1 <= j < i ==> offset_at(ls, j) < viewport_width as int,
        ensures
            placed@.len() == i,
            i <= total,
            i == total || offset_at(ls, i as int) >= viewport_width as int,
            total > 0 ==> i >= 1,
            forall|j: int| 0 <= j < i ==> (#[trigger] placed@[j]).offset == offset_at(ls, j),
            forall|j: int| 0 <= j < i ==> (#[trigger] placed@[j]).primitives == ls[j].primitives,
            highlight == spec_highlight(ls, i as int),
            forall|j: int| 1 <= j < i ==> offset_at(ls, j) < viewport_width as int,
        decreases total - i,
    {
        let ml = rest.remove(0);
        proof {
            assert(ml == ls[i as int]);
            assert(rest@ =~= ls.subrange(i + 1, total as int));
        }
        match ml.highlight {
            Some(r) => {
                highlight = Some(
                    HighlightRect {
                        x: r.x as i64 + offset as i64,
                        y: r.y,
                        width: r.width,
                        height: r.height,
                    },
                );
            },
            None => {},
        }
        let width = ml.width;
        placed.push(PlacedMeasure { offset, primitives: ml.primitives });
        offset = offset + width as u64;
        i = i + 1;
        if offset >= viewport_width as u64 {
            break;
        }
    }
    Page { placed, highlight }
}

/// Derives the visible width in layout units from the host viewport's
/// pixel size: the fixed vertical span times the aspect ratio,
/// saturating at the widest representable viewport.  Recompute this on
/// every resize, then re-run [`paginate`] from measure 0.
pub open spec fn spec_viewport_width(width_px: int, height_px: int) -> int {
    let exact = (STAVE_SPACE * VIEWPORT_HEIGHT_SPACES * width_px) / height_px;
    if exact > u32::MAX {
        u32::MAX as int
    } else {
        exact
    }
}

/// Computes the viewport width in layout units from the host
/// viewport's pixel size.
pub fn viewport_width_units(width_px: u32, height_px: u32) -> (v: u32)
    requires
        height_px >= 1,
    ensures
        v as int == spec_viewport_width(width_px as int, height_px as int),
{
    proof {
        assert(64000u64 * (width_px as u64) <= 0xffff_ffff_ffff_ffffu64) by (nonlinear_arith)
            requires
                width_px <= 0xffff_ffffu32,
        ;
        assert(64000 * (width_px as int) == STAVE_SPACE * VIEWPORT_HEIGHT_SPACES * (width_px as int))
            by (nonlinear_arith);
    }
    let num: u64 = 64000u64 * (width_px as u64);
    let q: u64 = num / (height_px as u64);
    if q > u32::MAX as u64 {
        u32::MAX
    } else {
        q as u32
    }
}

/// Exactly one measure count satisfies the driver's stopping rule.
pub proof fn lemma_rendered_count_unique(ls: Seq<MeasureLayout>, v: int, n1: int, n2: int)
    requires
        is_rendered_count(ls, v, n1),
        is_rendered_count(ls, v, n2),
    ensures
        n1 == n2,
{
    if n1 < n2 {
        assert(offset_at(ls, n1) >= v);
        assert(offset_at(ls, n1) < v);
    }
    if n2 < n1 {
        assert(offset_at(ls, n2) >= v);
        assert(offset_at(ls, n2) < v);
    }
}

/// Pagination is deterministic: two pages produced from the same
/// per-measure layouts and the same viewport width are identical, in
/// their placed measures and in their highlight rectangle.
pub proof fn lemma_paginate_deterministic(ls: Seq<MeasureLayout>, v: int, a: Page, b: Page)
    requires
        paginate_post(ls, v, a),
        paginate_post(ls, v, b),
    ensures
        a.placed@ == b.placed@,
        a.highlight == b.highlight,
{
    lemma_rendered_count_unique(ls, v, a.placed@.len() as int, b.placed@.len() as int);
    assert forall|j: int| 0 <= j < a.placed@.len() implies a.placed@[j] == b.placed@[j] by {
        assert(a.placed@[j].offset == offset_at(ls, j));
        assert(a.placed@[j].primitives == ls[j].primitives);
        assert(b.placed@[j].offset == offset_at(ls, j));
        assert(b.placed@[j].primitives == ls[j].primitives);
    }
    assert(a.placed@ =~= b.placed@);
}

/// With measures of one fixed width, offsets grow linearly.
pub proof fn lemma_offset_linear(ls: Seq<MeasureLayout>, w: int, i: int)
    requires
        forall|j: int| 0 <= j < ls.len() ==> (#[trigger] ls[j]).width == w,
        0 <= i <= ls.len(),
    ensures
        offset_at(ls, i) == STAVE_SPACE + i * w,
    decreases i,
{
    if i > 0 {
        lemma_offset_linear(ls, w, i - 1);
        assert(ls[i - 1].width == w);
        assert(offset_at(ls, i) == offset_at(ls, i - 1) + w);
        assert((i - 1) * w + w == i * w) by (nonlinear_arith);
        assert(offset_at(ls, i) == STAVE_SPACE + (i - 1) * w + w);
    } else {
        assert(offset_at(ls, i) == STAVE_SPACE as int);
        assert(i * w == 0) by (nonlinear_arith)
            requires
                i == 0,
        ;
    }
}

/// A viewport that fits exactly `k` fixed-width measures renders
/// exactly `k` measures, starting at index 0: the running offset after
/// the last rendered measure meets or passes the viewport width, while
/// the offset before it was still short of it.
pub proof fn lemma_fixed_width_page(ls: Seq<MeasureLayout>, w: int, k: int, v: int)
    requires
        1 <= k <= ls.len(),
        w >= 1,
        forall|j: int| 0 <= j < ls.len() ==> (#[trigger] ls[j]).width == w,
        STAVE_SPACE + (k - 1) * w < v <= STAVE_SPACE + k * w,
    ensures
        is_rendered_count(ls, v, k),
        offset_at(ls, k) >= v,
        offset_at(ls, k - 1) < v,
{
    lemma_offset_linear(ls, w, k);
    lemma_offset_linear(ls, w, k - 1);
    assert forall|j: int| 1 <= j < k implies offset_at(ls, j) < v by {
        lemma_offset_linear(ls, w, j);
        assert(j * w <= (k - 1) * w) by (nonlinear_arith)
            requires
                j <= k - 1,
                w >= 1,
        ;
    }
}

/// The page [`paginate`] returns for a fixed-width document holds
/// exactly the `k` measures the viewport fits.
pub proof fn lemma_fixed_width_page_count(
    ls: Seq<MeasureLayout>,
    w: int,
    k: int,
    v: int,
    page: Page,
)
    requires
        1 <= k <= ls.len(),
        w >= 1,
        forall|j: int| 0 <= j < ls.len() ==> (#[trigger] ls[j]).width == w,
        STAVE_SPACE + (k - 1) * w < v <= STAVE_SPACE + k * w,
        paginate_post(ls, v, page),
    ensures
        page.placed@.len() == k,
{
    lemma_fixed_width_page(ls, w, k, v);
    lemma_rendered_count_unique(ls, v, k, page.placed@.len() as int);
}

} // verus!
