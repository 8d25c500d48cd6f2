//! What holds of rendering as a whole, stated over the specifications that
//! the painters' contracts use.

use vstd::prelude::*;
use crate::area::{sat_sub, Area};
use crate::bars::{bar_top_row, body_top};
use crate::canvas::{col_of, row_of, text_effect, written_cell, CellView, Paint, Tone, Written};
use crate::chrome::{centered, lemma_clear_concat};
use crate::frame::{frame_inner, frame_marks, grid_column, grid_marks, grid_row, lemma_frame, lemma_grid};
use crate::labels::{label_marks, label_origin};
use crate::layout::{chrome, decorations, lemma_decorations, placeholder};
use crate::marks::{apply_mark, apply_marks, blanked, mark_clear_of, mark_fits, marks_clear_of, marks_fit, Mark};
use crate::model::{chart_for, DataLabelPlacement, GraphDef, GraphFeatures, GridMask, GraphType, Orientation};
use crate::series::Scaled;
use crate::stacked::{stack_column, stacked_plot, stacks_upto};
use crate::pie::{lemma_cursor_bound, pie_cursor, wedge_end, wedges_ok, Wedge};

verus! {

/// Marks that stay off a rectangle stay off every rectangle inside it.
pub proof fn lemma_clear_narrow(m: Seq<Mark>, outer: Area, inner: Area)
    requires
        marks_clear_of(m, outer),
        inner.within(outer),
    ensures
        marks_clear_of(m, inner),
{
    assert forall|k: int| 0 <= k < m.len() implies mark_clear_of(#[trigger] m[k], inner) by {
        assert(mark_clear_of(m[k], outer));
    }
}

/// An area under 8 x 4 cells is only cleared: the first phase plans no
/// stroke and leaves no plot, so every cell of the area ends blank and every
/// other cell keeps what it showed.
pub proof fn law_small_area_only_clears(
    d: GraphDef,
    empty: bool,
    table: Seq<Option<Seq<Seq<char>>>>,
    a: Area,
    cells: Seq<CellView>,
    whole: Area,
)
    requires
        a.width < 8 || a.height < 4,
    ensures
        chrome(d, empty, table, a).0.len() == 0,
        chrome(d, empty, table, a).1 is None,
        apply_marks(blanked(cells, whole, a), whole, chrome(d, empty, table, a).0) == blanked(cells, whole, a),
{
}

/// With no range set, an area of at least 8 x 4 cells shows only the
/// placeholder, centred, and leaves no plot.
pub proof fn law_no_ranges_shows_placeholder(d: GraphDef, table: Seq<Option<Seq<Seq<char>>>>, a: Area)
    requires
        a.width >= 8,
        a.height >= 4,
    ensures
        chrome(d, true, table, a).0 == seq![centered(a, placeholder())],
        chrome(d, true, table, a).1 is None,
{
}

/// Titles, notes, legend, value table and axis titles lie inside the area
/// and off the rectangle they leave for the plot, which lies inside the
/// area too.
pub proof fn law_decorations_stay_off_plot(d: GraphDef, table: Seq<Option<Seq<Seq<char>>>>, a: Area)
    requires
        a.fits(),
        a.width >= 8,
        table.len() == 6,
    ensures
        marks_fit(decorations(d, table, a).0, a),
        decorations(d, table, a).1.within(a),
        marks_clear_of(decorations(d, table, a).0, decorations(d, table, a).1),
{
    let t = d.options.titles;
    let r1 = crate::chrome::title_rows(
        a,
        crate::model::text_of(t.first),
        crate::model::text_of(t.second),
        crate::model::text_of(t.x_axis),
    );
    crate::chrome::lemma_title_rows(
        a,
        crate::model::text_of(t.first),
        crate::model::text_of(t.second),
        crate::model::text_of(t.x_axis),
    );
    let r2 = crate::chrome::note_row(r1.1, crate::model::text_of(t.note), crate::model::text_of(t.other_note));
    crate::chrome::lemma_note_row(r1.1, crate::model::text_of(t.note), crate::model::text_of(t.other_note));
    let r3 = crate::chrome::legend_row(r2.1, crate::chrome::texts_of(d.options.legend@));
    crate::chrome::lemma_legend_row(r2.1, crate::chrome::texts_of(d.options.legend@));
    let r4 = if d.features.table { crate::chrome::table_rows(r3.1, table) } else { (seq![], r3.1) };
    if d.features.table {
        crate::chrome::lemma_table_rows(r3.1, table);
    }
    let r5 = crate::chrome::axis_columns(
        r4.1,
        crate::model::text_of(t.y_axis),
        crate::model::text_of(t.two_y_axis),
    );
    crate::chrome::lemma_axis_columns(r4.1, crate::model::text_of(t.y_axis), crate::model::text_of(t.two_y_axis));
    lemma_decorations(d, table, a);
    let plot = r5.1;
    assert(plot == decorations(d, table, a).1);
    lemma_clear_narrow(r1.0, r1.1, plot);
    lemma_clear_narrow(r2.0, r2.1, plot);
    lemma_clear_narrow(r3.0, r3.1, plot);
    lemma_clear_narrow(r4.0, r4.1, plot);
    lemma_clear_concat(r1.0, r2.0, plot);
    lemma_clear_concat(r1.0 + r2.0, r3.0, plot);
    lemma_clear_concat(r1.0 + r2.0 + r3.0, r4.0, plot);
    lemma_clear_concat(r1.0 + r2.0 + r3.0 + r4.0, r5.0, plot);
}

/// When the first phase leaves a plot rectangle, it lies inside the area;
/// what was drawn is the decorations, then the frame around the rectangle
/// they left, then the grid; the decorations and the frame stay off the
/// plot rectangle, and the grid stays inside it.
pub proof fn law_chrome_leaves_plot_clear(d: GraphDef, table: Seq<Option<Seq<Seq<char>>>>, a: Area)
    requires
        a.fits(),
        table.len() == 6,
        chrome(d, false, table, a).1 is Some,
    ensures
        ({
            let dec = decorations(d, table, a);
            let inner = chrome(d, false, table, a).1.unwrap();
            &&& inner.within(a)
            &&& inner == frame_inner(d.features.frame, dec.1)
            &&& chrome(d, false, table, a).0 == dec.0 + frame_marks(d.features.frame, dec.1) + grid_marks(
                d.options.grid,
                inner,
            )
            &&& marks_clear_of(dec.0 + frame_marks(d.features.frame, dec.1), inner)
            &&& marks_fit(grid_marks(d.options.grid, inner), inner)
        }),
{
    let dec = decorations(d, table, a);
    let plot = dec.1;
    let inner = frame_inner(d.features.frame, plot);
    law_decorations_stay_off_plot(d, table, a);
    lemma_decorations(d, table, a);
    assert(plot.width >= 6);
    assert(plot.height >= 3);
    lemma_frame(d.features.frame, plot);
    assert(inner.width > 0);
    assert(inner.within(plot));
    lemma_clear_narrow(dec.0, plot, inner);
    lemma_clear_concat(dec.0, frame_marks(d.features.frame, plot), inner);
    lemma_grid(d.options.grid, inner);
}

/// The grid stays inside its rectangle and off its last row, which is left
/// to the graph's baseline.
pub proof fn law_grid_spares_baseline(g: GridMask, a: Area)
    requires
        a.fits(),
        a.height >= 1,
    ensures
        marks_fit(grid_marks(g, a), a),
        marks_clear_of(grid_marks(g, a), Area { x: a.x, y: (a.b() - 1) as u16, width: a.width, height: 1 }),
{
    lemma_grid(g, a);
    let base = Area { x: a.x, y: (a.b() - 1) as u16, width: a.width, height: 1 };
    assert forall|n: int| 1 <= n <= 3 implies marks_clear_of(#[trigger] grid_row(a, n), base) by {
        let m = grid_row(a, n);
        assert forall|k: int| 0 <= k < m.len() implies mark_clear_of(#[trigger] m[k], base) by {
            let ih = sat_sub(a.height as int, 1);
            assert(0 <= ih * n / 4) by (nonlinear_arith)
                requires
                    1 <= n <= 3,
                    ih >= 0,
            ;
        }
    }
    assert forall|n: int| 1 <= n <= 3 implies marks_clear_of(#[trigger] grid_column(a, n), base) by {
        let m = grid_column(a, n);
        assert forall|k: int| 0 <= k < m.len() implies mark_clear_of(#[trigger] m[k], base) by {}
    }
    let h: Seq<Mark> = if g.horizontal && sat_sub(a.height as int, 1) >= 4 {
        grid_row(a, 1) + grid_row(a, 2) + grid_row(a, 3)
    } else {
        seq![]
    };
    let v: Seq<Mark> = if g.vertical && a.width >= 4 {
        grid_column(a, 1) + grid_column(a, 2) + grid_column(a, 3)
    } else {
        seq![]
    };
    lemma_clear_concat(grid_row(a, 1), grid_row(a, 2), base);
    lemma_clear_concat(grid_row(a, 1) + grid_row(a, 2), grid_row(a, 3), base);
    lemma_clear_concat(grid_column(a, 1), grid_column(a, 2), base);
    lemma_clear_concat(grid_column(a, 1) + grid_column(a, 2), grid_column(a, 3), base);
    lemma_clear_concat(h, v, base);
}

/// A patch (the grid's vertical lines) leaves every cell that shows
/// something other than a single space as it was.
pub proof fn law_patch_keeps_drawn_cells(
    c: Seq<CellView>,
    a: Area,
    x0: u16,
    x1: u16,
    y0: u16,
    y1: u16,
    symbol: Seq<char>,
    tone: Tone,
    i: int,
)
    requires
        0 <= i < c.len(),
        c[i].symbol != seq![' '],
    ensures
        apply_mark(c, a, Mark::Patch { x0, x1, y0, y1, symbol, tone })[i] == c[i],
{
}

/// A data label lies inside the plot, on one of its rows and between its
/// left and right edges, and shows a run of the label's characters: what
/// would fall outside the plot is cut off.
pub proof fn law_label_stays_in_plot(text: Seq<char>, ax: u16, ay: u16, p: DataLabelPlacement, a: Area)
    requires
        a.fits(),
    ensures
        forall|k: int|
            0 <= k < label_marks(text, ax as int, ay as int, p, a).len() ==> match #[trigger] label_marks(
                text,
                ax as int,
                ay as int,
                p,
                a,
            )[k] {
                Mark::Text { x, y, text: shown, .. } => {
                    &&& a.l() <= x
                    &&& x + shown.len() <= a.r()
                    &&& a.t() <= y < a.b()
                    &&& exists|i: int| 0 <= i && i + shown.len() <= text.len() && shown == #[trigger] text.subrange(i, i + shown.len())
                },
                _ => false,
            },
{
    let m = label_marks(text, ax as int, ay as int, p, a);
    if m.len() > 0 {
        let (lx, ly) = label_origin(text.len() as int, ax as int, ay as int, p, a).unwrap();
        let start = if lx > a.l() { lx } else { a.l() };
        let end = if lx + text.len() < a.r() { lx + text.len() } else { a.r() };
        let shown = text.subrange(start - lx, end - lx);
        assert(shown.len() == end - start);
        assert(shown == text.subrange(start - lx, (start - lx) + shown.len()));
    }
}

/// A larger value never gives a lower bar: the first of the bar's full rows
/// and the bar's top cell (its half block, when it has one) are at or
/// above those of a smaller value.
pub proof fn law_bar_grows_with_value(a: Area, hh1: int, hh2: int)
    requires
        0 <= hh1 <= hh2,
    ensures
        body_top(a, hh2) <= body_top(a, hh1),
        bar_top_row(a, hh2) <= bar_top_row(a, hh1),
{
}

proof fn lemma_cursor_step(ws: Seq<Wedge>, a: Area, k: int)
    requires
        a.fits(),
        a.width > 0,
        wedges_ok(ws, a),
        0 <= k < ws.len(),
    ensures
        pie_cursor(ws, a, k) <= pie_cursor(ws, a, k + 1) <= a.r(),
        pie_cursor(ws, a, k) < a.r() ==> pie_cursor(ws, a, k) < pie_cursor(ws, a, k + 1),
        pie_cursor(ws, a, k) < a.r() ==> pie_cursor(ws, a, k + 1) == wedge_end(ws, a, k, pie_cursor(ws, a, k)),
{
    lemma_cursor_bound(ws, a, k);
    lemma_cursor_bound(ws, a, k + 1);
}

proof fn lemma_cursor_order(ws: Seq<Wedge>, a: Area, j: int, k: int)
    requires
        a.fits(),
        a.width > 0,
        wedges_ok(ws, a),
        0 <= j <= k <= ws.len(),
    ensures
        pie_cursor(ws, a, j) <= pie_cursor(ws, a, k),
        j < k && pie_cursor(ws, a, j) < a.r() ==> pie_cursor(ws, a, j) < pie_cursor(ws, a, k),
    decreases k - j,
{
    if j < k {
        lemma_cursor_step(ws, a, j);
        lemma_cursor_order(ws, a, j + 1, k);
    }
}

proof fn lemma_cursor_room(ws: Seq<Wedge>, a: Area, k: int)
    requires
        a.fits(),
        a.width > 0,
        wedges_ok(ws, a),
        ws.len() <= a.width,
        0 <= k <= ws.len(),
    ensures
        pie_cursor(ws, a, k) <= a.r() - (ws.len() - k),
    decreases k,
{
    if k > 0 {
        lemma_cursor_room(ws, a, k - 1);
    }
}

/// The pie's wedges tile its bar row from the left edge to the right edge:
/// wedge `k` runs from where wedge `k - 1` ended to `pie_cursor(k + 1)`, the
/// first starting at the left edge; every wedge that starts before the
/// right edge covers at least one cell; after the last wedge the right edge
/// is reached; and when the row has a cell for every wedge, every wedge
/// starts before the right edge, so none is starved by the ones before it.
pub proof fn law_pie_wedges_tile_row(ws: Seq<Wedge>, a: Area)
    requires
        a.fits(),
        a.width > 0,
        wedges_ok(ws, a),
        ws.len() > 0,
    ensures
        pie_cursor(ws, a, 0) == a.l(),
        pie_cursor(ws, a, ws.len() as int) == a.r(),
        forall|j: int, k: int|
            0 <= j <= k <= ws.len() ==> #[trigger] pie_cursor(ws, a, j) <= #[trigger] pie_cursor(ws, a, k),
        forall|j: int, k: int|
            0 <= j < k <= ws.len() && #[trigger] pie_cursor(ws, a, j) < a.r() ==> pie_cursor(ws, a, j)
                < #[trigger] pie_cursor(ws, a, k),
        ws.len() <= a.width ==> forall|k: int| 0 <= k < ws.len() ==> #[trigger] pie_cursor(ws, a, k) < a.r(),
{
    let n = ws.len() as int;
    lemma_cursor_bound(ws, a, n - 1);
    assert forall|j: int, k: int| 0 <= j <= k <= ws.len() implies #[trigger] pie_cursor(ws, a, j)
        <= #[trigger] pie_cursor(ws, a, k) by {
        lemma_cursor_order(ws, a, j, k);
    }
    assert forall|j: int, k: int|
        0 <= j < k <= ws.len() && #[trigger] pie_cursor(ws, a, j) < a.r() implies pie_cursor(ws, a, j)
            < #[trigger] pie_cursor(ws, a, k) by {
        lemma_cursor_order(ws, a, j, k);
    }
    if ws.len() <= a.width {
        assert forall|k: int| 0 <= k < ws.len() implies #[trigger] pie_cursor(ws, a, k) < a.r() by {
            lemma_cursor_room(ws, a, k);
        }
    }
}

/// The cells of `c1` and `c2` that lie outside `a` agree.
pub open spec fn agree_outside(c1: Seq<CellView>, c2: Seq<CellView>, w: Area, a: Area) -> bool {
    &&& c1.len() == c2.len()
    &&& forall|i: int| 0 <= i < c1.len() && !a.has(col_of(w, i), row_of(w, i)) ==> #[trigger] c1[i] == c2[i]
}

/// What rendering leaves in the buffer does not depend on what the area held
/// before: the first phase clears the area, and every stroke after it acts
/// on the cells alone, so two buffers that agree outside the area end the
/// same after the same strokes.
pub proof fn law_render_ignores_prior_contents(
    c1: Seq<CellView>,
    c2: Seq<CellView>,
    w: Area,
    a: Area,
    first: Seq<Mark>,
    then: Seq<Mark>,
)
    requires
        agree_outside(c1, c2, w, a),
    ensures
        apply_marks(apply_marks(blanked(c1, w, a), w, first), w, then) == apply_marks(
            apply_marks(blanked(c2, w, a), w, first),
            w,
            then,
        ),
{
    assert(blanked(c1, w, a) =~= blanked(c2, w, a));
}

/// Fields of a cell that a run of strokes sets: each that is `Some`
/// replaces the cell's.
pub struct Overwrite {
    pub symbol: Option<Seq<char>>,
    pub fg: Option<Tone>,
    pub bg: Option<Tone>,
}

pub open spec fn overwrite(c: CellView, o: Overwrite) -> CellView {
    CellView {
        symbol: match o.symbol {
            Some(s) => s,
            None => c.symbol,
        },
        fg: match o.fg {
            Some(t) => t,
            None => c.fg,
        },
        bg: match o.bg {
            Some(t) => t,
            None => c.bg,
        },
    }
}

pub open spec fn keep_all() -> Overwrite {
    Overwrite { symbol: None, fg: None, bg: None }
}

/// `o1`, then `o2`.
pub open spec fn then(o1: Overwrite, o2: Overwrite) -> Overwrite {
    Overwrite {
        symbol: if o2.symbol is Some { o2.symbol } else { o1.symbol },
        fg: if o2.fg is Some { o2.fg } else { o1.fg },
        bg: if o2.bg is Some { o2.bg } else { o1.bg },
    }
}

/// What a print does to one cell, as fields it sets.
pub open spec fn written_fields(w: Written, p: Paint) -> Overwrite {
    match w {
        Written::Kept => keep_all(),
        Written::Printed(s) => Overwrite { symbol: Some(s), fg: p.fg, bg: p.bg },
        Written::Cleared => Overwrite { symbol: Some(seq![' ']), fg: Some(Tone::Reset), bg: Some(Tone::Reset) },
    }
}

/// What the strokes do to cell `i` of a buffer over `w`, when the cell lies
/// outside every box they fill: only their text reaches it.
pub open spec fn fields_outside(ms: Seq<Mark>, w: Area, i: int) -> Overwrite
    decreases ms.len(),
{
    if ms.len() == 0 {
        keep_all()
    } else {
        let before = fields_outside(ms.drop_last(), w, i);
        match ms.last() {
            Mark::Text { x, y, text, paint } => then(before, written_fields(text_effect(w, x, y, text, i), paint)),
            _ => before,
        }
    }
}

proof fn lemma_written_fields(c: CellView, w: Written, p: Paint)
    ensures
        written_cell(c, w, p) == overwrite(c, written_fields(w, p)),
{
}

/// Each stroke acts on a cell by what that cell holds alone: two cell
/// sequences of one length that agree on cell `i` still agree there after
/// the same strokes.
pub proof fn lemma_strokes_cellwise(c1: Seq<CellView>, c2: Seq<CellView>, w: Area, ms: Seq<Mark>, i: int)
    requires
        c1.len() == c2.len(),
        0 <= i < c1.len(),
        c1[i] == c2[i],
    ensures
        apply_marks(c1, w, ms).len() == c1.len(),
        apply_marks(c2, w, ms).len() == c1.len(),
        apply_marks(c1, w, ms)[i] == apply_marks(c2, w, ms)[i],
    decreases ms.len(),
{
    if ms.len() > 0 {
        lemma_strokes_cellwise(c1, c2, w, ms.drop_last(), i);
    }
}

/// Outside `a`, strokes that lie inside `a` act on a cell by a fixed set
/// of fields.
pub proof fn lemma_strokes_outside(c: Seq<CellView>, w: Area, a: Area, ms: Seq<Mark>, i: int)
    requires
        marks_fit(ms, a),
        0 <= i < c.len(),
        !a.has(col_of(w, i), row_of(w, i)),
    ensures
        apply_marks(c, w, ms).len() == c.len(),
        apply_marks(c, w, ms)[i] == overwrite(c[i], fields_outside(ms, w, i)),
    decreases ms.len(),
{
    if ms.len() > 0 {
        let rest = ms.drop_last();
        assert forall|k: int| 0 <= k < rest.len() implies mark_fits(#[trigger] rest[k], a) by {
            assert(rest[k] == ms[k]);
        }
        lemma_strokes_outside(c, w, a, rest, i);
        assert(mark_fits(ms[ms.len() - 1], a));
        let before = apply_marks(c, w, rest);
        match ms.last() {
            Mark::Text { x, y, text, paint } => {
                lemma_written_fields(before[i], text_effect(w, x, y, text, i), paint);
            },
            _ => {},
        }
    }
}

/// Rendering twice leaves the buffer as rendering once, for strokes that
/// lie inside the area: the second clear resets the area, whose cells then
/// go through the same strokes again, and outside the area each cell gets
/// the same fields set a second time.
pub proof fn law_render_twice_as_once(c: Seq<CellView>, w: Area, a: Area, ms: Seq<Mark>)
    requires
        marks_fit(ms, a),
    ensures
        apply_marks(blanked(apply_marks(blanked(c, w, a), w, ms), w, a), w, ms) == apply_marks(
            blanked(c, w, a),
            w,
            ms,
        ),
{
    let d = blanked(c, w, a);
    let e = apply_marks(d, w, ms);
    let d2 = blanked(e, w, a);
    let e2 = apply_marks(d2, w, ms);
    assert(d.len() == c.len());
    lemma_strokes_keep_length(d, w, ms);
    lemma_strokes_keep_length(d2, w, ms);
    assert forall|i: int| 0 <= i < c.len() implies #[trigger] e2[i] == e[i] by {
        lemma_strokes_cellwise(d, d, w, ms, i);
        if a.has(col_of(w, i), row_of(w, i)) {
            assert(d2[i] == d[i]);
            lemma_strokes_cellwise(d2, d, w, ms, i);
        } else {
            lemma_strokes_outside(d, w, a, ms, i);
            lemma_strokes_outside(d2, w, a, ms, i);
        }
    }
    assert(e2 =~= e);
}

/// Strokes keep the number of cells.
pub proof fn lemma_strokes_keep_length(c: Seq<CellView>, w: Area, ms: Seq<Mark>)
    ensures
        apply_marks(c, w, ms).len() == c.len(),
    decreases ms.len(),
{
    if ms.len() > 0 {
        lemma_strokes_keep_length(c, w, ms.drop_last());
    }
}

/// Strokes made in two runs leave what the two runs joined leave.
pub proof fn lemma_marks_concat(c: Seq<CellView>, w: Area, m1: Seq<Mark>, m2: Seq<Mark>)
    ensures
        apply_marks(apply_marks(c, w, m1), w, m2) == apply_marks(c, w, m1 + m2),
    decreases m2.len(),
{
    if m2.len() == 0 {
        assert(m1 + m2 =~= m1);
    } else {
        lemma_marks_concat(c, w, m1, m2.drop_last());
        assert((m1 + m2).drop_last() =~= m1 + m2.drop_last());
        assert((m1 + m2).last() == m2.last());
    }
}

/// Rendering a graph twice leaves the buffer as rendering it once: the first
/// phase (`render_chrome`: clear, decorations, frame, grid), then a chart's
/// strokes inside the plot rectangle that phase leaves (none when it leaves
/// none), done twice over, give what they give once.
pub proof fn law_graph_render_twice_as_once(
    d: GraphDef,
    empty: bool,
    table: Seq<Option<Seq<Seq<char>>>>,
    a: Area,
    c: Seq<CellView>,
    w: Area,
    plot: Seq<Mark>,
)
    requires
        a.fits(),
        table.len() == 6,
        match chrome(d, empty, table, a).1 {
            Some(inner) => marks_fit(plot, inner),
            None => plot.len() == 0,
        },
    ensures
        ({
            let first = chrome(d, empty, table, a).0;
            let once = apply_marks(apply_marks(blanked(c, w, a), w, first), w, plot);
            apply_marks(apply_marks(blanked(once, w, a), w, first), w, plot) == once
        }),
{
    let first = chrome(d, empty, table, a).0;
    law_chrome_inside_area(d, empty, table, a);
    match chrome(d, empty, table, a).1 {
        Some(inner) => {
            law_chrome_leaves_plot_clear(d, table, a);
            lemma_decorations(d, table, a);
            lemma_frame(d.features.frame, decorations(d, table, a).1);
            crate::chrome::lemma_fit_widen(plot, inner, a);
        },
        None => {
            assert forall|k: int| 0 <= k < plot.len() implies mark_fits(#[trigger] plot[k], a) by {}
        },
    }
    crate::chrome::lemma_fit_concat(first, plot, a);
    let once = apply_marks(apply_marks(blanked(c, w, a), w, first), w, plot);
    lemma_marks_concat(blanked(c, w, a), w, first, plot);
    lemma_marks_concat(blanked(once, w, a), w, first, plot);
    law_render_twice_as_once(c, w, a, first + plot);
}

/// Everything the first phase draws lies inside the area: titles and
/// notes, legend, table, axis titles, frame, grid, and the placeholder, each
/// text cut to the area's width.
pub proof fn law_chrome_inside_area(d: GraphDef, empty: bool, table: Seq<Option<Seq<Seq<char>>>>, a: Area)
    requires
        a.fits(),
        table.len() == 6,
    ensures
        marks_fit(chrome(d, empty, table, a).0, a),
{
    if a.width < 8 || a.height < 4 {
    } else if empty {
        crate::chrome::lemma_centered(a, placeholder());
        assert(marks_fit(seq![centered(a, placeholder())], a));
    } else {
        lemma_decorations(d, table, a);
        let dec = decorations(d, table, a);
        let plot = dec.1;
        if plot.height >= 3 {
            lemma_frame(d.features.frame, plot);
            crate::chrome::lemma_fit_widen(frame_marks(d.features.frame, plot), plot, a);
            crate::chrome::lemma_fit_concat(dec.0, frame_marks(d.features.frame, plot), a);
            let inner = frame_inner(d.features.frame, plot);
            if inner.height >= 2 {
                lemma_grid(d.options.grid, inner);
                crate::chrome::lemma_fit_widen(grid_marks(d.options.grid, inner), inner, a);
                crate::chrome::lemma_fit_concat(dec.0 + frame_marks(d.features.frame, plot), grid_marks(d.options.grid, inner), a);
            }
        }
    }
}

proof fn lemma_same_columns(
    d1: GraphDef,
    d2: GraphDef,
    labels: Seq<Option<Vec<String>>>,
    ss: Seq<Scaled>,
    a: Area,
    i: int,
    c: int,
)
    requires
        d1.options == d2.options,
    ensures
        stack_column(d1, labels, ss, a, i, c) == stack_column(d2, labels, ss, a, i, c),
    decreases c,
{
    if c > 0 {
        lemma_same_columns(d1, d2, labels, ss, a, i, c - 1);
    }
}

proof fn lemma_same_stacks(
    d1: GraphDef,
    d2: GraphDef,
    labels: Seq<Option<Vec<String>>>,
    ss: Seq<Scaled>,
    drawn: Seq<bool>,
    a: Area,
    c: int,
)
    requires
        d1.options == d2.options,
    ensures
        stacks_upto(d1, labels, ss, drawn, a, c) == stacks_upto(d2, labels, ss, drawn, a, c),
    decreases c,
{
    if c > 0 {
        lemma_same_stacks(d1, d2, labels, ss, drawn, a, c - 1);
        lemma_same_columns(d1, d2, labels, ss, a, c - 1, ss.len() as int);
    }
}

/// A Stack graph and a vertical Bar graph with Stacked on, their other
/// settings the same, are drawn alike: the same painter with the same 100%
/// setting, the same decorations, frame and grid, and the same stacks.
pub proof fn law_stack_draws_as_stacked_bar(
    d1: GraphDef,
    empty: bool,
    table: Seq<Option<Seq<Seq<char>>>>,
    labels: Seq<Option<Vec<String>>>,
    ss: Seq<Scaled>,
    drawn: Seq<bool>,
    a: Area,
)
    requires
        d1.graph_type == GraphType::Stack,
    ensures
        ({
            let d2 = GraphDef {
                graph_type: GraphType::Bar,
                features: GraphFeatures { orientation: Orientation::Vertical, stacked: true, ..d1.features },
                options: d1.options,
            };
            &&& chart_for(d1) == chart_for(d2)
            &&& chrome(d1, empty, table, a) == chrome(d2, empty, table, a)
            &&& stacked_plot(d1, labels, ss, drawn, a) == stacked_plot(d2, labels, ss, drawn, a)
        }),
{
    let d2 = GraphDef {
        graph_type: GraphType::Bar,
        features: GraphFeatures { orientation: Orientation::Vertical, stacked: true, ..d1.features },
        options: d1.options,
    };
    lemma_same_stacks(d1, d2, labels, ss, drawn, a, crate::series::longest(ss));
}

/// The painter follows `/Graph Type` and its features: side-by-side bars
/// exactly for a vertical Bar graph with Stacked off, with drop shadows as
/// set; stacked bars exactly for a Stack graph or a vertical Bar graph with
/// Stacked on, 100% exactly when the 100% feature is on; horizontal bars
/// exactly for a horizontal Bar graph; and every other type its own painter.
pub proof fn law_chart_follows_settings(d: GraphDef)
    ensures
        (chart_for(d) is Bars) <==> (d.graph_type == GraphType::Bar
            && d.features.orientation == Orientation::Vertical && !d.features.stacked),
        chart_for(d) matches crate::model::Chart::Bars { drop_shadow } ==> drop_shadow == d.features.drop_shadow,
        (chart_for(d) is Stacked) <==> (d.graph_type == GraphType::Stack || (
        d.graph_type == GraphType::Bar && d.features.orientation == Orientation::Vertical && d.features.stacked)),
        chart_for(d) matches crate::model::Chart::Stacked { percent } ==> percent == d.features.percent,
        (chart_for(d) == crate::model::Chart::Horizontal) <==> (d.graph_type == GraphType::Bar
            && d.features.orientation == Orientation::Horizontal),
        (chart_for(d) == crate::model::Chart::Line) <==> (d.graph_type == GraphType::Line),
        (chart_for(d) == crate::model::Chart::Pie) <==> (d.graph_type == GraphType::Pie),
        (chart_for(d) == crate::model::Chart::XY) <==> (d.graph_type == GraphType::XY),
        (chart_for(d) == crate::model::Chart::Mixed) <==> (d.graph_type == GraphType::Mixed),
        (chart_for(d) == crate::model::Chart::HLCO) <==> (d.graph_type == GraphType::HLCO),
{
}

/// The First title goes on the area's top row and the Second title on the
/// row after the titles above it (the top row when First is unset), each
/// centred and cut to the width less two; the X-Axis title goes on the
/// area's last row; and the plot is left the rows between them.
pub proof fn law_title_rows_in_order(a: Area, f: Option<Seq<char>>, s: Option<Seq<char>>, x: Option<Seq<char>>)
    requires
        a.fits(),
        a.height >= 3,
    ensures
        ({
            let r = crate::chrome::title_rows(a, f, s, x);
            let m = r.0;
            let nf: int = if f is Some { 1 } else { 0 };
            let ns: int = if s is Some { 1 } else { 0 };
            let nx: int = if x is Some { 1 } else { 0 };
            let cut_w = sat_sub(a.width as int, 2);
            &&& m.len() == nf + ns + nx
            &&& f matches Some(t) ==> (m[0] matches Mark::Text { y, text, .. } && y == a.t() && text
                == crate::chrome::cut(t, cut_w))
            &&& s matches Some(t) ==> (m[nf] matches Mark::Text { y, text, .. } && y == a.t() + nf && text
                == crate::chrome::cut(t, cut_w))
            &&& x matches Some(t) ==> (m[nf + ns] matches Mark::Text { y, text, .. } && y == a.b() - 1 && text
                == crate::chrome::cut(t, cut_w))
            &&& r.1.y == a.t() + nf + ns
            &&& r.1.y + r.1.height == a.b() - nx
            &&& r.1.x == a.x && r.1.width == a.width
        }),
{
}

/// The dot drawn for an XY pair `(j, spot)` carries the data label of the
/// pair's own value index `j` in series A, whatever the pair's position
/// among the numeric pairs: each placed pair appends a `•` at its spot
/// (when inside the plot) and then that label, anchored on the dot.
pub proof fn law_xy_label_by_value_index(
    d: GraphDef,
    labels: Seq<Option<Vec<String>>>,
    ps: Seq<(usize, Option<crate::plots::Spot>)>,
    a: Area,
    c: int,
)
    requires
        0 <= c < ps.len(),
    ensures
        ({
            let before = crate::plots::xy_dots(d, labels, ps, a, c);
            let after = crate::plots::xy_dots(d, labels, ps, a, c + 1);
            let j = ps[c].0 as int;
            match ps[c].1 {
                None => after == before,
                Some(sp) => {
                    let x = a.l() + sp.0;
                    let y = sat_sub(sat_sub(a.b(), 1), 1 + sp.1);
                    let dot: Seq<Mark> = if x < a.r() && a.t() <= y < a.b() {
                        seq![Mark::Fill { x0: x as u16, x1: (x + 1) as u16, y0: y as u16, y1: (y + 1) as u16, symbol: "•"@, tone: Tone::Cyan }]
                    } else {
                        seq![]
                    };
                    let label: Seq<Mark> = match crate::labels::label_at(labels, 0, j) {
                        Some(t) => label_marks(t, x, y, d.options.data_labels_placement@[0], a),
                        None => seq![],
                    };
                    after == before + dot + label
                },
            }
        }),
{
    let after = crate::plots::xy_dots(d, labels, ps, a, c + 1);
    assert(after == crate::plots::xy_dots(d, labels, ps, a, c + 1));
}

/// The rows series `s` puts in a stacked column at X position `i`: its
/// scaled value there, when it has one.
pub open spec fn drawn_rows(s: Scaled, i: int) -> int {
    match crate::series::cell_of(s, i) {
        Some(v) => v as int,
        None => 0,
    }
}

/// The rows the first `c` series put in the column at `i`, summed.
pub open spec fn rows_below(ss: Seq<Scaled>, i: int, c: int) -> int
    decreases c,
{
    if c <= 0 {
        0
    } else {
        rows_below(ss, i, c - 1) + drawn_rows(ss[c - 1], i)
    }
}

proof fn lemma_offset_is_sum(ss: Seq<Scaled>, i: int, c: int)
    requires
        0 <= c <= ss.len(),
    ensures
        crate::stacked::stack_offset(ss, i, c) == (if rows_below(ss, i, c) > u16::MAX {
            u16::MAX as int
        } else {
            rows_below(ss, i, c)
        }),
        rows_below(ss, i, c) >= 0,
    decreases c,
{
    if c > 0 {
        lemma_offset_is_sum(ss, i, c - 1);
    }
}

/// In a stacked column the segments stack from the bottom up, each on all
/// the segments of the series before it: the segment of series `c` at X
/// position `i`, when its value is a positive number of rows, is the next
/// stroke of the column, in the series' shade, and covers the rows from
/// `rows_below(c)` up to `rows_below(c) + value` above the baseline, clipped
/// to the plot's height; a series with no rows there adds nothing. So the
/// segments of one column never overlap, and the column is as tall as the
/// sum of its segments, up to the plot's height.
pub proof fn law_stacked_segments_on_the_sum_below(
    d: GraphDef,
    labels: Seq<Option<Vec<String>>>,
    ss: Seq<Scaled>,
    a: Area,
    i: int,
    c: int,
)
    requires
        0 <= c < ss.len(),
    ensures
        ({
            let before = stack_column(d, labels, ss, a, i, c);
            let after = stack_column(d, labels, ss, a, i, c + 1);
            let pb = sat_sub(a.b(), 1);
            let ph = sat_sub(pb, a.t());
            let below = rows_below(ss, i, c);
            let lo = if below < ph { below } else { ph };
            match crate::series::cell_of(ss[c], i) {
                Some(v) if v > 0 => {
                    let hi = if below + v < ph { below + v } else { ph };
                    &&& after.len() > before.len()
                    &&& after.subrange(0, before.len() as int) == before
                    &&& after[before.len() as int] matches Mark::Fill { y0, y1, symbol, .. } && y0 == pb - hi && y1
                        == pb - lo && symbol == crate::series::shade(ss[c].slot as int)
                    &&& exists|ax: int|
                        after.subrange(before.len() + 1int, after.len() as int) == #[trigger] crate::bars::point_label(
                            d,
                            labels,
                            ss[c].slot as int,
                            a,
                            i,
                            ax,
                            sat_sub(pb, below + v),
                        )
                },
                _ => after == before,
            }
        }),
{
    lemma_offset_is_sum(ss, i, c);
    let before = stack_column(d, labels, ss, a, i, c);
    let after = stack_column(d, labels, ss, a, i, c + 1);
    match crate::series::cell_of(ss[c], i) {
        Some(v) => {
            if v > 0 {
                assert(after.subrange(0, before.len() as int) =~= before);
                let n = crate::series::longest(ss);
                let step = crate::bars::group_step(a.width as int, n);
                let bw = crate::bars::bar_width(step, 1);
                let ax = a.l() + i * step + bw / 2;
                let pb = sat_sub(a.b(), 1);
                let lab = crate::bars::point_label(d, labels, ss[c].slot as int, a, i, ax, sat_sub(pb, rows_below(ss, i, c) + v));
                assert(after.subrange(before.len() + 1int, after.len() as int) =~= lab);
            }
        },
        None => {},
    }
}

/// In a Mixed graph series B's line is drawn over series A's bars: the
/// graph's strokes begin with A's bar chart when A is set and end with B's
/// line chart when B is set.
pub proof fn law_mixed_line_over_bars<V>(
    d: GraphDef,
    vals: crate::model::GraphValues<V>,
    bars: Seq<Scaled>,
    line: Option<crate::plots::Placed>,
    a: Area,
)
    requires
        vals.data@[0] is Some || vals.data@[1] is Some,
    ensures
        ({
            let m = crate::mixed::mixed_plot(d, vals, bars, line, a);
            let b = crate::bars::bar_plot(d, vals.data_label_text@, bars, a, false);
            let l = crate::plots::line_plot(d, vals.data_label_text@, line, a);
            &&& vals.data@[0] is Some ==> m.len() >= b.len() && m.subrange(0, b.len() as int) == b
            &&& vals.data@[1] is Some ==> m.len() >= l.len() && m.subrange(m.len() - l.len(), m.len() as int) == l
        }),
{
    let m = crate::mixed::mixed_plot(d, vals, bars, line, a);
    let b = crate::bars::bar_plot(d, vals.data_label_text@, bars, a, false);
    let l = crate::plots::line_plot(d, vals.data_label_text@, line, a);
    if vals.data@[0] is Some {
        assert(m.subrange(0, b.len() as int) =~= b);
    }
    if vals.data@[1] is Some {
        assert(m.subrange(m.len() - l.len(), m.len() as int) =~= l);
    }
}

proof fn lemma_one_mark(c: Seq<CellView>, w: Area, m: Mark)
    ensures
        apply_marks(c, w, seq![m]) == apply_mark(c, w, m),
{
    assert(seq![m].drop_last() =~= Seq::<Mark>::empty());
    assert(apply_marks(c, w, Seq::<Mark>::empty()) == c);
    assert(seq![m].last() == m);
    assert(seq![m].len() == 1);
}

/// After the dots of the first `j` points of a line whose labels are not
/// bound, the cell of a placed dot among them shows `•`.
proof fn lemma_dot_stays(
    d: GraphDef,
    labels: Seq<Option<Vec<String>>>,
    p: crate::plots::Placed,
    a: Area,
    c: Seq<CellView>,
    w: Area,
    k: int,
    i: int,
    j: int,
)
    requires
        labels[p.slot as int] is None,
        0 <= k < j <= p.spots@.len(),
        p.spots@[k] matches Some(sp) && col_of(w, i) == crate::plots::spot_x(a, sp) && row_of(w, i)
            == crate::plots::spot_y(a, sp) && crate::plots::spot_x(a, sp) < a.r() && a.t()
            <= crate::plots::spot_y(a, sp) < a.b(),
        0 <= i < c.len(),
    ensures
        apply_marks(c, w, crate::plots::line_dots(d, labels, p, a, j)).len() == c.len(),
        apply_marks(c, w, crate::plots::line_dots(d, labels, p, a, j))[i].symbol == "•"@,
    decreases j,
{
    let prev = crate::plots::line_dots(d, labels, p, a, j - 1);
    lemma_strokes_keep_length(c, w, prev);
    lemma_strokes_keep_length(c, w, crate::plots::line_dots(d, labels, p, a, j));
    if j - 1 > k {
        lemma_dot_stays(d, labels, p, a, c, w, k, i, j - 1);
    }
    let x0 = apply_marks(c, w, prev);
    match p.spots@[j - 1] {
        Some(s) => {
            let x = crate::plots::spot_x(a, s);
            let y = crate::plots::spot_y(a, s);
            let dm = crate::plots::dot(d, labels, p.slot as int, a, j - 1, x, y);
            assert(crate::labels::label_at(labels, p.slot as int, j - 1) is None);
            lemma_marks_concat(c, w, prev, dm);
            if x < a.r() && y >= a.t() && y < a.b() {
                let f = crate::bars::tone_box(x, x + 1, y, y + 1, "•"@, Tone::Cyan);
                assert(dm =~= seq![f]);
                lemma_one_mark(x0, w, f);
            } else {
                assert(dm =~= Seq::<Mark>::empty());
                assert(apply_marks(x0, w, dm) == x0);
            }
        },
        None => {},
    }
}

/// In a Mixed graph whose series B has no data labels bound, every B point
/// placed inside the plot shows its `•`, whatever bar of series A lies under
/// it.
pub proof fn law_mixed_dots_stay_visible<V>(
    d: GraphDef,
    vals: crate::model::GraphValues<V>,
    bars: Seq<Scaled>,
    p: crate::plots::Placed,
    a: Area,
    c: Seq<CellView>,
    w: Area,
    k: int,
    i: int,
)
    requires
        vals.data@[1] is Some,
        vals.data_label_text@[p.slot as int] is None,
        sat_sub(sat_sub(a.b(), 1), a.t()) >= 2,
        0 <= k < p.spots@.len(),
        p.spots@[k] matches Some(sp) && col_of(w, i) == crate::plots::spot_x(a, sp) && row_of(w, i)
            == crate::plots::spot_y(a, sp) && crate::plots::spot_x(a, sp) < a.r() && a.t()
            <= crate::plots::spot_y(a, sp) < a.b(),
        0 <= i < c.len(),
    ensures
        apply_marks(c, w, crate::mixed::mixed_plot(d, vals, bars, Some(p), a))[i].symbol == "•"@,
{
    let labels = vals.data_label_text@;
    let m1: Seq<Mark> = if vals.data@[0] is Some { crate::bars::bar_plot(d, labels, bars, a, false) } else { seq![] };
    let n = p.spots@.len() as int;
    let dots = crate::plots::line_dots(d, labels, p, a, n);
    let base = crate::bars::baseline(a);
    let l = crate::plots::line_plot(d, labels, Some(p), a);
    assert(l == dots + seq![base]);
    assert(crate::mixed::mixed_plot(d, vals, bars, Some(p), a) == m1 + l);
    lemma_marks_concat(c, w, m1, l);
    let c1 = apply_marks(c, w, m1);
    lemma_strokes_keep_length(c, w, m1);
    lemma_dot_stays(d, labels, p, a, c1, w, k, i, n);
    lemma_marks_concat(c1, w, dots, seq![base]);
    lemma_one_mark(apply_marks(c1, w, dots), w, base);
}

/// The dot drawn for point `k` of a line carries the data label of that
/// same point of its series: each placed point appends a `•` at its spot
/// (when inside the plot) and then the label of value `k`, anchored on the
/// dot; an unplaced point adds nothing.
pub proof fn law_line_label_by_point_index(
    d: GraphDef,
    labels: Seq<Option<Vec<String>>>,
    p: crate::plots::Placed,
    a: Area,
    k: int,
)
    requires
        0 <= k < p.spots@.len(),
    ensures
        ({
            let before = crate::plots::line_dots(d, labels, p, a, k);
            let after = crate::plots::line_dots(d, labels, p, a, k + 1);
            match p.spots@[k] {
                None => after == before,
                Some(sp) => {
                    let x = a.l() + sp.0;
                    let y = sat_sub(sat_sub(a.b(), 1), 1 + sp.1);
                    let dot: Seq<Mark> = if x < a.r() && a.t() <= y < a.b() {
                        seq![Mark::Fill { x0: x as u16, x1: (x + 1) as u16, y0: y as u16, y1: (y + 1) as u16, symbol: "•"@, tone: Tone::Cyan }]
                    } else {
                        seq![]
                    };
                    let label: Seq<Mark> = match crate::labels::label_at(labels, p.slot as int, k) {
                        Some(t) => label_marks(t, x, y, d.options.data_labels_placement@[p.slot as int], a),
                        None => seq![],
                    };
                    after == before + dot + label
                },
            }
        }),
{
}

/// Wedge `k` of the pie runs from where the wedge before it ended, in the
/// shade of its position, on the middle row; its label, on the row below,
/// shows the start of the label of the value it stands for
/// (`wedge_label` of its own value index `ws[k].orig`).
pub proof fn law_pie_wedge_run_and_label(
    xl: Option<Seq<String>>,
    ws: Seq<Wedge>,
    a: Area,
    k: int,
)
    requires
        a.fits(),
        a.width > 0,
        a.height > 0,
        a.height > 0,
        wedges_ok(ws, a),
        0 <= k < ws.len(),
    ensures
        ({
            let before = crate::pie::pie_upto(xl, ws, a, k);
            let after = crate::pie::pie_upto(xl, ws, a, k + 1);
            let c = pie_cursor(ws, a, k);
            let bar_y = a.t() + a.height / 2;
            if c >= a.r() {
                after == before
            } else {
                &&& after.len() > before.len()
                &&& after.subrange(0, before.len() as int) == before
                &&& after[before.len() as int] matches Mark::Fill { x0, x1, y0, y1, symbol, .. } && x0 == c && x1
                    == pie_cursor(ws, a, k + 1) && y0 == bar_y && y1 == bar_y + 1 && symbol
                    == crate::series::shade(k)
                &&& after.len() > before.len() + 1 ==> (after[before.len() + 1int] matches Mark::Text { y, text, .. } && y
                    == bar_y + 1 && text == crate::pie::wedge_label(xl, ws[k].orig as int, k).take(text.len() as int))
            }
        }),
{
    let before = crate::pie::pie_upto(xl, ws, a, k);
    let after = crate::pie::pie_upto(xl, ws, a, k + 1);
    let c = pie_cursor(ws, a, k);
    lemma_cursor_bound(ws, a, k);
    if c < a.r() {
        assert(after.subrange(0, before.len() as int) =~= before);
        let label = crate::pie::wedge_label(xl, ws[k].orig as int, k);
        let e = wedge_end(ws, a, k, c);
        let run = sat_sub(e, c);
        let shown = if run < label.len() { label.take(run) } else { label };
        assert(shown == label.take(shown.len() as int));
        let wm = crate::pie::wedge_marks(xl, ws, a, k, c);
        assert(after == before + wm);
        assert(pie_cursor(ws, a, k + 1) == e);
        assert(after[before.len() as int] == wm[0]);
        assert(wm[0] matches Mark::Fill { x0, x1, y0, y1, symbol, .. } && x0 == c && x1 == e);
        assert(wm[0] matches Mark::Fill { y0, y1, symbol, .. } && y0 == a.t() + a.height / 2 && symbol == crate::series::shade(k));
        if after.len() > before.len() + 1 {
            assert(after[before.len() + 1int] == wm[1]);
        }
    } else {
        assert(after =~= before);
    }
}

/// One vertical bar of `hh` half rows: its first stroke fills, in its
/// series' shade, the `hh / 2` rows just above the baseline (clipped to the
/// plot) across its columns; when `hh` is odd and the plot has the row, its next stroke is a `▄` on
/// the row above those; with drop shadows, a `░` column just right of the
/// bar runs from the bar's top down to the baseline.
pub proof fn law_bar_shape(
    d: GraphDef,
    labels: Seq<Option<Vec<String>>>,
    slot: int,
    a: Area,
    shadow: bool,
    i: int,
    si: int,
    x_start: int,
    bw: int,
    hh: int,
)
    requires
        a.fits(),
        a.height >= 1,
        0 <= x_start,
        bw >= 1,
        x_start + bw + 1 <= u16::MAX,
        0 <= hh,
    ensures
        ({
            let m = crate::bars::one_bar(d, labels, slot, a, shadow, i, si, x_start, bw, hh);
            let pb = a.b() - 1;
            let x_end = if x_start + bw < a.r() { x_start + bw } else { a.r() };
            let body_top = if pb - hh / 2 > a.t() { pb - hh / 2 } else { a.t() };
            let half_row = sat_sub(pb, 1 + hh / 2);
            let has_half = hh % 2 == 1 && half_row >= a.t();
            let top = if has_half { half_row } else { body_top };
            let k: int = if has_half { 2 } else { 1 };
            &&& m[0] matches Mark::Fill { x0, x1, y0, y1, symbol, .. } && x0 == x_start && x1 == x_end && y0
                == body_top && y1 == pb && symbol == crate::series::shade(slot)
            &&& has_half ==> (m[1] matches Mark::Fill { x0, x1, y0, y1, symbol, .. } && x0 == x_start && x1 == x_end
                && y0 == half_row && y1 == half_row + 1 && symbol == "▄"@)
            &&& shadow && x_start + bw < a.r() ==> (m[k] matches Mark::Fill { x0, x1, y0, y1, symbol, .. } && x0
                == x_start + bw && x1 == x_start + bw + 1 && y0 == top && y1 == pb && symbol == "░"@)
        }),
{
    let m = crate::bars::one_bar(d, labels, slot, a, shadow, i, si, x_start, bw, hh);
    let b = crate::bars::bar_body(a, slot, x_start, bw, hh);
    let h = crate::bars::bar_half(a, x_start, bw, hh);
    let sh = crate::bars::bar_shadow(a, shadow, x_start, bw, hh);
    let l = crate::bars::point_label(d, labels, slot, a, i, x_start + bw / 2, crate::bars::bar_top_row(a, hh));
    assert(m == b + h + sh + l);
    assert(b.len() == 1);
    assert(m[0] == b[0]);
    if h.len() > 0 {
        assert(m[1] == h[0]);
    }
    let pb = a.b() - 1;
    let has_half = hh % 2 == 1 && sat_sub(pb, 1 + hh / 2) >= a.t();
    if sh.len() > 0 {
        assert(m[1 + h.len() as int] == sh[0]);
        assert((if has_half { 2int } else { 1int }) == 1 + h.len());
    }
}

/// One horizontal bar of `lh` half columns over rows `[y0, y0 + bh)`: its
/// first stroke fills with `█` the `lh / 2` columns just right of the
/// baseline column (clipped to the area); when `lh` is odd and a column is
/// left, its next stroke is a `▌` in the column after them.
pub proof fn law_side_bar_shape(
    d: GraphDef,
    labels: Seq<Option<Vec<String>>>,
    slot: int,
    a: Area,
    i: int,
    y0: int,
    bh: int,
    lh: int,
)
    requires
        a.fits(),
        a.x < u16::MAX,
        a.t() <= y0,
        bh >= 1,
        y0 + bh <= u16::MAX,
        0 <= lh,
        a.x + 1 + lh / 2 + 1 <= u16::MAX,
    ensures
        ({
            let m = crate::horizontal::side_bar(d, labels, slot, a, i, y0, bh, lh);
            let pl = a.l() + 1;
            let full_end = if pl + lh / 2 < a.r() { pl + lh / 2 } else { a.r() };
            let y_end = if y0 + bh < a.b() { y0 + bh } else { a.b() };
            &&& m[0] matches Mark::Fill { x0, x1, y0: r0, y1: r1, symbol, .. } && x0 == pl && x1 == full_end && r0 == y0
                && r1 == y_end && symbol == "█"@
            &&& lh % 2 == 1 && pl + lh / 2 < a.r() ==> (m[1] matches Mark::Fill { x0, x1, symbol, .. } && x0 == pl
                + lh / 2 && x1 == pl + lh / 2 + 1 && symbol == "▌"@)
        }),
{
}

/// An HLCO position at column `bx` (inside the plot): its first stroke is
/// the `│` from the High row down to the Low row (clipped to the plot) in
/// column `bx`; a drawn Close tick is a green `─` one column right of it,
/// and a drawn Open tick a red `─` one column left of it, on their rows.
pub proof fn law_hlco_ticks_beside_the_bar(
    d: GraphDef,
    labels: Seq<Option<Vec<String>>>,
    a: Area,
    i: int,
    t: crate::hlco::Tick,
)
    requires
        a.fits(),
        a.l() + t.x < a.r(),
    ensures
        ({
            let m = crate::hlco::hlco_bar(d, labels, a, i, t);
            let bx = a.l() + t.x;
            let row = |o: int| crate::hlco::up_row(a, o);
            let close_drawn = t.close matches Some(c) && bx + 1 < a.r() && a.t() <= row(c as int) < a.b();
            let open_drawn = t.open matches Some(o) && bx > a.l() && a.t() <= row(o as int) < a.b();
            let k: int = if close_drawn { 2 } else { 1 };
            &&& m[0] matches Mark::Fill { x0, x1, y0, y1, symbol, .. } && x0 == bx && x1 == bx + 1 && y0 == (if row(
                t.high as int,
            ) > a.t() { row(t.high as int) } else { a.t() }) && y1 == (if row(t.low as int) + 1 < a.b() {
                row(t.low as int) + 1
            } else {
                a.b()
            }) && symbol == "│"@
            &&& close_drawn ==> (m[1] matches Mark::Fill { x0, y0, tone, .. } && x0 == bx + 1 && y0 == row(
                t.close.unwrap() as int,
            ) && tone == Tone::Green)
            &&& open_drawn ==> (m[k] matches Mark::Fill { x0, y0, tone, .. } && x0 == bx - 1 && y0 == row(
                t.open.unwrap() as int,
            ) && tone == Tone::Red)
        }),
{
}

/// A data label's row and start follow its placement: Above one row up,
/// Below one row down, Center, Left and Right on the anchor's row; Above,
/// Below and Center centred on the anchor column, Right one cell after it,
/// Left ending one cell before it (or at the area's left edge when it
/// would lie wholly left of the area); a start left of the area is moved
/// to its edge, cutting off the characters before it.
pub proof fn law_label_placement(text: Seq<char>, ax: u16, ay: u16, p: DataLabelPlacement, a: Area)
    requires
        a.fits(),
    ensures
        ({
            let m = label_marks(text, ax as int, ay as int, p, a);
            let n = text.len() as int;
            let want_y: int = match p {
                DataLabelPlacement::Above => ay - 1,
                DataLabelPlacement::Below => ay + 1,
                _ => ay as int,
            };
            let want_x: int = match p {
                DataLabelPlacement::Right => ax + 1,
                DataLabelPlacement::Left => if ax - 1 <= a.l() { a.l() as int } else { ax - n - 1 },
                _ => ax - n / 2,
            };
            m.len() > 0 ==> (m[0] matches Mark::Text { x, y, text: shown, .. } && y == want_y && x == (if want_x
                > a.l() { want_x } else { a.l() as int }) && shown == text.subrange(x - want_x, x - want_x
                + shown.len()))
        }),
{
}

} // verus!
