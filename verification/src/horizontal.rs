//! Bar chart laid on its side.

use vstd::prelude::*;
use ratatui::buffer::Buffer;
use crate::area::{sat_add, sat_sub, Area};
use crate::bars::{
    label_text, lemma_point_label_fits, min, point_label, tone_box,
};
use crate::canvas::{buffer_area, buffer_cells, same_shape, Tone};
use crate::chrome::{centered, write_centered};
use crate::labels::paint_data_label;
use crate::marks::{apply_marks, box_stroke, canvas_ok, draw, marks_fit, marks_of, push_stroke, Mark, Stroke};
use crate::model::GraphDef;
use crate::series::{cell_of, Scaled};

verus! {

/// Row step between bars: the height shared out among them, at least one.
pub open spec fn row_step(h: int, n: int) -> int {
    if h / n < 1 { 1 } else { h / n }
}

/// Bar thickness: the step less one row of gap, at least one row.
pub open spec fn bar_rows(step: int) -> int {
    if step - 1 < 1 { 1 } else { step - 1 }
}

/// Bar `i` of `lh` half columns: full `█` cells right of the baseline
/// column, a `▌` half cell at the end when `lh` is odd (both clipped to
/// the area), over the bar's rows; then its data label anchored just past
/// the bar's end, on its middle row.
pub open spec fn side_bar(
    d: GraphDef,
    labels: Seq<Option<Vec<String>>>,
    slot: int,
    a: Area,
    i: int,
    y0: int,
    bh: int,
    lh: int,
) -> Seq<Mark> {
    let pl = sat_add(a.l(), 1);
    let pr = a.r();
    let fc = lh / 2;
    let half: int = if lh % 2 == 1 { 1 } else { 0 };
    let y1 = min(y0 + bh, a.b());
    seq![tone_box(pl, min(pl + fc, pr), y0, y1, "█"@, Tone::Cyan)] + (if half == 1 && pl + fc < pr {
        seq![tone_box(pl + fc, pl + fc + 1, y0, y1, "▌"@, Tone::Cyan)]
    } else {
        seq![]
    }) + point_label(d, labels, slot, a, i, pl + fc + half, y0 + bh / 2)
}

/// The first `c` bars.
pub open spec fn side_bars_upto(d: GraphDef, labels: Seq<Option<Vec<String>>>, s: Scaled, a: Area, c: int) -> Seq<Mark>
    decreases c,
{
    if c <= 0 {
        seq![]
    } else {
        let n = s.cells@.len() as int;
        let step = row_step(a.height as int, n);
        let rest = side_bars_upto(d, labels, s, a, c - 1);
        match cell_of(s, c - 1) {
            Some(lh) => rest + side_bar(d, labels, s.slot as int, a, c - 1, a.t() + (c - 1) * step, bar_rows(step), lh as int),
            None => rest,
        }
    }
}

/// The horizontal bar chart of the first set series: a hint when none is
/// set; nothing when the area is under two cells right of its baseline
/// column or under two rows, or the series is empty; else one bar per
/// value, top to bottom, then the `│` baseline column at the left edge.
pub open spec fn side_plot(d: GraphDef, labels: Seq<Option<Vec<String>>>, s: Option<Scaled>, a: Area) -> Seq<Mark> {
    match s {
        None => seq![centered(a, "No numeric A-series values to plot."@)],
        Some(s) => if sat_sub(a.r(), sat_add(a.l(), 1)) < 2 || a.height < 2 || s.cells@.len() == 0 {
            seq![]
        } else {
            side_bars_upto(d, labels, s, a, s.cells@.len() as int) + (if a.l() < a.r() {
                seq![tone_box(a.l(), a.l() + 1, a.t(), a.b(), "│"@, Tone::Gray)]
            } else {
                seq![]
            })
        },
    }
}

/// Row arithmetic of one bar stays within `max(h, n) + 1` rows of the top.
pub proof fn lemma_side_rows(h: int, n: int, i: int)
    requires
        h >= 0,
        n >= 1,
        0 <= i < n,
    ensures
        0 <= i * row_step(h, n),
        i * row_step(h, n) + bar_rows(row_step(h, n)) <= crate::bars::max(h, n) + 1,
        bar_rows(row_step(h, n)) >= 1,
{
    let step = row_step(h, n);
    assert(0 <= h / n) by (nonlinear_arith) requires h >= 0, n >= 1;
    assert(n * (h / n) <= h) by (nonlinear_arith) requires h >= 0, n >= 1;
    assert(i * step >= 0) by (nonlinear_arith) requires i >= 0, step >= 1;
    if h / n >= 1 {
        assert(i * step <= (n - 1) * step) by (nonlinear_arith) requires i <= n - 1, step >= 1;
        assert((n - 1) * step == n * step - step) by (nonlinear_arith);
    } else {
        assert(i * step == i);
    }
}

/// The series fits the arithmetic: a slot, values no longer than twice the
/// plot width, and rows and columns that stay representable.
pub open spec fn side_ok(s: Scaled, a: Area) -> bool {
    &&& s.slot < 6
    &&& a.b() + 2 <= u16::MAX
    &&& a.t() + s.cells@.len() + 2 <= u16::MAX
    &&& forall|i: int| 0 <= i < s.cells@.len() && #[trigger] s.cells@[i] is Some ==> s.cells@[i].unwrap() <= 2 * sat_sub(a.r(), sat_add(a.l(), 1))
}

fn plan_side_bar(
    def: &GraphDef,
    labels: &[Option<Vec<String>>; 6],
    slot: usize,
    area: Area,
    i: usize,
    y0: u16,
    bh: u16,
    lh: u16,
    plan: &mut Vec<Stroke>,
)
    requires
        area.fits(),
        slot < 6,
        area.t() <= y0,
        y0 + bh + 1 <= u16::MAX,
        lh <= 2 * sat_sub(area.r(), sat_add(area.l(), 1)),
    ensures
        marks_of(final(plan)@) == marks_of(old(plan)@) + side_bar(*def, labels@, slot as int, area, i as int, y0 as int, bh as int, lh as int),
{
    let ghost m0 = marks_of(plan@);
    let plot_left = area.left().saturating_add(1);
    let plot_right = area.right();
    let full_cols = lh / 2;
    let has_half = lh % 2 == 1;
    let y1 = if y0 + bh < area.bottom() { y0 + bh } else { area.bottom() };
    let x_end = if plot_left + full_cols < plot_right { plot_left + full_cols } else { plot_right };
    push_stroke(plan, box_stroke(plot_left, x_end, y0, y1, "█", Tone::Cyan, false));
    if has_half {
        let x = plot_left + full_cols;
        if x < plot_right {
            push_stroke(plan, box_stroke(x, x + 1, y0, y1, "▌", Tone::Cyan, false));
        }
    }
    let ghost m2 = marks_of(plan@);
    let half: u16 = if has_half { 1 } else { 0 };
    match label_text(labels, slot, i) {
        Some(label) => {
            let placement = def.options.data_labels_placement[slot];
            paint_data_label(label, plot_left + full_cols + half, y0 + bh / 2, placement, area, plan);
        },
        None => {
            assert(marks_of(plan@) =~= m2 + seq![]);
        },
    }
    assert(marks_of(plan@) =~= m0 + side_bar(*def, labels@, slot as int, area, i as int, y0 as int, bh as int, lh as int));
}

/// Plan the horizontal bar chart of `series`.
pub fn plan_side_bars(
    def: &GraphDef,
    labels: &[Option<Vec<String>>; 6],
    series: &Option<Scaled>,
    area: Area,
    plan: &mut Vec<Stroke>,
)
    requires
        area.fits(),
        *series matches Some(s) ==> side_ok(s, area),
    ensures
        marks_of(final(plan)@) == marks_of(old(plan)@) + side_plot(*def, labels@, *series, area),
{
    let ghost m0 = marks_of(plan@);
    let s = match series {
        None => {
            write_centered(area, "No numeric A-series values to plot.", plan);
            return;
        },
        Some(s) => s,
    };
    let plot_left = area.left().saturating_add(1);
    let plot_right = area.right();
    let plot_width = plot_right.saturating_sub(plot_left);
    if plot_width < 2 || area.height < 2 || s.cells.len() == 0 {
        assert(marks_of(plan@) =~= m0 + seq![]);
        return;
    }
    let bar_count = s.cells.len() as u16;
    let q = area.height / bar_count;
    let step: u16 = if q < 1 { 1 } else { q };
    let bh: u16 = if step.saturating_sub(1) < 1 { 1 } else { step - 1 };
    let n = s.cells.len();
    assert(step == row_step(area.height as int, n as int));
    assert(bh == bar_rows(step as int));
    let mut i: usize = 0;
    while i < n
        invariant
            area.fits(),
            side_ok(*s, area),
            n == s.cells@.len(),
            n >= 1,
            step == row_step(area.height as int, n as int),
            bh == bar_rows(step as int),
            i <= n,
            marks_of(plan@) == m0 + side_bars_upto(*def, labels@, *s, area, i as int),
        decreases n - i,
    {
        proof {
            lemma_side_rows(area.height as int, n as int, i as int);
        }
        match s.cells[i] {
            Some(lh) => {
                let y0 = area.top() + (i as u16) * step;
                assert(s.cells@[i as int] is Some);
                plan_side_bar(def, labels, s.slot, area, i, y0, bh, lh, plan);
            },
            None => {},
        }
        i = i + 1;
    }
    proof {
        reveal_strlit("│");
    }
    if area.left() < area.right() {
        push_stroke(plan, box_stroke(area.left(), area.left() + 1, area.top(), area.bottom(), "│", Tone::Gray, false));
    } else {
        assert(marks_of(plan@) =~= marks_of(plan@) + seq![]);
    }
}

proof fn lemma_side_bar_fits(
    d: GraphDef,
    labels: Seq<Option<Vec<String>>>,
    slot: int,
    a: Area,
    i: int,
    y0: int,
    bh: int,
    lh: int,
)
    requires
        a.fits(),
        0 <= slot < 6,
        a.t() <= y0,
        bh >= 1,
        y0 + bh + 1 <= u16::MAX,
        0 <= lh <= 2 * sat_sub(a.r(), sat_add(a.l(), 1)),
    ensures
        marks_fit(side_bar(d, labels, slot, a, i, y0, bh, lh), a),
{
    let pl = sat_add(a.l(), 1);
    let pr = a.r();
    let fc = lh / 2;
    let half: int = if lh % 2 == 1 { 1 } else { 0 };
    let y1 = min(y0 + bh, a.b());
    let p1 = seq![tone_box(pl, min(pl + fc, pr), y0, y1, "█"@, Tone::Cyan)];
    let p2 = if half == 1 && pl + fc < pr {
        seq![tone_box(pl + fc, pl + fc + 1, y0, y1, "▌"@, Tone::Cyan)]
    } else {
        seq![]
    };
    assert(marks_fit(p1, a)) by {
        assert forall|k: int| 0 <= k < p1.len() implies crate::marks::mark_fits(#[trigger] p1[k], a) by {}
    }
    assert(marks_fit(p2, a)) by {
        assert forall|k: int| 0 <= k < p2.len() implies crate::marks::mark_fits(#[trigger] p2[k], a) by {}
    }
    lemma_point_label_fits(d, labels, slot, a, i, pl + fc + half, y0 + bh / 2);
    crate::chrome::lemma_fit_concat(p1, p2, a);
    crate::chrome::lemma_fit_concat(p1 + p2, point_label(d, labels, slot, a, i, pl + fc + half, y0 + bh / 2), a);
}

proof fn lemma_side_bars_upto_fits(d: GraphDef, labels: Seq<Option<Vec<String>>>, s: Scaled, a: Area, c: int)
    requires
        a.fits(),
        side_ok(s, a),
        s.cells@.len() >= 1,
        0 <= c <= s.cells@.len(),
    ensures
        marks_fit(side_bars_upto(d, labels, s, a, c), a),
    decreases c,
{
    if c <= 0 {
        assert(marks_fit(side_bars_upto(d, labels, s, a, c), a));
    } else {
        lemma_side_bars_upto_fits(d, labels, s, a, c - 1);
        let n = s.cells@.len() as int;
        let step = row_step(a.height as int, n);
        lemma_side_rows(a.height as int, n, c - 1);
        match cell_of(s, c - 1) {
            Some(lh) => {
                assert(s.cells@[c - 1] is Some);
                lemma_side_bar_fits(d, labels, s.slot as int, a, c - 1, a.t() + (c - 1) * step, bar_rows(step), lh as int);
                crate::chrome::lemma_fit_concat(side_bars_upto(d, labels, s, a, c - 1), side_bar(d, labels, s.slot as int, a, c - 1, a.t() + (c - 1) * step, bar_rows(step), lh as int), a);
            },
            None => {},
        }
    }
}

/// The horizontal chart's strokes lie inside `a`, its data labels included.
pub proof fn lemma_side_plot_fits(d: GraphDef, labels: Seq<Option<Vec<String>>>, s: Option<Scaled>, a: Area)
    requires
        a.fits(),
        a.height >= 1,
        s matches Some(s) ==> side_ok(s, a),
    ensures
        marks_fit(side_plot(d, labels, s, a), a),
{
    let m = side_plot(d, labels, s, a);
    match s {
        None => {
            crate::chrome::lemma_centered(a, "No numeric A-series values to plot."@);
            assert(marks_fit(m, a));
        },
        Some(s) => {
            if sat_sub(a.r(), sat_add(a.l(), 1)) < 2 || a.height < 2 || s.cells@.len() == 0 {
                assert(marks_fit(m, a));
            } else {
                lemma_side_bars_upto_fits(d, labels, s, a, s.cells@.len() as int);
                let base: Seq<Mark> = if a.l() < a.r() {
                    seq![tone_box(a.l(), a.l() + 1, a.t(), a.b(), "│"@, Tone::Gray)]
                } else {
                    seq![]
                };
                assert(marks_fit(base, a)) by {
                    assert forall|k: int| 0 <= k < base.len() implies crate::marks::mark_fits(#[trigger] base[k], a) by {}
                }
                crate::chrome::lemma_fit_concat(side_bars_upto(d, labels, s, a, s.cells@.len() as int), base, a);
            }
        },
    }
}

/// Horizontal bar chart of the first set series (`None` when no series is
/// set): one bar per value, top to bottom, growing right from the baseline
/// column; each `cells` value is the bar's length in half columns, with a
/// `▌` half block at the end when odd; data labels just past each bar's
/// end; the `│` baseline column at the left edge.
pub fn paint_horizontal(
    def: &GraphDef,
    labels: &[Option<Vec<String>>; 6],
    series: &Option<Scaled>,
    area: Area,
    buf: &mut Buffer,
)
    requires
        canvas_ok(*old(buf)),
        area.fits(),
        area.height >= 1,
        area.within(buffer_area(*old(buf))),
        *series matches Some(s) ==> side_ok(s, area),
    ensures
        canvas_ok(*final(buf)),
        same_shape(*old(buf), *final(buf)),
        buffer_cells(*final(buf)) == apply_marks(
            buffer_cells(*old(buf)),
            buffer_area(*old(buf)),
            side_plot(*def, labels@, *series, area),
        ),
{
    let mut plan: Vec<Stroke> = Vec::new();
    plan_side_bars(def, labels, series, area, &mut plan);
    proof {
        assert(marks_of(plan@) =~= side_plot(*def, labels@, *series, area));
        lemma_side_plot_fits(*def, labels@, *series, area);
        crate::chrome::lemma_fit_widen(marks_of(plan@), area, buffer_area(*buf));
    }
    draw(buf, &plan);
}

} // verus!
