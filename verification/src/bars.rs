//! Vertical, stacked and horizontal bar charts, painted from series the
//! caller has scaled to cells.

use vstd::prelude::*;
use ratatui::buffer::Buffer;
use crate::area::{sat_sub, Area};
use crate::canvas::{buffer_area, buffer_cells, same_shape, Tone};
use crate::chrome::{centered, write_centered};
use crate::labels::{label_at, label_marks, paint_data_label};
use crate::marks::{apply_marks, box_stroke, canvas_ok, draw, marks_fit, marks_of, push_stroke, Mark, Stroke};
use crate::model::{DataLabelPlacement, GraphDef};
use crate::series::{cell_at, cell_of, longest, longest_len, shade, shade_glyph, Scaled};

verus! {

/// The text of label `i` of `slot`, when bound and not empty.
pub fn label_text(labels: &[Option<Vec<String>>; 6], slot: usize, i: usize) -> (r: Option<&str>)
    requires
        slot < 6,
    ensures
        match r {
            Some(s) => label_at(labels@, slot as int, i as int) == Some(s@),
            None => label_at(labels@, slot as int, i as int) is None,
        },
{
    match &labels[slot] {
        Some(v) => {
            if i < v.len() && v[i].as_str().unicode_len() > 0 {
                Some(v[i].as_str())
            } else {
                None
            }
        },
        None => None,
    }
}

/// Every series names a slot, and no series length is past what the
/// column arithmetic of `a` holds.
pub open spec fn series_ok(ss: Seq<Scaled>, a: Area) -> bool {
    &&& forall|k: int| 0 <= k < ss.len() ==> #[trigger] ss[k].slot < 6
    &&& ss.len() <= 6
    &&& a.r() + 8 <= u16::MAX
    &&& a.l() + longest(ss) + 8 <= u16::MAX
}

/// Every scaled value is at most `limit`.
pub open spec fn cells_within(ss: Seq<Scaled>, limit: int) -> bool {
    forall|k: int, i: int| 0 <= k < ss.len() && 0 <= i < ss[k].cells@.len() && #[trigger] ss[k].cells@[i] is Some
        ==> ss[k].cells@[i].unwrap() <= limit
}

/// Column step between X positions: the width shared out among them, at
/// least one cell.
pub open spec fn group_step(w: int, n: int) -> int {
    if w / n < 1 { 1 } else { w / n }
}

/// Width of one bar of a group of `k`: the group less one cell of gap
/// (at least one cell), shared out, at least one cell each.
pub open spec fn bar_width(step: int, k: int) -> int {
    let gw = if step - 1 < 1 { 1 } else { step - 1 };
    if gw / k < 1 { 1 } else { gw / k }
}

pub open spec fn max(a: int, b: int) -> int {
    if a >= b { a } else { b }
}

pub open spec fn min(a: int, b: int) -> int {
    if a <= b { a } else { b }
}

pub open spec fn tone_box(x0: int, x1: int, y0: int, y1: int, s: Seq<char>, t: Tone) -> Mark {
    Mark::Fill { x0: x0 as u16, x1: x1 as u16, y0: y0 as u16, y1: y1 as u16, symbol: s, tone: t }
}

/// The first row of the full rows of a bar of `hh` half rows: `hh / 2`
/// rows up from the baseline, clipped to the plot.
pub open spec fn body_top(a: Area, hh: int) -> int {
    max(sat_sub(sat_sub(a.b(), 1), hh / 2), a.t())
}

/// The full rows of a bar of `hh` half rows, in the series' shade, up from
/// the baseline and clipped to the plot.
pub open spec fn bar_body(a: Area, si: int, x_start: int, bw: int, hh: int) -> Seq<Mark> {
    seq![tone_box(x_start, min(x_start + bw, a.r()), body_top(a, hh), sat_sub(a.b(), 1), shade(si), Tone::Cyan)]
}

/// The `▄` half row on top of a bar of an odd number of half rows.
pub open spec fn bar_half(a: Area, x_start: int, bw: int, hh: int) -> Seq<Mark> {
    let y = sat_sub(sat_sub(a.b(), 1), 1 + hh / 2);
    if hh % 2 == 1 && y >= a.t() {
        seq![tone_box(x_start, min(x_start + bw, a.r()), y, y + 1, "▄"@, Tone::Cyan)]
    } else {
        seq![]
    }
}

/// The row of a bar's top cell.
pub open spec fn bar_top_row(a: Area, hh: int) -> int {
    sat_sub(sat_sub(a.b(), 1), hh / 2 + (if hh % 2 == 1 { 1int } else { 0int }))
}

/// The drop shadow: a `░` column right of the bar for its full height.
pub open spec fn bar_shadow(a: Area, shadow: bool, x_start: int, bw: int, hh: int) -> Seq<Mark> {
    if shadow && x_start + bw < a.r() {
        seq![tone_box(x_start + bw, x_start + bw + 1, max(bar_top_row(a, hh), a.t()), sat_sub(a.b(), 1), "░"@, Tone::DarkGray)]
    } else {
        seq![]
    }
}

/// The data label of point `i` of `slot`, anchored at `(ax, ay)`.
pub open spec fn point_label(
    d: GraphDef,
    labels: Seq<Option<Vec<String>>>,
    slot: int,
    a: Area,
    i: int,
    ax: int,
    ay: int,
) -> Seq<Mark> {
    match label_at(labels, slot, i) {
        Some(t) => label_marks(t, ax, ay, d.options.data_labels_placement@[slot], a),
        None => seq![],
    }
}

/// The strokes of bar `si` at X position `i`, for a value of `hh` half
/// rows: its full rows, its half row, its drop shadow, and its data label
/// anchored at the bar's top, centred on the bar.
pub open spec fn one_bar(
    d: GraphDef,
    labels: Seq<Option<Vec<String>>>,
    slot: int,
    a: Area,
    shadow: bool,
    i: int,
    si: int,
    x_start: int,
    bw: int,
    hh: int,
) -> Seq<Mark> {
    bar_body(a, slot, x_start, bw, hh) + bar_half(a, x_start, bw, hh) + bar_shadow(a, shadow, x_start, bw, hh)
        + point_label(d, labels, slot, a, i, x_start + bw / 2, bar_top_row(a, hh))
}

/// The strokes of the bar of series `si` at X position `i` (none when the
/// value is not drawn).
pub open spec fn bar_at(
    d: GraphDef,
    labels: Seq<Option<Vec<String>>>,
    ss: Seq<Scaled>,
    a: Area,
    shadow: bool,
    i: int,
    si: int,
) -> Seq<Mark> {
    let n = longest(ss);
    let step = group_step(a.width as int, n);
    let bw = bar_width(step, ss.len() as int);
    match cell_of(ss[si], i) {
        None => seq![],
        Some(hh) => one_bar(d, labels, ss[si].slot as int, a, shadow, i, si, a.l() + i * step + si * bw, bw, hh as int),
    }
}

/// The bars of the first `c` series at X position `i`.
pub open spec fn bars_in_group(
    d: GraphDef,
    labels: Seq<Option<Vec<String>>>,
    ss: Seq<Scaled>,
    a: Area,
    shadow: bool,
    i: int,
    c: int,
) -> Seq<Mark>
    decreases c,
{
    if c <= 0 {
        seq![]
    } else {
        bars_in_group(d, labels, ss, a, shadow, i, c - 1) + bar_at(d, labels, ss, a, shadow, i, c - 1)
    }
}

/// The bars of the first `c` X positions.
pub open spec fn bars_upto(
    d: GraphDef,
    labels: Seq<Option<Vec<String>>>,
    ss: Seq<Scaled>,
    a: Area,
    shadow: bool,
    c: int,
) -> Seq<Mark>
    decreases c,
{
    if c <= 0 {
        seq![]
    } else {
        bars_upto(d, labels, ss, a, shadow, c - 1) + bars_in_group(d, labels, ss, a, shadow, c - 1, ss.len() as int)
    }
}

/// The baseline row of `─` at the bottom of `a`.
pub open spec fn baseline(a: Area) -> Mark {
    tone_box(a.l(), a.r(), sat_sub(a.b(), 1), sat_sub(a.b(), 1) + 1, "─"@, Tone::Gray)
}

/// The vertical bar chart: a side-by-side cluster of bars at each X
/// position, one per series in A..F order, then the baseline; a hint when
/// no series is set; nothing when the plot has under two rows above its
/// baseline or no values.
pub open spec fn bar_plot(
    d: GraphDef,
    labels: Seq<Option<Vec<String>>>,
    ss: Seq<Scaled>,
    a: Area,
    shadow: bool,
) -> Seq<Mark> {
    let pb = sat_sub(a.b(), 1);
    if ss.len() == 0 {
        seq![centered(a, "No A..F data to plot."@)]
    } else if sat_sub(pb, a.t()) < 2 || longest(ss) == 0 {
        seq![]
    } else {
        bars_upto(d, labels, ss, a, shadow, longest(ss)) + seq![baseline(a)]
    }
}

/// Column arithmetic of one bar stays within `max(w, n) + 5` cells of the
/// left edge.
pub proof fn lemma_bar_columns(w: int, n: int, k: int, i: int, si: int)
    requires
        w >= 0,
        n >= 1,
        1 <= k <= 6,
        0 <= i < n,
        0 <= si < k,
    ensures
        0 <= i * group_step(w, n),
        0 <= si * bar_width(group_step(w, n), k),
        i * group_step(w, n) + (si + 1) * bar_width(group_step(w, n), k) <= max(w, n) + 5,
        bar_width(group_step(w, n), k) >= 1,
{
    let step = group_step(w, n);
    let gw = if step - 1 < 1 { 1 } else { step - 1 };
    let bw = bar_width(step, k);
    assert(0 <= w / n) by (nonlinear_arith) requires w >= 0, n >= 1;
    assert(n * (w / n) <= w) by (nonlinear_arith) requires w >= 0, n >= 1;
    assert(0 <= gw / k) by (nonlinear_arith) requires gw >= 1, k >= 1;
    assert(k * (gw / k) <= gw) by (nonlinear_arith) requires gw >= 1, k >= 1;
    assert(i * step >= 0) by (nonlinear_arith) requires i >= 0, step >= 1;
    assert(si * bw >= 0) by (nonlinear_arith) requires si >= 0, bw >= 1;
    if w / n >= 1 {
        assert(i * step <= (n - 1) * step) by (nonlinear_arith) requires i <= n - 1, step >= 1;
        assert((n - 1) * step == n * step - step) by (nonlinear_arith);
        if gw / k >= 1 {
            assert((si + 1) * bw <= k * bw) by (nonlinear_arith) requires si + 1 <= k, bw >= 1;
        } else {
            assert((si + 1) * bw == si + 1);
        }
    } else {
        assert(i * step == i);
        assert((si + 1) * bw == si + 1) by (nonlinear_arith) requires bw == 1;
    }
}

/// Plan the bar of series `si` at X position `i`.
fn plan_one_bar(
    def: &GraphDef,
    labels: &[Option<Vec<String>>; 6],
    slot: usize,
    area: Area,
    drop_shadow: bool,
    i: usize,
    si: usize,
    x_start: u16,
    bw: u16,
    hh: u16,
    plan: &mut Vec<Stroke>,
)
    requires
        area.fits(),
        slot < 6,
        si < 6,
        x_start + bw + 1 <= u16::MAX,
        area.height >= 1,
        hh <= 2 * sat_sub(sat_sub(area.b(), 1), area.t()),
    ensures
        marks_of(final(plan)@) == marks_of(old(plan)@) + one_bar(
            *def,
            labels@,
            slot as int,
            area,
            drop_shadow,
            i as int,
            si as int,
            x_start as int,
            bw as int,
            hh as int,
        ),
{
    let ghost m0 = marks_of(plan@);
    let top = area.top();
    let right = area.right();
    let plot_bottom = area.bottom().saturating_sub(1);
    let full_rows = hh / 2;
    let has_half = hh % 2 == 1;
    let half: u16 = if has_half { 1 } else { 0 };
    let x_end = if x_start + bw < right { x_start + bw } else { right };
    let body_top = if plot_bottom.saturating_sub(full_rows) > top { plot_bottom.saturating_sub(full_rows) } else { top };
    push_stroke(plan, box_stroke(x_start, x_end, body_top, plot_bottom, shade_glyph(slot), Tone::Cyan, false));
    let ghost m1 = marks_of(plan@);
    assert(m1 == m0 + bar_body(area, slot as int, x_start as int, bw as int, hh as int));
    if has_half {
        let y = plot_bottom.saturating_sub(1 + full_rows);
        if y >= top {
            push_stroke(plan, box_stroke(x_start, x_end, y, y + 1, "▄", Tone::Cyan, false));
        }
    }
    let ghost m2 = marks_of(plan@);
    assert(m2 =~= m1 + bar_half(area, x_start as int, bw as int, hh as int));
    let bar_top = plot_bottom.saturating_sub(full_rows + half);
    assert(bar_top == bar_top_row(area, hh as int));
    if drop_shadow {
        let shadow_x = x_start + bw;
        if shadow_x < right {
            let from = if bar_top > top { bar_top } else { top };
            push_stroke(plan, box_stroke(shadow_x, shadow_x + 1, from, plot_bottom, "░", Tone::DarkGray, false));
        }
    }
    let ghost m3 = marks_of(plan@);
    assert(m3 =~= m2 + bar_shadow(area, drop_shadow, x_start as int, bw as int, hh as int));
    match label_text(labels, slot, i) {
        Some(label) => {
            let placement = def.options.data_labels_placement[slot];
            assert(label_at(labels@, slot as int, i as int) is Some);
            assert(bar_top >= top) by {
                assert(full_rows + half <= sat_sub(plot_bottom as int, top as int));
            }
            paint_data_label(label, x_start + bw / 2, bar_top, placement, area, plan);
        },
        None => {
            assert(marks_of(plan@) =~= m3 + seq![]);
        },
    }
    let ghost m4 = marks_of(plan@);
    assert(m4 == m3 + point_label(*def, labels@, slot as int, area, i as int, x_start + bw / 2, bar_top as int));
    assert(m4 =~= m0 + one_bar(
        *def,
        labels@,
        slot as int,
        area,
        drop_shadow,
        i as int,
        si as int,
        x_start as int,
        bw as int,
        hh as int,
    ));
}

/// Plan the vertical bar chart of `series` in `area`.
pub fn plan_bars(
    def: &GraphDef,
    labels: &[Option<Vec<String>>; 6],
    series: &Vec<Scaled>,
    area: Area,
    drop_shadow: bool,
    plan: &mut Vec<Stroke>,
)
    requires
        area.fits(),
        area.height >= 1,
        series_ok(series@, area),
        cells_within(series@, 2 * sat_sub(sat_sub(area.b(), 1), area.t())),
    ensures
        marks_of(final(plan)@) == marks_of(old(plan)@) + bar_plot(*def, labels@, series@, area, drop_shadow),
{
    let ghost m0 = marks_of(plan@);
    if series.len() == 0 {
        write_centered(area, "No A..F data to plot.", plan);
        return;
    }
    let top = area.top();
    let plot_bottom = area.bottom().saturating_sub(1);
    let plot_height = plot_bottom.saturating_sub(top);
    if plot_height < 2 {
        assert(marks_of(plan@) =~= m0 + seq![]);
        return;
    }
    let n = longest_len(series);
    if n == 0 {
        assert(marks_of(plan@) =~= m0 + seq![]);
        return;
    }
    let group_count = n as u16;
    let q = area.width / group_count;
    let step: u16 = if q < 1 { 1 } else { q };
    let group_width: u16 = if step.saturating_sub(1) < 1 { 1 } else { step - 1 };
    let series_count = series.len() as u16;
    let qb = group_width / series_count;
    let bw: u16 = if qb < 1 { 1 } else { qb };
    assert(step == group_step(area.width as int, n as int));
    assert(bw == bar_width(step as int, series@.len() as int));
    let mut i: usize = 0;
    while i < n
        invariant
            area.fits(),
            area.height >= 1,
            series_ok(series@, area),
            cells_within(series@, 2 * sat_sub(sat_sub(area.b(), 1), area.t())),
            n == longest(series@),
            n >= 1,
            1 <= series@.len() <= 6,
            step == group_step(area.width as int, n as int),
            bw == bar_width(step as int, series@.len() as int),
            i <= n,
            marks_of(plan@) == m0 + bars_upto(*def, labels@, series@, area, drop_shadow, i as int),
        decreases n - i,
    {
        proof {
            lemma_bar_columns(area.width as int, n as int, series@.len() as int, i as int, 0);
        }
        let group_x0 = area.left() + (i as u16) * step;
        let ghost g0 = marks_of(plan@);
        let mut si: usize = 0;
        while si < series.len()
            invariant
                area.fits(),
                area.height >= 1,
                series_ok(series@, area),
                cells_within(series@, 2 * sat_sub(sat_sub(area.b(), 1), area.t())),
                n == longest(series@),
                n >= 1,
                1 <= series@.len() <= 6,
                step == group_step(area.width as int, n as int),
                bw == bar_width(step as int, series@.len() as int),
                i < n,
                group_x0 == area.l() + i * step,
                si <= series@.len(),
                marks_of(plan@) == g0 + bars_in_group(*def, labels@, series@, area, drop_shadow, i as int, si as int),
            decreases series@.len() - si,
        {
            proof {
                lemma_bar_columns(area.width as int, n as int, series@.len() as int, i as int, si as int);
                assert(i * step + (si + 1) * bw <= max(area.width as int, n as int) + 5);
                assert((si + 1) * bw == si * bw + bw) by (nonlinear_arith);
                assert(area.l() + max(area.width as int, n as int) + 8 <= u16::MAX);
                assert(group_x0 + si * bw + bw + 1 <= u16::MAX);
            }
            match cell_at(&series[si], i) {
                Some(hh) => {
                    let x_start = group_x0 + (si as u16) * bw;
                    assert(series@[si as int].slot < 6);
                    assert(hh <= 2 * sat_sub(sat_sub(area.b(), 1), area.t()));
                    plan_one_bar(def, labels, series[si].slot, area, drop_shadow, i, si, x_start, bw, hh, plan);
                },
                None => {
                    assert(marks_of(plan@) =~= marks_of(plan@) + seq![]);
                },
            }
            si = si + 1;
        }
        i = i + 1;
    }
    proof {
        reveal_strlit("─");
    }
    push_stroke(plan, box_stroke(area.left(), area.right(), plot_bottom, plot_bottom + 1, "─", Tone::Gray, false));
}

/// A data label lies inside `a`.
pub proof fn lemma_label_fits(text: Seq<char>, ax: int, ay: int, p: DataLabelPlacement, a: Area)
    requires
        a.fits(),
    ensures
        marks_fit(label_marks(text, ax, ay, p, a), a),
{
    let m = label_marks(text, ax, ay, p, a);
    assert forall|k: int| 0 <= k < m.len() implies crate::marks::mark_fits(#[trigger] m[k], a) by {}
}

/// The label of point `i` of `slot` lies inside `a`.
pub proof fn lemma_point_label_fits(
    d: GraphDef,
    labels: Seq<Option<Vec<String>>>,
    slot: int,
    a: Area,
    i: int,
    ax: int,
    ay: int,
)
    requires
        a.fits(),
        0 <= slot < 6,
    ensures
        marks_fit(point_label(d, labels, slot, a, i, ax, ay), a),
{
    match label_at(labels, slot, i) {
        Some(t) => {
            lemma_label_fits(t, ax, ay, d.options.data_labels_placement@[slot], a);
        },
        None => {
            assert(marks_fit(point_label(d, labels, slot, a, i, ax, ay), a));
        },
    }
}

proof fn lemma_one_bar_fits(
    d: GraphDef,
    labels: Seq<Option<Vec<String>>>,
    slot: int,
    a: Area,
    shadow: bool,
    i: int,
    si: int,
    x_start: int,
    bw: int,
    hh: int,
)
    requires
        a.fits(),
        0 <= slot < 6,
        a.l() <= x_start,
        bw >= 1,
        x_start + bw + 1 <= u16::MAX,
        a.height >= 1,
        hh >= 0,
    ensures
        marks_fit(one_bar(d, labels, slot, a, shadow, i, si, x_start, bw, hh), a),
{
    let p1 = bar_body(a, slot, x_start, bw, hh);
    let p2 = bar_half(a, x_start, bw, hh);
    let p3 = bar_shadow(a, shadow, x_start, bw, hh);
    let p4 = point_label(d, labels, slot, a, i, x_start + bw / 2, bar_top_row(a, hh));
    assert(marks_fit(p1, a)) by {
        assert forall|k: int| 0 <= k < p1.len() implies crate::marks::mark_fits(#[trigger] p1[k], a) by {}
    }
    assert(marks_fit(p2, a)) by {
        assert forall|k: int| 0 <= k < p2.len() implies crate::marks::mark_fits(#[trigger] p2[k], a) by {}
    }
    assert(marks_fit(p3, a)) by {
        assert forall|k: int| 0 <= k < p3.len() implies crate::marks::mark_fits(#[trigger] p3[k], a) by {}
    }
    lemma_point_label_fits(d, labels, slot, a, i, x_start + bw / 2, bar_top_row(a, hh));
    crate::chrome::lemma_fit_concat(p1, p2, a);
    crate::chrome::lemma_fit_concat(p1 + p2, p3, a);
    crate::chrome::lemma_fit_concat(p1 + p2 + p3, p4, a);
}

proof fn lemma_bars_in_group_fit(
    d: GraphDef,
    labels: Seq<Option<Vec<String>>>,
    ss: Seq<Scaled>,
    a: Area,
    shadow: bool,
    i: int,
    c: int,
)
    requires
        a.fits(),
        a.height >= 1,
        series_ok(ss, a),
        1 <= ss.len(),
        longest(ss) >= 1,
        0 <= i < longest(ss),
        0 <= c <= ss.len(),
    ensures
        marks_fit(bars_in_group(d, labels, ss, a, shadow, i, c), a),
    decreases c,
{
    if c <= 0 {
        assert(marks_fit(bars_in_group(d, labels, ss, a, shadow, i, c), a));
    } else {
        lemma_bars_in_group_fit(d, labels, ss, a, shadow, i, c - 1);
        let n = longest(ss);
        let step = group_step(a.width as int, n);
        let bw = bar_width(step, ss.len() as int);
        lemma_bar_columns(a.width as int, n, ss.len() as int, i, c - 1);
        let b = bar_at(d, labels, ss, a, shadow, i, c - 1);
        match cell_of(ss[c - 1], i) {
            None => {
                assert(marks_fit(b, a));
            },
            Some(hh) => {
                assert(c * bw == (c - 1) * bw + bw) by (nonlinear_arith);
                lemma_one_bar_fits(d, labels, ss[c - 1].slot as int, a, shadow, i, c - 1, a.l() + i * step + (c - 1) * bw, bw, hh as int);
            },
        }
        crate::chrome::lemma_fit_concat(bars_in_group(d, labels, ss, a, shadow, i, c - 1), b, a);
    }
}

proof fn lemma_bars_upto_fit(
    d: GraphDef,
    labels: Seq<Option<Vec<String>>>,
    ss: Seq<Scaled>,
    a: Area,
    shadow: bool,
    c: int,
)
    requires
        a.fits(),
        a.height >= 1,
        series_ok(ss, a),
        1 <= ss.len(),
        longest(ss) >= 1,
        0 <= c <= longest(ss),
    ensures
        marks_fit(bars_upto(d, labels, ss, a, shadow, c), a),
    decreases c,
{
    if c <= 0 {
        assert(marks_fit(bars_upto(d, labels, ss, a, shadow, c), a));
    } else {
        lemma_bars_upto_fit(d, labels, ss, a, shadow, c - 1);
        lemma_bars_in_group_fit(d, labels, ss, a, shadow, c - 1, ss.len() as int);
        crate::chrome::lemma_fit_concat(bars_upto(d, labels, ss, a, shadow, c - 1), bars_in_group(d, labels, ss, a, shadow, c - 1, ss.len() as int), a);
    }
}

/// The bar chart's strokes lie inside `a`, its data labels included.
pub proof fn lemma_bar_plot_fits(d: GraphDef, labels: Seq<Option<Vec<String>>>, ss: Seq<Scaled>, a: Area, shadow: bool)
    requires
        a.fits(),
        a.height >= 1,
        series_ok(ss, a),
    ensures
        marks_fit(bar_plot(d, labels, ss, a, shadow), a),
{
    let m = bar_plot(d, labels, ss, a, shadow);
    let pb = sat_sub(a.b(), 1);
    if ss.len() == 0 {
        crate::chrome::lemma_centered(a, "No A..F data to plot."@);
        assert(marks_fit(m, a));
    } else if sat_sub(pb, a.t()) < 2 || longest(ss) == 0 {
        assert(marks_fit(m, a));
    } else {
        lemma_bars_upto_fit(d, labels, ss, a, shadow, longest(ss));
        let base = seq![baseline(a)];
        assert(marks_fit(base, a));
        crate::chrome::lemma_fit_concat(bars_upto(d, labels, ss, a, shadow, longest(ss)), base, a);
    }
}

/// Vertical bar chart: each set series becomes its own bar in a
/// side-by-side cluster at each X position, in a distinct shade
/// (A=`█`, B=`▓`, C=`▒`, D=`░`, then again), each `cells` value being
/// the bar's height in half rows with a `▄` half block on top when odd;
/// optional drop shadows, data labels at the bars' tops, and a baseline.
pub fn paint_bar(
    def: &GraphDef,
    labels: &[Option<Vec<String>>; 6],
    series: &Vec<Scaled>,
    area: Area,
    buf: &mut Buffer,
    drop_shadow: bool,
)
    requires
        canvas_ok(*old(buf)),
        area.fits(),
        area.height >= 1,
        area.within(buffer_area(*old(buf))),
        series_ok(series@, area),
        cells_within(series@, 2 * sat_sub(sat_sub(area.b(), 1), area.t())),
    ensures
        canvas_ok(*final(buf)),
        same_shape(*old(buf), *final(buf)),
        buffer_cells(*final(buf)) == apply_marks(
            buffer_cells(*old(buf)),
            buffer_area(*old(buf)),
            bar_plot(*def, labels@, series@, area, drop_shadow),
        ),
{
    let mut plan: Vec<Stroke> = Vec::new();
    plan_bars(def, labels, series, area, drop_shadow, &mut plan);
    proof {
        assert(marks_of(plan@) =~= bar_plot(*def, labels@, series@, area, drop_shadow));
        lemma_bar_plot_fits(*def, labels@, series@, area, drop_shadow);
        crate::chrome::lemma_fit_widen(marks_of(plan@), area, buffer_area(*buf));
    }
    draw(buf, &plan);
}

} // verus!
