//! Stacked vertical bar chart.

use vstd::prelude::*;
use ratatui::buffer::Buffer;
use crate::area::{sat_add, sat_sub, Area};
use crate::bars::{
    baseline, bar_width, group_step, label_text, lemma_bar_columns, lemma_point_label_fits, min, point_label, series_ok, tone_box,
};
use crate::canvas::{buffer_area, buffer_cells, same_shape, Tone};
use crate::chrome::{centered, write_centered};
use crate::labels::paint_data_label;
use crate::marks::{apply_marks, box_stroke, canvas_ok, draw, marks_fit, marks_of, push_stroke, Mark, Stroke};
use crate::model::GraphDef;
use crate::series::{cell_at, cell_of, longest, longest_len, shade, shade_glyph, Scaled};

verus! {

/// Rows already stacked at column `i` below series `c`: the sum of the
/// drawn segments of the series before it, saturating.
pub open spec fn stack_offset(ss: Seq<Scaled>, i: int, c: int) -> int
    decreases c,
{
    if c <= 0 {
        0
    } else {
        let o = stack_offset(ss, i, c - 1);
        match cell_of(ss[c - 1], i) {
            Some(seg) => if seg > 0 { sat_add(o, seg as int) } else { o },
            None => o,
        }
    }
}

/// The segment of series `si` at column `i`, `seg` rows tall, stacked on
/// `ro` rows: its rows in the series' shade, clipped to the plot height,
/// and its data label at the segment's top.
pub open spec fn segment(
    d: GraphDef,
    labels: Seq<Option<Vec<String>>>,
    slot: int,
    a: Area,
    i: int,
    si: int,
    x0: int,
    bw: int,
    ro: int,
    seg: int,
) -> Seq<Mark> {
    let pb = sat_sub(a.b(), 1);
    let ph = sat_sub(pb, a.t());
    if seg == 0 {
        seq![]
    } else {
        seq![tone_box(x0, min(x0 + bw, a.r()), sat_sub(pb, min(ro + seg, ph)), sat_sub(pb, min(ro, ph)), shade(slot), Tone::Cyan)]
            + point_label(d, labels, slot, a, i, x0 + bw / 2, sat_sub(pb, sat_add(ro, seg)))
    }
}

/// The segments of the first `c` series at column `i`.
pub open spec fn stack_column(
    d: GraphDef,
    labels: Seq<Option<Vec<String>>>,
    ss: Seq<Scaled>,
    a: Area,
    i: int,
    c: int,
) -> Seq<Mark>
    decreases c,
{
    if c <= 0 {
        seq![]
    } else {
        let n = longest(ss);
        let step = group_step(a.width as int, n);
        let bw = bar_width(step, 1);
        let rest = stack_column(d, labels, ss, a, i, c - 1);
        match cell_of(ss[c - 1], i) {
            Some(seg) => rest + segment(d, labels, ss[c - 1].slot as int, a, i, c - 1, a.l() + i * step, bw, stack_offset(ss, i, c - 1), seg as int),
            None => rest,
        }
    }
}

/// The stacks of the first `c` columns; a column that is not drawn has
/// none.
pub open spec fn stacks_upto(
    d: GraphDef,
    labels: Seq<Option<Vec<String>>>,
    ss: Seq<Scaled>,
    drawn: Seq<bool>,
    a: Area,
    c: int,
) -> Seq<Mark>
    decreases c,
{
    if c <= 0 {
        seq![]
    } else {
        stacks_upto(d, labels, ss, drawn, a, c - 1) + (if drawn[c - 1] {
            stack_column(d, labels, ss, a, c - 1, ss.len() as int)
        } else {
            seq![]
        })
    }
}

/// The stacked bar chart: at each drawn column, the series' segments
/// stacked from the bottom up in A..F order, then the baseline; a hint when
/// no series is set; nothing when the plot has under two rows above its
/// baseline or no values.
pub open spec fn stacked_plot(
    d: GraphDef,
    labels: Seq<Option<Vec<String>>>,
    ss: Seq<Scaled>,
    drawn: Seq<bool>,
    a: Area,
) -> Seq<Mark> {
    let pb = sat_sub(a.b(), 1);
    if ss.len() == 0 {
        seq![centered(a, "No A..F data to stack."@)]
    } else if sat_sub(pb, a.t()) < 2 || longest(ss) == 0 {
        seq![]
    } else {
        stacks_upto(d, labels, ss, drawn, a, longest(ss)) + seq![baseline(a)]
    }
}

proof fn lemma_offset_bound(ss: Seq<Scaled>, i: int, c: int)
    ensures
        0 <= stack_offset(ss, i, c) <= u16::MAX,
    decreases c,
{
    if c > 0 {
        lemma_offset_bound(ss, i, c - 1);
    }
}

fn plan_segment(
    def: &GraphDef,
    labels: &[Option<Vec<String>>; 6],
    slot: usize,
    area: Area,
    i: usize,
    si: usize,
    x0: u16,
    bw: u16,
    ro: u16,
    seg: u16,
    plan: &mut Vec<Stroke>,
)
    requires
        area.fits(),
        area.height >= 1,
        slot < 6,
        x0 + bw + 1 <= u16::MAX,
    ensures
        marks_of(final(plan)@) == marks_of(old(plan)@) + segment(*def, labels@, slot as int, area, i as int, si as int, x0 as int, bw as int, ro as int, seg as int),
{
    let ghost m0 = marks_of(plan@);
    if seg == 0 {
        assert(marks_of(plan@) =~= m0 + seq![]);
        return;
    }
    let top = area.top();
    let plot_bottom = area.bottom().saturating_sub(1);
    let plot_height = plot_bottom.saturating_sub(top);
    let right = area.right();
    let x_end = if x0 + bw < right { x0 + bw } else { right };
    let upper: u32 = if (ro as u32) + (seg as u32) < plot_height as u32 { ro as u32 + seg as u32 } else { plot_height as u32 };
    let lower: u16 = if ro < plot_height { ro } else { plot_height };
    push_stroke(plan, box_stroke(x0, x_end, plot_bottom - upper as u16, plot_bottom - lower, shade_glyph(slot), Tone::Cyan, false));
    let ghost m1 = marks_of(plan@);
    let row_offset = ro.saturating_add(seg);
    match label_text(labels, slot, i) {
        Some(label) => {
            let placement = def.options.data_labels_placement[slot];
            paint_data_label(label, x0 + bw / 2, plot_bottom.saturating_sub(row_offset), placement, area, plan);
        },
        None => {
            assert(marks_of(plan@) =~= m1 + seq![]);
        },
    }
    assert(marks_of(plan@) =~= m0 + segment(*def, labels@, slot as int, area, i as int, si as int, x0 as int, bw as int, ro as int, seg as int));
}

/// Plan the stacked bar chart of `series`; `drawn[i]` says whether column
/// `i` is drawn.
pub fn plan_stacked(
    def: &GraphDef,
    labels: &[Option<Vec<String>>; 6],
    series: &Vec<Scaled>,
    drawn: &Vec<bool>,
    area: Area,
    plan: &mut Vec<Stroke>,
)
    requires
        area.fits(),
        area.height >= 1,
        series_ok(series@, area),
        drawn@.len() == longest(series@),
    ensures
        marks_of(final(plan)@) == marks_of(old(plan)@) + stacked_plot(*def, labels@, series@, drawn@, area),
{
    let ghost m0 = marks_of(plan@);
    if series.len() == 0 {
        write_centered(area, "No A..F data to stack.", plan);
        return;
    }
    let top = area.top();
    let plot_bottom = area.bottom().saturating_sub(1);
    let plot_height = plot_bottom.saturating_sub(top);
    if plot_height < 2 {
        assert(marks_of(plan@) =~= m0 + seq![]);
        return;
    }
    let n = longest_len(series);
    if n == 0 {
        assert(marks_of(plan@) =~= m0 + seq![]);
        return;
    }
    let bar_count = n as u16;
    let q = area.width / bar_count;
    let step: u16 = if q < 1 { 1 } else { q };
    let bw: u16 = if step.saturating_sub(1) < 1 { 1 } else { step - 1 };
    assert(step == group_step(area.width as int, n as int));
    assert(bw == bar_width(step as int, 1));
    let mut i: usize = 0;
    while i < n
        invariant
            area.fits(),
            area.height >= 1,
            series_ok(series@, area),
            drawn@.len() == n,
            n == longest(series@),
            n >= 1,
            1 <= series@.len() <= 6,
            step == group_step(area.width as int, n as int),
            bw == bar_width(step as int, 1),
            i <= n,
            marks_of(plan@) == m0 + stacks_upto(*def, labels@, series@, drawn@, area, i as int),
        decreases n - i,
    {
        proof {
            lemma_bar_columns(area.width as int, n as int, 1, i as int, 0);
        }
        let x0 = area.left() + (i as u16) * step;
        if drawn[i] {
            let ghost g0 = marks_of(plan@);
            let mut ro: u16 = 0;
            let mut si: usize = 0;
            while si < series.len()
                invariant
                    area.fits(),
                    area.height >= 1,
                    series_ok(series@, area),
                    n == longest(series@),
                    n >= 1,
                    1 <= series@.len() <= 6,
                    step == group_step(area.width as int, n as int),
                    bw == bar_width(step as int, 1),
                    i < n,
                    x0 == area.l() + i * step,
                    x0 + bw + 1 <= u16::MAX,
                    si <= series@.len(),
                    ro == stack_offset(series@, i as int, si as int),
                    marks_of(plan@) == g0 + stack_column(*def, labels@, series@, area, i as int, si as int),
                decreases series@.len() - si,
            {
                match cell_at(&series[si], i) {
                    Some(seg) => {
                        assert(series@[si as int].slot < 6);
                        assert(seg > 0 ==> stack_offset(series@, i as int, si + 1) == sat_add(ro as int, seg as int));
                        plan_segment(def, labels, series[si].slot, area, i, si, x0, bw, ro, seg, plan);
                        if seg > 0 {
                            ro = ro.saturating_add(seg);
                        }
                    },
                    None => {},
                }
                si = si + 1;
            }
        } else {
            assert(marks_of(plan@) =~= marks_of(plan@) + seq![]);
        }
        i = i + 1;
    }
    proof {
        reveal_strlit("─");
    }
    push_stroke(plan, box_stroke(area.left(), area.right(), plot_bottom, plot_bottom + 1, "─", Tone::Gray, false));
}

proof fn lemma_segment_fits(
    d: GraphDef,
    labels: Seq<Option<Vec<String>>>,
    slot: int,
    a: Area,
    i: int,
    si: int,
    x0: int,
    bw: int,
    ro: int,
    seg: int,
)
    requires
        a.fits(),
        a.height >= 1,
        0 <= slot < 6,
        a.l() <= x0,
        bw >= 1,
        x0 + bw + 1 <= u16::MAX,
        ro >= 0,
        seg >= 0,
    ensures
        marks_fit(segment(d, labels, slot, a, i, si, x0, bw, ro, seg), a),
{
    let m = segment(d, labels, slot, a, i, si, x0, bw, ro, seg);
    if seg == 0 {
        assert(marks_fit(m, a));
    } else {
        let pb = sat_sub(a.b(), 1);
        let b = seq![tone_box(x0, min(x0 + bw, a.r()), sat_sub(pb, min(ro + seg, sat_sub(pb, a.t()))), sat_sub(pb, min(ro, sat_sub(pb, a.t()))), shade(slot), Tone::Cyan)];
        let ph = sat_sub(pb, a.t());
        let y0 = sat_sub(pb, min(ro + seg, ph));
        let y1 = sat_sub(pb, min(ro, ph));
        assert(pb >= a.t());
        assert(a.t() <= y0 <= pb);
        assert(y1 <= pb && pb <= a.b());
        assert(marks_fit(b, a)) by {
            assert forall|k: int| 0 <= k < b.len() implies crate::marks::mark_fits(#[trigger] b[k], a) by {
                assert(b[k] == tone_box(x0, min(x0 + bw, a.r()), y0, y1, shade(slot), Tone::Cyan));
            }
        }
        lemma_point_label_fits(d, labels, slot, a, i, x0 + bw / 2, sat_sub(pb, sat_add(ro, seg)));
        crate::chrome::lemma_fit_concat(b, point_label(d, labels, slot, a, i, x0 + bw / 2, sat_sub(pb, sat_add(ro, seg))), a);
    }
}

proof fn lemma_stack_column_fits(
    d: GraphDef,
    labels: Seq<Option<Vec<String>>>,
    ss: Seq<Scaled>,
    a: Area,
    i: int,
    c: int,
)
    requires
        a.fits(),
        a.height >= 1,
        series_ok(ss, a),
        1 <= ss.len(),
        longest(ss) >= 1,
        0 <= i < longest(ss),
        0 <= c <= ss.len(),
    ensures
        marks_fit(stack_column(d, labels, ss, a, i, c), a),
    decreases c,
{
    if c <= 0 {
        assert(marks_fit(stack_column(d, labels, ss, a, i, c), a));
    } else {
        lemma_stack_column_fits(d, labels, ss, a, i, c - 1);
        let n = longest(ss);
        let step = group_step(a.width as int, n);
        let bw = bar_width(step, 1);
        lemma_bar_columns(a.width as int, n, 1, i, 0);
        lemma_offset_bound(ss, i, c - 1);
        match cell_of(ss[c - 1], i) {
            Some(seg) => {
                lemma_segment_fits(d, labels, ss[c - 1].slot as int, a, i, c - 1, a.l() + i * step, bw, stack_offset(ss, i, c - 1), seg as int);
                crate::chrome::lemma_fit_concat(stack_column(d, labels, ss, a, i, c - 1), segment(d, labels, ss[c - 1].slot as int, a, i, c - 1, a.l() + i * step, bw, stack_offset(ss, i, c - 1), seg as int), a);
            },
            None => {},
        }
    }
}

proof fn lemma_stacks_upto_fits(
    d: GraphDef,
    labels: Seq<Option<Vec<String>>>,
    ss: Seq<Scaled>,
    drawn: Seq<bool>,
    a: Area,
    c: int,
)
    requires
        a.fits(),
        a.height >= 1,
        series_ok(ss, a),
        1 <= ss.len(),
        longest(ss) >= 1,
        0 <= c <= longest(ss),
    ensures
        marks_fit(stacks_upto(d, labels, ss, drawn, a, c), a),
    decreases c,
{
    if c <= 0 {
        assert(marks_fit(stacks_upto(d, labels, ss, drawn, a, c), a));
    } else {
        lemma_stacks_upto_fits(d, labels, ss, drawn, a, c - 1);
        let col = if drawn[c - 1] { stack_column(d, labels, ss, a, c - 1, ss.len() as int) } else { seq![] };
        if drawn[c - 1] {
            lemma_stack_column_fits(d, labels, ss, a, c - 1, ss.len() as int);
        } else {
            assert(marks_fit(col, a));
        }
        crate::chrome::lemma_fit_concat(stacks_upto(d, labels, ss, drawn, a, c - 1), col, a);
    }
}

/// The stacked chart's strokes lie inside `a`, its data labels included.
pub proof fn lemma_stacked_plot_fits(d: GraphDef, labels: Seq<Option<Vec<String>>>, ss: Seq<Scaled>, drawn: Seq<bool>, a: Area)
    requires
        a.fits(),
        a.height >= 1,
        series_ok(ss, a),
    ensures
        marks_fit(stacked_plot(d, labels, ss, drawn, a), a),
{
    let m = stacked_plot(d, labels, ss, drawn, a);
    let pb = sat_sub(a.b(), 1);
    if ss.len() == 0 {
        crate::chrome::lemma_centered(a, "No A..F data to stack."@);
        assert(marks_fit(m, a));
    } else if sat_sub(pb, a.t()) < 2 || longest(ss) == 0 {
        assert(marks_fit(m, a));
    } else {
        lemma_stacks_upto_fits(d, labels, ss, drawn, a, longest(ss));
        let base = seq![baseline(a)];
        assert(marks_fit(base, a));
        crate::chrome::lemma_fit_concat(stacks_upto(d, labels, ss, drawn, a, longest(ss)), base, a);
    }
}

/// Stacked vertical bar chart (Bar with Stacked on, and the Stack type):
/// each set series is a segment of one column per X position, stacking
/// from the bottom up, A first, in the series' shade; each `cells` value is
/// the segment's height in rows, already scaled by the caller (to the
/// largest column total, or with 100% on to the column's own total), and
/// `drawn[i]` says whether column `i` is drawn at all. Segments are clipped
/// at the plot's top; data labels sit at each segment's top.
pub fn paint_stacked(
    def: &GraphDef,
    labels: &[Option<Vec<String>>; 6],
    series: &Vec<Scaled>,
    drawn: &Vec<bool>,
    area: Area,
    buf: &mut Buffer,
)
    requires
        canvas_ok(*old(buf)),
        area.fits(),
        area.height >= 1,
        area.within(buffer_area(*old(buf))),
        series_ok(series@, area),
        drawn@.len() == longest(series@),
    ensures
        canvas_ok(*final(buf)),
        same_shape(*old(buf), *final(buf)),
        buffer_cells(*final(buf)) == apply_marks(
            buffer_cells(*old(buf)),
            buffer_area(*old(buf)),
            stacked_plot(*def, labels@, series@, drawn@, area),
        ),
{
    let mut plan: Vec<Stroke> = Vec::new();
    plan_stacked(def, labels, series, drawn, area, &mut plan);
    proof {
        assert(marks_of(plan@) =~= stacked_plot(*def, labels@, series@, drawn@, area));
        lemma_stacked_plot_fits(*def, labels@, series@, drawn@, area);
        crate::chrome::lemma_fit_widen(marks_of(plan@), area, buffer_area(*buf));
    }
    draw(buf, &plan);
}

} // verus!
