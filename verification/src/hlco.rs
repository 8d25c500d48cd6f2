//! High-Low-Close-Open chart.

use vstd::prelude::*;
use ratatui::buffer::Buffer;
use crate::area::{sat_sub, Area};
use crate::bars::{
    baseline, label_text, lemma_point_label_fits, max, min, point_label, tone_box,
};
use crate::canvas::{buffer_area, buffer_cells, same_shape, Tone};
use crate::chrome::{centered, write_centered};
use crate::labels::paint_data_label;
use crate::marks::{apply_marks, box_stroke, canvas_ok, draw, marks_fit, marks_of, push_stroke, Mark, Stroke};
use crate::model::{GraphDef, GraphValues};

verus! {

/// One HLCO position placed on the cell grid by the caller: the column
/// offset from the plot's left edge, and the row offsets (up from the row
/// above the baseline) of the bar's top (the higher of High and Low,
/// clipped to the Y window), its bottom, and the Close and Open ticks when
/// those are numeric and inside the window.
#[derive(Clone, Copy, Debug)]
pub struct Tick {
    pub x: u16,
    pub high: u16,
    pub low: u16,
    pub close: Option<u16>,
    pub open: Option<u16>,
}

/// Row of a row offset up from the row above the baseline.
pub open spec fn up_row(a: Area, o: int) -> int {
    sat_sub(sat_sub(a.b(), 1), 1 + o)
}

/// The strokes of one HLCO position: a `│` column from the top to the
/// bottom of the bar, a green `─` Close tick right of it, a red `─` Open
/// tick left of it, and the High series' data label at the bar's top.
pub open spec fn hlco_bar(d: GraphDef, labels: Seq<Option<Vec<String>>>, a: Area, i: int, t: Tick) -> Seq<Mark> {
    let bx = a.l() + t.x;
    if bx >= a.r() {
        seq![]
    } else {
        let by_high = up_row(a, t.high as int);
        let by_low = up_row(a, t.low as int);
        let bar = seq![tone_box(bx, bx + 1, max(by_high, a.t()), min(by_low + 1, a.b()), "│"@, Tone::Gray)];
        let close = match t.close {
            Some(c) => if bx + 1 < a.r() && up_row(a, c as int) >= a.t() && up_row(a, c as int) < a.b() {
                seq![tone_box(bx + 1, bx + 2, up_row(a, c as int), up_row(a, c as int) + 1, "─"@, Tone::Green)]
            } else {
                seq![]
            },
            None => seq![],
        };
        let open = match t.open {
            Some(o) => if bx > a.l() && up_row(a, o as int) >= a.t() && up_row(a, o as int) < a.b() {
                seq![tone_box(bx - 1, bx, up_row(a, o as int), up_row(a, o as int) + 1, "─"@, Tone::Red)]
            } else {
                seq![]
            },
            None => seq![],
        };
        bar + close + open + point_label(d, labels, 0, a, i, bx, by_high)
    }
}

/// The first `c` HLCO positions.
pub open spec fn hlco_upto(d: GraphDef, labels: Seq<Option<Vec<String>>>, ts: Seq<Option<Tick>>, a: Area, c: int) -> Seq<Mark>
    decreases c,
{
    if c <= 0 {
        seq![]
    } else {
        let rest = hlco_upto(d, labels, ts, a, c - 1);
        match ts[c - 1] {
            Some(t) => rest + hlco_bar(d, labels, a, c - 1, t),
            None => rest,
        }
    }
}

/// The HLCO chart: a hint when series A (High) is unset or empty; nothing
/// when the plot has under two rows above its baseline or is under two
/// cells wide; a hint when no value is numeric (`ticks` is `None`); else
/// each placed position, then the baseline.
pub open spec fn hlco_plot<V>(d: GraphDef, vals: GraphValues<V>, ticks: Option<Seq<Option<Tick>>>, a: Area) -> Seq<Mark> {
    if vals.data@[0] is None || vals.data@[0].unwrap()@.len() == 0 {
        seq![centered(a, "HLCO needs series A (high)."@)]
    } else if sat_sub(sat_sub(a.b(), 1), a.t()) < 2 || a.width < 2 {
        seq![]
    } else {
        match ticks {
            None => seq![centered(a, "HLCO has no numeric values."@)],
            Some(ts) => hlco_upto(d, vals.data_label_text@, ts, a, ts.len() as int) + seq![baseline(a)],
        }
    }
}

/// Every tick lies in the plot.
pub open spec fn ticks_ok(ts: Seq<Option<Tick>>, a: Area) -> bool {
    let ph = sat_sub(sat_sub(a.b(), 1), a.t());
    forall|i: int| 0 <= i < ts.len() && #[trigger] ts[i] is Some ==> {
        let t = ts[i].unwrap();
        &&& t.x <= a.width
        &&& t.high < ph
        &&& t.low < ph
        &&& (t.close matches Some(c) ==> c < ph)
        &&& (t.open matches Some(o) ==> o < ph)
    }
}

fn plan_hlco_bar(
    def: &GraphDef,
    labels: &[Option<Vec<String>>; 6],
    area: Area,
    i: usize,
    t: Tick,
    plan: &mut Vec<Stroke>,
)
    requires
        area.fits(),
        ticks_ok(seq![Some(t)], area),
    ensures
        marks_of(final(plan)@) == marks_of(old(plan)@) + hlco_bar(*def, labels@, area, i as int, t),
{
    let ghost m0 = marks_of(plan@);
    assert(seq![Some(t)][0] is Some);
    let bx = area.left() + t.x;
    if bx >= area.right() {
        assert(marks_of(plan@) =~= m0 + seq![]);
        return;
    }
    proof {
        reveal_strlit("│");
        reveal_strlit("─");
    }
    let top = area.top();
    let bottom = area.bottom();
    let plot_bottom = bottom.saturating_sub(1);
    let by_high = plot_bottom.saturating_sub(1 + t.high);
    let by_low = plot_bottom.saturating_sub(1 + t.low);
    let from = if by_high > top { by_high } else { top };
    let to = if by_low + 1 < bottom { by_low + 1 } else { bottom };
    push_stroke(plan, box_stroke(bx, bx + 1, from, to, "│", Tone::Gray, false));
    let ghost m1 = marks_of(plan@);
    if let Some(c) = t.close {
        let by = plot_bottom.saturating_sub(1 + c);
        let cx = bx.saturating_add(1);
        if cx < area.right() && by >= top && by < bottom {
            push_stroke(plan, box_stroke(cx, cx + 1, by, by + 1, "─", Tone::Green, false));
        }
    }
    let ghost m2 = marks_of(plan@);
    if let Some(o) = t.open {
        if bx > area.left() {
            let by = plot_bottom.saturating_sub(1 + o);
            let ox = bx - 1;
            if by >= top && by < bottom {
                push_stroke(plan, box_stroke(ox, ox + 1, by, by + 1, "─", Tone::Red, false));
            }
        }
    }
    let ghost m3 = marks_of(plan@);
    match label_text(labels, 0, i) {
        Some(label) => {
            let placement = def.options.data_labels_placement[0];
            paint_data_label(label, bx, by_high, placement, area, plan);
        },
        None => {
            assert(marks_of(plan@) =~= m3 + seq![]);
        },
    }
    assert(marks_of(plan@) =~= m0 + hlco_bar(*def, labels@, area, i as int, t));
}

/// Plan the HLCO chart.
pub fn plan_hlco<V>(
    def: &GraphDef,
    vals: &GraphValues<V>,
    ticks: &Option<Vec<Option<Tick>>>,
    area: Area,
    plan: &mut Vec<Stroke>,
)
    requires
        area.fits(),
        *ticks matches Some(ts) ==> ticks_ok(ts@, area),
    ensures
        marks_of(final(plan)@) == marks_of(old(plan)@) + hlco_plot(*def, *vals, match *ticks { Some(ts) => Some(ts@), None => None }, area),
{
    let ghost m0 = marks_of(plan@);
    let high = match &vals.data[0] {
        None => {
            write_centered(area, "HLCO needs series A (high).", plan);
            return;
        },
        Some(h) => h,
    };
    if high.len() == 0 {
        write_centered(area, "HLCO needs series A (high).", plan);
        return;
    }
    let top = area.top();
    let plot_bottom = area.bottom().saturating_sub(1);
    let plot_height = plot_bottom.saturating_sub(top);
    if plot_height < 2 || area.width < 2 {
        assert(marks_of(plan@) =~= m0 + seq![]);
        return;
    }
    let ts = match ticks {
        None => {
            write_centered(area, "HLCO has no numeric values.", plan);
            return;
        },
        Some(ts) => ts,
    };
    let labels = &vals.data_label_text;
    let n = ts.len();
    let mut i: usize = 0;
    while i < n
        invariant
            area.fits(),
            ticks_ok(ts@, area),
            labels == &vals.data_label_text,
            plot_bottom == sat_sub(area.b(), 1),
            n == ts@.len(),
            i <= n,
            marks_of(plan@) == m0 + hlco_upto(*def, labels@, ts@, area, i as int),
        decreases n - i,
    {
        match ts[i] {
            Some(t) => {
                assert(ts@[i as int] is Some);
                assert(ticks_ok(seq![Some(t)], area)) by {
                    assert(seq![Some(t)][0] == ts@[i as int]);
                }
                plan_hlco_bar(def, labels, area, i, t, plan);
            },
            None => {},
        }
        i = i + 1;
    }
    proof {
        reveal_strlit("─");
    }
    push_stroke(plan, box_stroke(area.left(), area.right(), plot_bottom, plot_bottom + 1, "─", Tone::Gray, false));
}

proof fn lemma_hlco_bar_fits(d: GraphDef, labels: Seq<Option<Vec<String>>>, a: Area, i: int, t: Tick)
    requires
        a.fits(),
    ensures
        marks_fit(hlco_bar(d, labels, a, i, t), a),
{
    let m = hlco_bar(d, labels, a, i, t);
    let bx = a.l() + t.x;
    if bx >= a.r() {
        assert(marks_fit(m, a));
    } else {
        let by_high = up_row(a, t.high as int);
        let by_low = up_row(a, t.low as int);
        let bar = seq![tone_box(bx, bx + 1, max(by_high, a.t()), min(by_low + 1, a.b()), "│"@, Tone::Gray)];
        let close = match t.close {
            Some(c) => if bx + 1 < a.r() && up_row(a, c as int) >= a.t() && up_row(a, c as int) < a.b() {
                seq![tone_box(bx + 1, bx + 2, up_row(a, c as int), up_row(a, c as int) + 1, "─"@, Tone::Green)]
            } else {
                seq![]
            },
            None => seq![],
        };
        let open = match t.open {
            Some(o) => if bx > a.l() && up_row(a, o as int) >= a.t() && up_row(a, o as int) < a.b() {
                seq![tone_box(bx - 1, bx, up_row(a, o as int), up_row(a, o as int) + 1, "─"@, Tone::Red)]
            } else {
                seq![]
            },
            None => seq![],
        };
        assert(marks_fit(bar, a)) by {
            assert forall|k: int| 0 <= k < bar.len() implies crate::marks::mark_fits(#[trigger] bar[k], a) by {}
        }
        assert(marks_fit(close, a)) by {
            assert forall|k: int| 0 <= k < close.len() implies crate::marks::mark_fits(#[trigger] close[k], a) by {}
        }
        assert(marks_fit(open, a)) by {
            assert forall|k: int| 0 <= k < open.len() implies crate::marks::mark_fits(#[trigger] open[k], a) by {}
        }
        lemma_point_label_fits(d, labels, 0, a, i, bx, by_high);
        crate::chrome::lemma_fit_concat(bar, close, a);
        crate::chrome::lemma_fit_concat(bar + close, open, a);
        crate::chrome::lemma_fit_concat(bar + close + open, point_label(d, labels, 0, a, i, bx, by_high), a);
    }
}

proof fn lemma_hlco_upto_fits(d: GraphDef, labels: Seq<Option<Vec<String>>>, ts: Seq<Option<Tick>>, a: Area, c: int)
    requires
        a.fits(),
        0 <= c <= ts.len(),
    ensures
        marks_fit(hlco_upto(d, labels, ts, a, c), a),
    decreases c,
{
    if c <= 0 {
        assert(marks_fit(hlco_upto(d, labels, ts, a, c), a));
    } else {
        lemma_hlco_upto_fits(d, labels, ts, a, c - 1);
        match ts[c - 1] {
            Some(t) => {
                lemma_hlco_bar_fits(d, labels, a, c - 1, t);
                crate::chrome::lemma_fit_concat(hlco_upto(d, labels, ts, a, c - 1), hlco_bar(d, labels, a, c - 1, t), a);
            },
            None => {},
        }
    }
}

/// HLCO chart, terminal flavour: at each position placed by the caller
/// (`ticks` is `None` when no value is numeric), a `│` from High down to
/// Low, a green Close tick one column right and a red Open tick one column
/// left, the High series' data label at the bar's top; then the baseline.
/// A hint when series A (High) is unset or empty.
pub fn paint_hlco<V>(
    def: &GraphDef,
    vals: &GraphValues<V>,
    ticks: &Option<Vec<Option<Tick>>>,
    area: Area,
    buf: &mut Buffer,
)
    requires
        canvas_ok(*old(buf)),
        area.fits(),
        area.height >= 1,
        area.within(buffer_area(*old(buf))),
        *ticks matches Some(ts) ==> ticks_ok(ts@, area),
    ensures
        canvas_ok(*final(buf)),
        same_shape(*old(buf), *final(buf)),
        buffer_cells(*final(buf)) == apply_marks(
            buffer_cells(*old(buf)),
            buffer_area(*old(buf)),
            hlco_plot(*def, *vals, match *ticks { Some(ts) => Some(ts@), None => None }, area),
        ),
{
    let mut plan: Vec<Stroke> = Vec::new();
    plan_hlco(def, vals, ticks, area, &mut plan);
    proof {
        let tv = match ticks { Some(ts) => Some(ts@), None => None };
        assert(marks_of(plan@) =~= hlco_plot(*def, *vals, tv, area));
        lemma_hlco_plot_fits(*def, *vals, tv, area);
        crate::chrome::lemma_fit_widen(marks_of(plan@), area, buffer_area(*buf));
    }
    draw(buf, &plan);
}

/// The HLCO chart's strokes lie inside `a`, its data labels included.
pub proof fn lemma_hlco_plot_fits<V>(d: GraphDef, vals: GraphValues<V>, ticks: Option<Seq<Option<Tick>>>, a: Area)
    requires
        a.fits(),
        a.height >= 1,
    ensures
        marks_fit(hlco_plot(d, vals, ticks, a), a),
{
    let m = hlco_plot(d, vals, ticks, a);
    let labels = vals.data_label_text@;
    crate::chrome::lemma_centered(a, "HLCO needs series A (high)."@);
    crate::chrome::lemma_centered(a, "HLCO has no numeric values."@);
    if vals.data@[0] is None || vals.data@[0].unwrap()@.len() == 0
        || sat_sub(sat_sub(a.b(), 1), a.t()) < 2 || a.width < 2 || ticks is None {
        assert(marks_fit(m, a));
    } else {
        let ts = ticks.unwrap();
        lemma_hlco_upto_fits(d, labels, ts, a, ts.len() as int);
        assert(marks_fit(seq![baseline(a)], a));
        crate::chrome::lemma_fit_concat(hlco_upto(d, labels, ts, a, ts.len() as int), seq![baseline(a)], a);
    }
}

} // verus!
