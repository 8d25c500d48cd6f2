//! Dot-per-sample line chart and XY scatter, painted from points the
//! caller has already placed on the cell grid.

use vstd::prelude::*;
use ratatui::buffer::Buffer;
use crate::area::{sat_sub, Area};
use crate::bars::{
    baseline, label_text, lemma_point_label_fits, point_label, tone_box,
};
use crate::canvas::{buffer_area, buffer_cells, same_shape, Tone};
use crate::chrome::{centered, write_centered};
use crate::labels::paint_data_label;
use crate::marks::{apply_marks, box_stroke, canvas_ok, draw, marks_fit, marks_of, push_stroke, Mark, Stroke};
use crate::model::{GraphDef, GraphValues};

verus! {

/// A point placed on the cell grid: its column offset from the plot's left
/// edge and its row offset up from the row above the baseline.
pub type Spot = (u16, u16);

/// The points of one series: its slot and, per value, where it lands, or
/// `None` when it is not drawn (not numeric, or outside the Y window).
#[derive(Clone, Debug)]
pub struct Placed {
    pub slot: usize,
    pub spots: Vec<Option<Spot>>,
}

/// A dot at `(x, y)` when that cell is inside `a`, then the data label of
/// point `i` of `slot` anchored there.
pub open spec fn dot(
    d: GraphDef,
    labels: Seq<Option<Vec<String>>>,
    slot: int,
    a: Area,
    i: int,
    x: int,
    y: int,
) -> Seq<Mark> {
    (if x < a.r() && y >= a.t() && y < a.b() {
        seq![tone_box(x, x + 1, y, y + 1, "•"@, Tone::Cyan)]
    } else {
        seq![]
    }) + point_label(d, labels, slot, a, i, x, y)
}

/// The cell of a spot: `xo` columns right of `a`'s left edge, `yo` rows up
/// from the row above the baseline.
pub open spec fn spot_x(a: Area, s: Spot) -> int {
    a.l() + s.0
}

pub open spec fn spot_y(a: Area, s: Spot) -> int {
    sat_sub(sat_sub(a.b(), 1), 1 + s.1)
}

/// The dots of the first `c` points of a line series.
pub open spec fn line_dots(d: GraphDef, labels: Seq<Option<Vec<String>>>, p: Placed, a: Area, c: int) -> Seq<Mark>
    decreases c,
{
    if c <= 0 {
        seq![]
    } else {
        let rest = line_dots(d, labels, p, a, c - 1);
        match p.spots@[c - 1] {
            Some(s) => rest + dot(d, labels, p.slot as int, a, c - 1, spot_x(a, s), spot_y(a, s)),
            None => rest,
        }
    }
}

/// The line chart of the first set series (`None` when none is set): a
/// hint when none is; nothing when the plot has under two rows above its
/// baseline or no values; else a `•` per placed point with its data label,
/// then the baseline.
pub open spec fn line_plot(d: GraphDef, labels: Seq<Option<Vec<String>>>, p: Option<Placed>, a: Area) -> Seq<Mark> {
    match p {
        None => seq![centered(a, "No numeric A-series values to plot."@)],
        Some(p) => if sat_sub(sat_sub(a.b(), 1), a.t()) < 2 || p.spots@.len() == 0 {
            seq![]
        } else {
            line_dots(d, labels, p, a, p.spots@.len() as int) + seq![baseline(a)]
        },
    }
}

/// Every spot lies in the plot: its column offset within the width, its row
/// offset under the plot height above the baseline.
pub open spec fn spots_ok(spots: Seq<Option<Spot>>, a: Area) -> bool {
    forall|i: int| 0 <= i < spots.len() && #[trigger] spots[i] is Some ==> {
        &&& spots[i].unwrap().0 <= a.width
        &&& spots[i].unwrap().1 < sat_sub(sat_sub(a.b(), 1), a.t())
    }
}

fn plan_dot(
    def: &GraphDef,
    labels: &[Option<Vec<String>>; 6],
    slot: usize,
    area: Area,
    i: usize,
    x: u16,
    y: u16,
    plan: &mut Vec<Stroke>,
)
    requires
        area.fits(),
        slot < 6,
    ensures
        marks_of(final(plan)@) == marks_of(old(plan)@) + dot(*def, labels@, slot as int, area, i as int, x as int, y as int),
{
    let ghost m0 = marks_of(plan@);
    if x < area.right() && y >= area.top() && y < area.bottom() {
        push_stroke(plan, box_stroke(x, x + 1, y, y + 1, "•", Tone::Cyan, false));
    }
    let ghost m1 = marks_of(plan@);
    match label_text(labels, slot, i) {
        Some(label) => {
            let placement = def.options.data_labels_placement[slot];
            paint_data_label(label, x, y, placement, area, plan);
        },
        None => {
            assert(marks_of(plan@) =~= m1 + seq![]);
        },
    }
    assert(marks_of(plan@) =~= m0 + dot(*def, labels@, slot as int, area, i as int, x as int, y as int));
}

/// Plan the line chart of `series`.
pub fn plan_line(
    def: &GraphDef,
    labels: &[Option<Vec<String>>; 6],
    series: &Option<Placed>,
    area: Area,
    plan: &mut Vec<Stroke>,
)
    requires
        area.fits(),
        *series matches Some(p) ==> p.slot < 6 && spots_ok(p.spots@, area),
    ensures
        marks_of(final(plan)@) == marks_of(old(plan)@) + line_plot(*def, labels@, *series, area),
{
    let ghost m0 = marks_of(plan@);
    let p = match series {
        None => {
            write_centered(area, "No numeric A-series values to plot.", plan);
            return;
        },
        Some(p) => p,
    };
    let top = area.top();
    let plot_bottom = area.bottom().saturating_sub(1);
    let plot_height = plot_bottom.saturating_sub(top);
    if plot_height < 2 || p.spots.len() == 0 {
        assert(marks_of(plan@) =~= m0 + seq![]);
        return;
    }
    let n = p.spots.len();
    let mut i: usize = 0;
    while i < n
        invariant
            area.fits(),
            p.slot < 6,
            spots_ok(p.spots@, area),
            plot_bottom == sat_sub(area.b(), 1),
            plot_bottom - top >= 2,
            top == area.t(),
            n == p.spots@.len(),
            i <= n,
            marks_of(plan@) == m0 + line_dots(*def, labels@, *p, area, i as int),
        decreases n - i,
    {
        match p.spots[i] {
            Some(s) => {
                assert(p.spots@[i as int] is Some);
                let x = area.left() + s.0;
                let y = plot_bottom.saturating_sub(1 + s.1);
                plan_dot(def, labels, p.slot, area, i, x, y, plan);
            },
            None => {},
        }
        i = i + 1;
    }
    proof {
        reveal_strlit("─");
    }
    push_stroke(plan, box_stroke(area.left(), area.right(), plot_bottom, plot_bottom + 1, "─", Tone::Gray, false));
}

/// The dots of the first `c` XY pairs; each pair carries the index of its
/// value, which picks its data label of series A.
pub open spec fn xy_dots(d: GraphDef, labels: Seq<Option<Vec<String>>>, pairs: Seq<(usize, Option<Spot>)>, a: Area, c: int) -> Seq<Mark>
    decreases c,
{
    if c <= 0 {
        seq![]
    } else {
        let rest = xy_dots(d, labels, pairs, a, c - 1);
        match pairs[c - 1].1 {
            Some(s) => rest + dot(d, labels, 0, a, pairs[c - 1].0 as int, spot_x(a, s), spot_y(a, s)),
            None => rest,
        }
    }
}

/// The XY scatter: a hint when X or A is unset or they have no aligned
/// values; nothing when the plot has under two rows above its baseline or
/// is under two cells wide; a hint when no pair is numeric (`pairs` is
/// `None`); else a `•` per pair inside the X and Y windows, with its data
/// label, then the baseline.
pub open spec fn xy_plot<V>(d: GraphDef, vals: GraphValues<V>, pairs: Option<Seq<(usize, Option<Spot>)>>, a: Area) -> Seq<Mark> {
    if vals.x is None {
        seq![centered(a, "XY graphs need an X range."@)]
    } else if vals.data@[0] is None {
        seq![centered(a, "XY graphs need series A."@)]
    } else if vals.x.unwrap()@.len() == 0 || vals.data@[0].unwrap()@.len() == 0 {
        seq![centered(a, "XY needs aligned X and A values."@)]
    } else if sat_sub(sat_sub(a.b(), 1), a.t()) < 2 || a.width < 2 {
        seq![]
    } else {
        match pairs {
            None => seq![centered(a, "XY needs finite X and A values."@)],
            Some(ps) => xy_dots(d, vals.data_label_text@, ps, a, ps.len() as int) + seq![baseline(a)],
        }
    }
}

pub open spec fn pairs_ok(ps: Seq<(usize, Option<Spot>)>, a: Area) -> bool {
    forall|i: int| 0 <= i < ps.len() && #[trigger] ps[i].1 is Some ==> {
        &&& ps[i].1.unwrap().0 <= a.width
        &&& ps[i].1.unwrap().1 < sat_sub(sat_sub(a.b(), 1), a.t())
    }
}

/// Plan the XY scatter.
pub fn plan_xy<V>(
    def: &GraphDef,
    vals: &GraphValues<V>,
    pairs: &Option<Vec<(usize, Option<Spot>)>>,
    area: Area,
    plan: &mut Vec<Stroke>,
)
    requires
        area.fits(),
        *pairs matches Some(ps) ==> pairs_ok(ps@, area),
    ensures
        marks_of(final(plan)@) == marks_of(old(plan)@) + xy_plot(*def, *vals, match *pairs { Some(ps) => Some(ps@), None => None }, area),
{
    let ghost m0 = marks_of(plan@);
    let xs = match &vals.x {
        None => {
            write_centered(area, "XY graphs need an X range.", plan);
            return;
        },
        Some(xs) => xs,
    };
    let ys = match &vals.data[0] {
        None => {
            write_centered(area, "XY graphs need series A.", plan);
            return;
        },
        Some(ys) => ys,
    };
    if xs.len() == 0 || ys.len() == 0 {
        write_centered(area, "XY needs aligned X and A values.", plan);
        return;
    }
    let top = area.top();
    let plot_bottom = area.bottom().saturating_sub(1);
    let plot_height = plot_bottom.saturating_sub(top);
    if plot_height < 2 || area.width < 2 {
        assert(marks_of(plan@) =~= m0 + seq![]);
        return;
    }
    let ps = match pairs {
        None => {
            write_centered(area, "XY needs finite X and A values.", plan);
            return;
        },
        Some(ps) => ps,
    };
    let labels = &vals.data_label_text;
    let n = ps.len();
    let mut i: usize = 0;
    while i < n
        invariant
            area.fits(),
            pairs_ok(ps@, area),
            labels == &vals.data_label_text,
            plot_bottom == sat_sub(area.b(), 1),
            plot_bottom - top >= 2,
            top == area.t(),
            n == ps@.len(),
            i <= n,
            marks_of(plan@) == m0 + xy_dots(*def, labels@, ps@, area, i as int),
        decreases n - i,
    {
        let (orig_i, spot) = ps[i];
        match spot {
            Some(s) => {
                assert(ps@[i as int].1 is Some);
                let x = area.left() + s.0;
                let y = plot_bottom.saturating_sub(1 + s.1);
                plan_dot(def, labels, 0, area, orig_i, x, y, plan);
            },
            None => {},
        }
        i = i + 1;
    }
    proof {
        reveal_strlit("─");
    }
    push_stroke(plan, box_stroke(area.left(), area.right(), plot_bottom, plot_bottom + 1, "─", Tone::Gray, false));
}

proof fn lemma_dot_fits(d: GraphDef, labels: Seq<Option<Vec<String>>>, slot: int, a: Area, i: int, x: int, y: int)
    requires
        a.fits(),
        0 <= slot < 6,
        a.l() <= x,
    ensures
        marks_fit(dot(d, labels, slot, a, i, x, y), a),
{
    let b: Seq<Mark> = if x < a.r() && y >= a.t() && y < a.b() {
        seq![tone_box(x, x + 1, y, y + 1, "•"@, Tone::Cyan)]
    } else {
        seq![]
    };
    assert(marks_fit(b, a)) by {
        assert forall|k: int| 0 <= k < b.len() implies crate::marks::mark_fits(#[trigger] b[k], a) by {}
    }
    lemma_point_label_fits(d, labels, slot, a, i, x, y);
    crate::chrome::lemma_fit_concat(b, point_label(d, labels, slot, a, i, x, y), a);
}

proof fn lemma_line_dots_fit(d: GraphDef, labels: Seq<Option<Vec<String>>>, p: Placed, a: Area, c: int)
    requires
        a.fits(),
        p.slot < 6,
        0 <= c <= p.spots@.len(),
    ensures
        marks_fit(line_dots(d, labels, p, a, c), a),
    decreases c,
{
    if c <= 0 {
        assert(marks_fit(line_dots(d, labels, p, a, c), a));
    } else {
        lemma_line_dots_fit(d, labels, p, a, c - 1);
        match p.spots@[c - 1] {
            Some(s) => {
                lemma_dot_fits(d, labels, p.slot as int, a, c - 1, spot_x(a, s), spot_y(a, s));
                crate::chrome::lemma_fit_concat(line_dots(d, labels, p, a, c - 1), dot(d, labels, p.slot as int, a, c - 1, spot_x(a, s), spot_y(a, s)), a);
            },
            None => {},
        }
    }
}

proof fn lemma_xy_dots_fit(d: GraphDef, labels: Seq<Option<Vec<String>>>, ps: Seq<(usize, Option<Spot>)>, a: Area, c: int)
    requires
        a.fits(),
        0 <= c <= ps.len(),
    ensures
        marks_fit(xy_dots(d, labels, ps, a, c), a),
    decreases c,
{
    if c <= 0 {
        assert(marks_fit(xy_dots(d, labels, ps, a, c), a));
    } else {
        lemma_xy_dots_fit(d, labels, ps, a, c - 1);
        match ps[c - 1].1 {
            Some(s) => {
                lemma_dot_fits(d, labels, 0, a, ps[c - 1].0 as int, spot_x(a, s), spot_y(a, s));
                crate::chrome::lemma_fit_concat(xy_dots(d, labels, ps, a, c - 1), dot(d, labels, 0, a, ps[c - 1].0 as int, spot_x(a, s), spot_y(a, s)), a);
            },
            None => {},
        }
    }
}

/// Dot-per-sample line chart of the first set series (`None` when none is
/// set): a `•` at each placed point, its data label near it, and the
/// baseline.
pub fn paint_line(
    def: &GraphDef,
    labels: &[Option<Vec<String>>; 6],
    series: &Option<Placed>,
    area: Area,
    buf: &mut Buffer,
)
    requires
        canvas_ok(*old(buf)),
        area.fits(),
        area.height >= 1,
        area.within(buffer_area(*old(buf))),
        *series matches Some(p) ==> p.slot < 6 && spots_ok(p.spots@, area),
    ensures
        canvas_ok(*final(buf)),
        same_shape(*old(buf), *final(buf)),
        buffer_cells(*final(buf)) == apply_marks(
            buffer_cells(*old(buf)),
            buffer_area(*old(buf)),
            line_plot(*def, labels@, *series, area),
        ),
{
    let mut plan: Vec<Stroke> = Vec::new();
    plan_line(def, labels, series, area, &mut plan);
    proof {
        assert(marks_of(plan@) =~= line_plot(*def, labels@, *series, area));
        lemma_line_plot_fits(*def, labels@, *series, area);
        crate::chrome::lemma_fit_widen(marks_of(plan@), area, buffer_area(*buf));
    }
    draw(buf, &plan);
}

/// The line chart's strokes lie inside `a`, its data labels included.
pub proof fn lemma_line_plot_fits(d: GraphDef, labels: Seq<Option<Vec<String>>>, series: Option<Placed>, a: Area)
    requires
        a.fits(),
        a.height >= 1,
        series matches Some(p) ==> p.slot < 6,
    ensures
        marks_fit(line_plot(d, labels, series, a), a),
{
    let m = line_plot(d, labels, series, a);
    match series {
        None => {
            crate::chrome::lemma_centered(a, "No numeric A-series values to plot."@);
            assert(marks_fit(m, a));
        },
        Some(p) => {
            if sat_sub(sat_sub(a.b(), 1), a.t()) < 2 || p.spots@.len() == 0 {
                assert(marks_fit(m, a));
            } else {
                lemma_line_dots_fit(d, labels, p, a, p.spots@.len() as int);
                assert(marks_fit(seq![baseline(a)], a));
                crate::chrome::lemma_fit_concat(line_dots(d, labels, p, a, p.spots@.len() as int), seq![baseline(a)], a);
            }
        },
    }
}

/// XY scatter, terminal flavour: a `•` per numeric (X, A) pair, placed by
/// the caller at its share of the X and Y extents (`pairs` is `None` when
/// no pair is numeric; a pair outside a manual window is not placed), with
/// its data label, and the baseline; a hint when X or A is unset or empty.
pub fn paint_xy<V>(
    def: &GraphDef,
    vals: &GraphValues<V>,
    pairs: &Option<Vec<(usize, Option<Spot>)>>,
    area: Area,
    buf: &mut Buffer,
)
    requires
        canvas_ok(*old(buf)),
        area.fits(),
        area.height >= 1,
        area.within(buffer_area(*old(buf))),
        *pairs matches Some(ps) ==> pairs_ok(ps@, area),
    ensures
        canvas_ok(*final(buf)),
        same_shape(*old(buf), *final(buf)),
        buffer_cells(*final(buf)) == apply_marks(
            buffer_cells(*old(buf)),
            buffer_area(*old(buf)),
            xy_plot(*def, *vals, match *pairs { Some(ps) => Some(ps@), None => None }, area),
        ),
{
    let mut plan: Vec<Stroke> = Vec::new();
    plan_xy(def, vals, pairs, area, &mut plan);
    proof {
        let ps_view = match pairs { Some(ps) => Some(ps@), None => None };
        assert(marks_of(plan@) =~= xy_plot(*def, *vals, ps_view, area));
        lemma_xy_plot_fits(*def, *vals, ps_view, area);
        crate::chrome::lemma_fit_widen(marks_of(plan@), area, buffer_area(*buf));
    }
    draw(buf, &plan);
}

/// The XY chart's strokes lie inside `a`, its data labels included.
pub proof fn lemma_xy_plot_fits<V>(d: GraphDef, vals: GraphValues<V>, pairs: Option<Seq<(usize, Option<Spot>)>>, a: Area)
    requires
        a.fits(),
        a.height >= 1,
    ensures
        marks_fit(xy_plot(d, vals, pairs, a), a),
{
    let m = xy_plot(d, vals, pairs, a);
    let labels = vals.data_label_text@;
    crate::chrome::lemma_centered(a, "XY graphs need an X range."@);
    crate::chrome::lemma_centered(a, "XY graphs need series A."@);
    crate::chrome::lemma_centered(a, "XY needs aligned X and A values."@);
    crate::chrome::lemma_centered(a, "XY needs finite X and A values."@);
    if vals.x is None || vals.data@[0] is None || vals.x.unwrap()@.len() == 0 || vals.data@[0].unwrap()@.len() == 0
        || sat_sub(sat_sub(a.b(), 1), a.t()) < 2 || a.width < 2 || pairs is None {
        assert(marks_fit(m, a));
    } else {
        let ps = pairs.unwrap();
        lemma_xy_dots_fit(d, labels, ps, a, ps.len() as int);
        assert(marks_fit(seq![baseline(a)], a));
        crate::chrome::lemma_fit_concat(xy_dots(d, labels, ps, a, ps.len() as int), seq![baseline(a)], a);
    }
}

} // verus!
