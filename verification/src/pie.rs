//! Pie chart, terminal flavour: one proportional horizontal bar with a
//! label under each wedge.

use vstd::prelude::*;
use ratatui::buffer::Buffer;
use crate::area::{sat_sub, Area};
use crate::bars::{max, min, tone_box};
use crate::canvas::{buffer_area, buffer_cells, same_shape, Tone};
use crate::chrome::{centered, fg, fg_paint, take_chars, write_centered};
use crate::marks::{apply_marks, box_stroke, canvas_ok, draw, marks_fit, marks_of, push_stroke, text_stroke, Mark, Stroke};
use crate::model::GraphValues;
use crate::series::shade;

verus! {

/// The Unicode `White_Space` property: tab through carriage return, space,
/// next line, no-break space, ogham space mark, the spaces from en quad to
/// hair space, line and paragraph separators, narrow no-break space, medium
/// mathematical space and ideographic space.
pub open spec fn white_space(c: char) -> bool {
    ||| '\u{9}' <= c <= '\u{D}'
    ||| c == ' '
    ||| c == '\u{85}'
    ||| c == '\u{A0}'
    ||| c == '\u{1680}'
    ||| '\u{2000}' <= c <= '\u{200A}'
    ||| c == '\u{2028}'
    ||| c == '\u{2029}'
    ||| c == '\u{202F}'
    ||| c == '\u{205F}'
    ||| c == '\u{3000}'
}

/// Whether `c` has the Unicode `White_Space` property (what
/// `char::is_whitespace` returns).
fn is_white_space(c: char) -> (r: bool)
    ensures
        r == white_space(c),
{
    ('\u{9}' <= c && c <= '\u{D}') || c == ' ' || c == '\u{85}' || c == '\u{A0}' || c == '\u{1680}' || (
    '\u{2000}' <= c && c <= '\u{200A}') || c == '\u{2028}' || c == '\u{2029}' || c == '\u{202F}' || c
        == '\u{205F}' || c == '\u{3000}'
}

/// Every character is whitespace, so the text trims to nothing.
pub open spec fn blank_text(s: Seq<char>) -> bool {
    forall|i: int| 0 <= i < s.len() ==> white_space(#[trigger] s[i])
}

/// `s.trim().is_empty()`: the text holds nothing but whitespace.
pub fn trims_to_empty(s: &str) -> (r: bool)
    ensures
        r == blank_text(s@),
{
    let n = s.unicode_len();
    let mut i: usize = 0;
    while i < n
        invariant
            n == s@.len(),
            i <= n,
            forall|j: int| 0 <= j < i ==> white_space(#[trigger] s@[j]),
        decreases n - i,
    {
        if !is_white_space(s.get_char(i)) {
            return false;
        }
        i = i + 1;
    }
    true
}

/// The decimal digit `d`.
pub open spec fn digit(d: int) -> char {
    if d == 0 {
        '0'
    } else if d == 1 {
        '1'
    } else if d == 2 {
        '2'
    } else if d == 3 {
        '3'
    } else if d == 4 {
        '4'
    } else if d == 5 {
        '5'
    } else if d == 6 {
        '6'
    } else if d == 7 {
        '7'
    } else if d == 8 {
        '8'
    } else {
        '9'
    }
}

/// `n` written in decimal.
pub open spec fn decimal(n: nat) -> Seq<char>
    decreases n,
{
    if n < 10 {
        seq![digit(n as int)]
    } else {
        decimal(n / 10).push(digit((n % 10) as int))
    }
}

fn digit_str(d: usize) -> (s: &'static str)
    requires
        d < 10,
    ensures
        s@ == seq![digit(d as int)],
{
    proof {
        reveal_strlit("0");
        reveal_strlit("1");
        reveal_strlit("2");
        reveal_strlit("3");
        reveal_strlit("4");
        reveal_strlit("5");
        reveal_strlit("6");
        reveal_strlit("7");
        reveal_strlit("8");
        reveal_strlit("9");
    }
    let s = if d == 0 {
        "0"
    } else if d == 1 {
        "1"
    } else if d == 2 {
        "2"
    } else if d == 3 {
        "3"
    } else if d == 4 {
        "4"
    } else if d == 5 {
        "5"
    } else if d == 6 {
        "6"
    } else if d == 7 {
        "7"
    } else if d == 8 {
        "8"
    } else {
        "9"
    };
    assert(s@ =~= seq![digit(d as int)]);
    s
}

/// `n` written in decimal (`format!("{}", n)`).
pub fn decimal_string(n: usize) -> (s: String)
    ensures
        s@ == decimal(n as nat),
    decreases n,
{
    if n < 10 {
        String::from_str(digit_str(n))
    } else {
        let mut s = decimal_string(n / 10);
        s.append(digit_str(n % 10));
        assert(s@ =~= decimal((n / 10) as nat).push(digit((n % 10) as int)));
        s
    }
}

/// The label of wedge `wedge_i`, standing for value `orig_i`: the X-range
/// cell text of that value when bound and not blank, else the wedge's
/// 1-based position.
pub open spec fn wedge_label(x_labels: Option<Seq<String>>, orig_i: int, wedge_i: int) -> Seq<char> {
    match x_labels {
        Some(l) => if 0 <= orig_i < l.len() && !blank_text(l[orig_i]@) {
            l[orig_i]@
        } else {
            decimal((wedge_i + 1) as nat)
        },
        None => decimal((wedge_i + 1) as nat),
    }
}

/// Prefer the cell-text label of the value's own X position; fall back to a
/// 1-based positional index when the cell is blank or missing.
pub fn wedge_label_unicode(x_labels: Option<&[String]>, orig_i: usize, wedge_i: usize) -> (s: String)
    requires
        wedge_i < usize::MAX,
    ensures
        s@ == wedge_label(match x_labels { Some(l) => Some(l@), None => None }, orig_i as int, wedge_i as int),
{
    if let Some(labels) = x_labels {
        if orig_i < labels.len() {
            let s = &labels[orig_i];
            if !trims_to_empty(s.as_str()) {
                return s.clone();
            }
        }
    }
    decimal_string(wedge_i + 1)
}

/// One wedge as placed by the caller: the index of its value in series A,
/// and where its run would end (columns from the left edge, from the
/// cumulative share of the total; the last wedge always runs to the right
/// edge).
#[derive(Clone, Copy, Debug)]
pub struct Wedge {
    pub orig: usize,
    pub end: u16,
}

/// Where wedge `k`'s run aims to end.
pub open spec fn wedge_target(ws: Seq<Wedge>, a: Area, k: int) -> int {
    if k + 1 == ws.len() { a.r() } else { a.l() + ws[k].end }
}

/// Where wedge `k`'s run, starting at `c`, ends: at its target, but at
/// least one cell on, leaving a cell for each wedge still to come where
/// there is room, and not past the right edge.
pub open spec fn wedge_end(ws: Seq<Wedge>, a: Area, k: int, c: int) -> int {
    let room = max(a.r() - (ws.len() - 1 - k), c + 1);
    min(min(max(wedge_target(ws, a, k), c + 1), room), a.r())
}

/// The column where wedge `k` starts: the left edge for the first, then
/// where the previous run ended.
pub open spec fn pie_cursor(ws: Seq<Wedge>, a: Area, k: int) -> int
    decreases k,
{
    if k <= 0 {
        a.l()
    } else {
        let c = pie_cursor(ws, a, k - 1);
        if c >= a.r() { c } else { wedge_end(ws, a, k - 1, c) }
    }
}

/// Wedge `k`'s run `[c, e)` on the middle row in its shade, and its label
/// on the row below, cut to the run and centred under it.
pub open spec fn wedge_marks(x_labels: Option<Seq<String>>, ws: Seq<Wedge>, a: Area, k: int, c: int) -> Seq<Mark> {
    let e = wedge_end(ws, a, k, c);
    let bar_y = a.t() + a.height / 2;
    let label_y = if bar_y + 1 > u16::MAX { u16::MAX as int } else { bar_y + 1 };
    let run = sat_sub(e, c);
    let label = wedge_label(x_labels, ws[k].orig as int, k);
    let shown = if run < label.len() { label.take(run) } else { label };
    seq![tone_box(c, e, bar_y, bar_y + 1, shade(k), Tone::Cyan)] + (if label_y < a.b() && run > 0 {
        seq![
            Mark::Text {
                x: (c + sat_sub(run, (shown.len() as u16) as int) / 2) as u16,
                y: label_y as u16,
                text: shown,
                paint: fg_paint(Tone::Cyan),
            },
        ]
    } else {
        seq![]
    })
}

/// The first `k` wedges; those that start at or past the right edge are
/// not drawn.
pub open spec fn pie_upto(x_labels: Option<Seq<String>>, ws: Seq<Wedge>, a: Area, k: int) -> Seq<Mark>
    decreases k,
{
    if k <= 0 {
        seq![]
    } else {
        let c = pie_cursor(ws, a, k - 1);
        pie_upto(x_labels, ws, a, k - 1) + (if c < a.r() { wedge_marks(x_labels, ws, a, k - 1, c) } else { seq![] })
    }
}

pub open spec fn x_labels_of<V>(vals: GraphValues<V>) -> Option<Seq<String>> {
    match vals.x_labels {
        Some(l) => Some(l@),
        None => None,
    }
}

/// The pie: a hint when series A is unset, or has no positive value
/// (`wedges` is `None` or empty); nothing when the area is under 4 x 3
/// cells; else the wedges left to right.
pub open spec fn pie_plot<V>(vals: GraphValues<V>, wedges: Option<Seq<Wedge>>, a: Area) -> Seq<Mark> {
    if vals.data@[0] is None {
        seq![centered(a, "Set /Graph A to plot a pie."@)]
    } else if wedges is None || wedges.unwrap().len() == 0 {
        seq![centered(a, "Pie needs positive values."@)]
    } else if a.width < 4 || a.height < 3 {
        seq![]
    } else {
        pie_upto(x_labels_of(vals), wedges.unwrap(), a, wedges.unwrap().len() as int)
    }
}

/// Every wedge aims inside the area, and no wedge counts past `usize`.
pub open spec fn wedges_ok(ws: Seq<Wedge>, a: Area) -> bool {
    &&& forall|k: int| 0 <= k < ws.len() ==> #[trigger] ws[k].end <= a.width
    &&& ws.len() < usize::MAX
}

pub proof fn lemma_cursor_bound(ws: Seq<Wedge>, a: Area, k: int)
    requires
        a.fits(),
        a.width > 0,
        wedges_ok(ws, a),
        0 <= k <= ws.len(),
    ensures
        a.l() <= pie_cursor(ws, a, k) <= a.r(),
    decreases k,
{
    if k > 0 {
        lemma_cursor_bound(ws, a, k - 1);
    }
}

fn plan_wedge(
    x_labels: Option<&[String]>,
    ws: &Vec<Wedge>,
    area: Area,
    k: usize,
    cursor: u16,
    plan: &mut Vec<Stroke>,
) -> (end: u16)
    requires
        area.fits(),
        area.height >= 3,
        wedges_ok(ws@, area),
        k < ws@.len(),
        area.l() <= cursor < area.r(),
    ensures
        end == wedge_end(ws@, area, k as int, cursor as int),
        marks_of(final(plan)@) == marks_of(old(plan)@) + wedge_marks(match x_labels { Some(l) => Some(l@), None => None }, ws@, area, k as int, cursor as int),
{
    let ghost m0 = marks_of(plan@);
    let bar_right = area.right();
    let target = if k + 1 == ws.len() { bar_right } else { area.left() + ws[k].end };
    let lo = cursor as u64 + 1;
    let e0 = if target as u64 > lo { target as u64 } else { lo };
    let rest = (ws.len() - 1 - k) as u64;
    let room = if bar_right as u64 > rest && bar_right as u64 - rest > lo { bar_right as u64 - rest } else { lo };
    let e1 = if e0 < room { e0 } else { room };
    let end = if e1 < bar_right as u64 { e1 as u16 } else { bar_right };
    let bar_y = area.top() + area.height / 2;
    let label_y = bar_y.saturating_add(1);
    push_stroke(plan, box_stroke(cursor, end, bar_y, bar_y + 1, crate::series::shade_glyph(k), Tone::Cyan, false));
    let ghost m1 = marks_of(plan@);
    if label_y < area.bottom() {
        let label = wedge_label_unicode(x_labels, ws[k].orig, k);
        let run_w = end.saturating_sub(cursor);
        if run_w > 0 {
            let truncated = take_chars(label.as_str(), run_w as usize);
            let len = truncated.unicode_len() as u16;
            let pad = run_w.saturating_sub(len) / 2;
            let lx = cursor + pad;
            push_stroke(plan, text_stroke(lx, label_y, truncated, fg(Tone::Cyan)));
        }
    }
    assert(marks_of(plan@) =~= m0 + wedge_marks(match x_labels { Some(l) => Some(l@), None => None }, ws@, area, k as int, cursor as int));
    end
}

/// Plan the pie.
pub fn plan_pie<V>(vals: &GraphValues<V>, wedges: &Option<Vec<Wedge>>, area: Area, plan: &mut Vec<Stroke>)
    requires
        area.fits(),
        *wedges matches Some(ws) ==> wedges_ok(ws@, area),
    ensures
        marks_of(final(plan)@) == marks_of(old(plan)@) + pie_plot(*vals, match *wedges { Some(ws) => Some(ws@), None => None }, area),
{
    let ghost m0 = marks_of(plan@);
    if vals.data[0].is_none() {
        write_centered(area, "Set /Graph A to plot a pie.", plan);
        return;
    }
    let ws = match wedges {
        None => {
            write_centered(area, "Pie needs positive values.", plan);
            return;
        },
        Some(ws) => ws,
    };
    if ws.len() == 0 {
        write_centered(area, "Pie needs positive values.", plan);
        return;
    }
    if area.width < 4 || area.height < 3 {
        assert(marks_of(plan@) =~= m0 + seq![]);
        return;
    }
    let x_labels: Option<&[String]> = match &vals.x_labels {
        Some(l) => Some(l.as_slice()),
        None => None,
    };
    let ghost xl = x_labels_of(*vals);
    assert(xl == match x_labels { Some(l) => Some(l@), None => None });
    let mut cursor = area.left();
    let n = ws.len();
    let mut k: usize = 0;
    while k < n
        invariant
            area.fits(),
            area.width >= 4,
            area.height >= 3,
            wedges_ok(ws@, area),
            n == ws@.len(),
            k <= n,
            xl == match x_labels { Some(l) => Some(l@), None => None },
            cursor == pie_cursor(ws@, area, k as int),
            marks_of(plan@) == m0 + pie_upto(xl, ws@, area, k as int),
        decreases n - k,
    {
        proof {
            lemma_cursor_bound(ws@, area, k as int);
        }
        if cursor < area.right() {
            cursor = plan_wedge(x_labels, ws, area, k, cursor, plan);
        } else {
            assert(marks_of(plan@) =~= marks_of(plan@) + seq![]);
        }
        k = k + 1;
    }
}

proof fn lemma_wedge_fits(xl: Option<Seq<String>>, ws: Seq<Wedge>, a: Area, k: int, c: int)
    requires
        a.fits(),
        a.height >= 3,
        wedges_ok(ws, a),
        0 <= k < ws.len(),
        a.l() <= c < a.r(),
    ensures
        marks_fit(wedge_marks(xl, ws, a, k, c), a),
{
    let m = wedge_marks(xl, ws, a, k, c);
    assert forall|j: int| 0 <= j < m.len() implies crate::marks::mark_fits(#[trigger] m[j], a) by {}
}

proof fn lemma_pie_upto_fits(xl: Option<Seq<String>>, ws: Seq<Wedge>, a: Area, k: int)
    requires
        a.fits(),
        a.width >= 4,
        a.height >= 3,
        wedges_ok(ws, a),
        0 <= k <= ws.len(),
    ensures
        marks_fit(pie_upto(xl, ws, a, k), a),
    decreases k,
{
    if k > 0 {
        lemma_pie_upto_fits(xl, ws, a, k - 1);
        lemma_cursor_bound(ws, a, k - 1);
        let c = pie_cursor(ws, a, k - 1);
        let w: Seq<Mark> = if c < a.r() { wedge_marks(xl, ws, a, k - 1, c) } else { seq![] };
        if c < a.r() {
            lemma_wedge_fits(xl, ws, a, k - 1, c);
        }
        crate::chrome::lemma_fit_concat(pie_upto(xl, ws, a, k - 1), w, a);
    }
}

/// Pie chart, terminal flavour: a single horizontal bar on the area's
/// middle row where each wedge is a contiguous run of cells in its own
/// shade, left to right, each at least one cell, the last reaching the right
/// edge; a label row underneath shows each wedge's X-range cell text, or
/// its 1-based position. Hints when series A is unset or has no positive
/// value.
pub fn paint_pie<V>(vals: &GraphValues<V>, wedges: &Option<Vec<Wedge>>, area: Area, buf: &mut Buffer)
    requires
        canvas_ok(*old(buf)),
        area.fits(),
        area.height >= 1,
        area.within(buffer_area(*old(buf))),
        *wedges matches Some(ws) ==> wedges_ok(ws@, area),
    ensures
        canvas_ok(*final(buf)),
        same_shape(*old(buf), *final(buf)),
        buffer_cells(*final(buf)) == apply_marks(
            buffer_cells(*old(buf)),
            buffer_area(*old(buf)),
            pie_plot(*vals, match *wedges { Some(ws) => Some(ws@), None => None }, area),
        ),
{
    let mut plan: Vec<Stroke> = Vec::new();
    plan_pie(vals, wedges, area, &mut plan);
    proof {
        let wv = match wedges { Some(ws) => Some(ws@), None => None };
        let m = pie_plot(*vals, wv, area);
        assert(marks_of(plan@) =~= m);
        lemma_pie_plot_fits(*vals, wv, area);
        crate::chrome::lemma_fit_widen(m, area, buffer_area(*buf));
    }
    draw(buf, &plan);
}

/// The pie's strokes lie inside `a`.
pub proof fn lemma_pie_plot_fits<V>(vals: GraphValues<V>, wedges: Option<Seq<Wedge>>, a: Area)
    requires
        a.fits(),
        a.height >= 1,
        wedges matches Some(ws) ==> wedges_ok(ws, a),
    ensures
        marks_fit(pie_plot(vals, wedges, a), a),
{
    let m = pie_plot(vals, wedges, a);
    crate::chrome::lemma_centered(a, "Set /Graph A to plot a pie."@);
    crate::chrome::lemma_centered(a, "Pie needs positive values."@);
    if vals.data@[0] is None || wedges is None || wedges.unwrap().len() == 0 || a.width < 4 || a.height < 3 {
        assert(marks_fit(m, a));
    } else {
        lemma_pie_upto_fits(x_labels_of(vals), wedges.unwrap(), a, wedges.unwrap().len() as int);
    }
}

} // verus!
