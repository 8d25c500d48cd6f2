//! Painting as a list of strokes.
//!
//! Every painter of the crate first plans the strokes it makes, in order,
//! and then draws them. A plan is plain data and can be checked by itself;
//! `draw` is proved to leave in the buffer exactly what applying the
//! strokes one after the other describes.

use vstd::prelude::*;
use ratatui::buffer::Buffer;
use crate::area::Area;
use crate::canvas::{
    area_of, buffer_area, buffer_cells, cell_count, col_of, row_of, same_shape, set_string_at,
    string_written, sound, stamped, view_at, CellView, Paint, Tone,
};
use crate::strokes::{blank_box, box_painted, fill_box, in_box};

verus! {

/// One painting step.
pub enum Stroke {
    /// Give every cell of `[x0, x1) x [y0, y1)` the symbol and foreground.
    Fill { x0: u16, x1: u16, y0: u16, y1: u16, symbol: String, tone: Tone },
    /// As `Fill`, but only cells that show a single space when reached.
    Patch { x0: u16, x1: u16, y0: u16, y1: u16, symbol: String, tone: Tone },
    /// Print text on row `y` from column `x` (`Buffer::set_string`).
    Text { x: u16, y: u16, text: String, paint: Paint },
}

/// A stroke with its strings as character sequences.
pub enum Mark {
    Fill { x0: u16, x1: u16, y0: u16, y1: u16, symbol: Seq<char>, tone: Tone },
    Patch { x0: u16, x1: u16, y0: u16, y1: u16, symbol: Seq<char>, tone: Tone },
    Text { x: u16, y: u16, text: Seq<char>, paint: Paint },
}

impl View for Stroke {
    type V = Mark;

    open spec fn view(&self) -> Mark {
        match self {
            Stroke::Fill { x0, x1, y0, y1, symbol, tone } => Mark::Fill {
                x0: *x0,
                x1: *x1,
                y0: *y0,
                y1: *y1,
                symbol: symbol@,
                tone: *tone,
            },
            Stroke::Patch { x0, x1, y0, y1, symbol, tone } => Mark::Patch {
                x0: *x0,
                x1: *x1,
                y0: *y0,
                y1: *y1,
                symbol: symbol@,
                tone: *tone,
            },
            Stroke::Text { x, y, text, paint } => Mark::Text {
                x: *x,
                y: *y,
                text: text@,
                paint: *paint,
            },
        }
    }
}

pub open spec fn marks_of(ss: Seq<Stroke>) -> Seq<Mark> {
    ss.map_values(|s: Stroke| s@)
}

/// The cells after every cell of the box (with `only_blank`, every such
/// cell showing a single space) got symbol `s` and foreground `t`.
pub open spec fn filled(
    c: Seq<CellView>,
    a: Area,
    x0: int,
    x1: int,
    y0: int,
    y1: int,
    s: Seq<char>,
    t: Tone,
    only_blank: bool,
) -> Seq<CellView> {
    Seq::new(
        c.len(),
        |i: int|
            if in_box(col_of(a, i), row_of(a, i), x0, x1, y0, y1) && (!only_blank || c[i].symbol
                == seq![' ']) {
                stamped(c[i], s, t)
            } else {
                c[i]
            },
    )
}

/// The cells after one mark.
pub open spec fn apply_mark(c: Seq<CellView>, a: Area, m: Mark) -> Seq<CellView> {
    match m {
        Mark::Fill { x0, x1, y0, y1, symbol, tone } => filled(
            c,
            a,
            x0 as int,
            x1 as int,
            y0 as int,
            y1 as int,
            symbol,
            tone,
            false,
        ),
        Mark::Patch { x0, x1, y0, y1, symbol, tone } => filled(
            c,
            a,
            x0 as int,
            x1 as int,
            y0 as int,
            y1 as int,
            symbol,
            tone,
            true,
        ),
        Mark::Text { x, y, text, paint } => string_written(c, a, x, y, text, paint),
    }
}

/// The cells after the marks, first to last.
pub open spec fn apply_marks(c: Seq<CellView>, a: Area, ms: Seq<Mark>) -> Seq<CellView>
    decreases ms.len(),
{
    if ms.len() == 0 {
        c
    } else {
        apply_mark(apply_marks(c, a, ms.drop_last()), a, ms.last())
    }
}

/// The mark lies inside area `a`: a box within its edges, or text on one of
/// its rows that starts and ends within its columns (one cell per
/// character).
pub open spec fn mark_fits(m: Mark, a: Area) -> bool {
    match m {
        Mark::Fill { x0, x1, y0, y1, .. } => x0 >= x1 || y0 >= y1 || (a.l() <= x0 && x1 <= a.r()
            && a.t() <= y0 && y1 <= a.b()),
        Mark::Patch { x0, x1, y0, y1, .. } => x0 >= x1 || y0 >= y1 || (a.l() <= x0 && x1 <= a.r()
            && a.t() <= y0 && y1 <= a.b()),
        Mark::Text { x, y, text, .. } => a.t() <= y < a.b() && a.l() <= x && x + text.len() <= a.r(),
    }
}

pub open spec fn marks_fit(ms: Seq<Mark>, a: Area) -> bool {
    forall|k: int| 0 <= k < ms.len() ==> mark_fits(#[trigger] ms[k], a)
}

/// A buffer that can be painted: one cell per position, and an area whose
/// edges are not clamped.
pub open spec fn canvas_ok(b: Buffer) -> bool {
    sound(b) && buffer_area(b).fits()
}

/// Whether `buf` can be painted and `area` lies inside it: what every
/// painter of the crate needs of its buffer and area.
pub fn canvas_ready(buf: &Buffer, area: Area) -> (r: bool)
    ensures
        r == (canvas_ok(*buf) && area.fits() && area.within(buffer_area(*buf))),
{
    let whole = area_of(buf);
    let n = cell_count(buf);
    let w = whole.width as u64;
    let h = whole.height as u64;
    assert(w * h <= 0xffff * 0xffff) by (nonlinear_arith)
        requires
            w <= 0xffff,
            h <= 0xffff,
    ;
    let cells = w * h;
    let fits_whole = whole.x as u32 + whole.width as u32 <= 0xffff && whole.y as u32 + whole.height as u32 <= 0xffff;
    let fits_area = area.x as u32 + area.width as u32 <= 0xffff && area.y as u32 + area.height as u32 <= 0xffff;
    n as u64 == cells && fits_whole && fits_area && whole.left() <= area.left() && area.right() <= whole.right()
        && whole.top() <= area.top() && area.bottom() <= whole.bottom()
}

/// Every index of the content is the index of the cell at its column and
/// row, which lies inside the area.
pub proof fn lemma_position(a: Area, i: int)
    requires
        a.fits(),
        0 <= i < a.width * a.height,
    ensures
        a.width > 0,
        a.has(col_of(a, i), row_of(a, i)),
        crate::canvas::cell_index(a, col_of(a, i), row_of(a, i)) == i,
{
    let w = a.width as int;
    let h = a.height as int;
    assert(w > 0) by (nonlinear_arith)
        requires
            0 <= i < w * h,
            w >= 0,
            h >= 0,
    ;
    vstd::arithmetic::div_mod::lemma_fundamental_div_mod(i, w);
    let q = i / w;
    let r = i % w;
    assert(0 <= r < w) by {
        vstd::arithmetic::div_mod::lemma_mod_bound(i, w);
    }
    assert(0 <= q < h) by (nonlinear_arith)
        requires
            i == w * q + r,
            0 <= r < w,
            0 <= i < w * h,
    ;
    assert(q * w == w * q) by (nonlinear_arith);
}

/// A painted box, stated cell by cell, is the `filled` sequence.
pub proof fn lemma_box_filled(
    b0: Buffer,
    b1: Buffer,
    x0: int,
    x1: int,
    y0: int,
    y1: int,
    s: Seq<char>,
    t: Tone,
    only_blank: bool,
)
    requires
        canvas_ok(b0),
        box_painted(b0, b1, x0, x1, y0, y1, s, t, only_blank),
    ensures
        buffer_cells(b1) == filled(
            buffer_cells(b0),
            buffer_area(b0),
            x0,
            x1,
            y0,
            y1,
            s,
            t,
            only_blank,
        ),
{
    let a = buffer_area(b0);
    let c0 = buffer_cells(b0);
    let want = filled(c0, a, x0, x1, y0, y1, s, t, only_blank);
    assert forall|i: int| 0 <= i < c0.len() implies #[trigger] buffer_cells(b1)[i] == want[i] by {
        lemma_position(a, i);
        assert(view_at(b1, col_of(a, i), row_of(a, i)) == buffer_cells(b1)[i]);
        assert(view_at(b0, col_of(a, i), row_of(a, i)) == c0[i]);
    }
    assert(buffer_cells(b1) =~= want);
}

/// The cells after every cell of `r` was reset to a blank symbol with
/// default colours.
pub open spec fn blanked(c: Seq<CellView>, a: Area, r: Area) -> Seq<CellView> {
    Seq::new(
        c.len(),
        |i: int|
            if r.has(col_of(a, i), row_of(a, i)) {
                CellView { symbol: seq![' '], fg: Tone::Reset, bg: Tone::Reset }
            } else {
                c[i]
            },
    )
}

/// Reset every cell of `area` to a blank symbol with default colours.
pub fn clear(area: Area, buf: &mut Buffer)
    requires
        canvas_ok(*old(buf)),
        area.within(buffer_area(*old(buf))),
    ensures
        canvas_ok(*final(buf)),
        same_shape(*old(buf), *final(buf)),
        buffer_cells(*final(buf)) == blanked(buffer_cells(*old(buf)), buffer_area(*old(buf)), area),
{
    let ghost b0 = *buf;
    blank_box(buf, area);
    proof {
        let a = buffer_area(b0);
        let c0 = buffer_cells(b0);
        let want = blanked(c0, a, area);
        assert forall|i: int| 0 <= i < c0.len() implies #[trigger] buffer_cells(*buf)[i] == want[i] by {
            lemma_position(a, i);
            assert(view_at(*buf, col_of(a, i), row_of(a, i)) == buffer_cells(*buf)[i]);
            assert(view_at(b0, col_of(a, i), row_of(a, i)) == c0[i]);
        }
        assert(buffer_cells(*buf) =~= want);
    }
}

/// Make one stroke.
pub fn draw_one(buf: &mut Buffer, s: &Stroke)
    requires
        canvas_ok(*old(buf)),
        mark_fits(s@, buffer_area(*old(buf))),
    ensures
        canvas_ok(*final(buf)),
        same_shape(*old(buf), *final(buf)),
        buffer_cells(*final(buf)) == apply_mark(
            buffer_cells(*old(buf)),
            buffer_area(*old(buf)),
            s@,
        ),
{
    let ghost b0 = *buf;
    match s {
        Stroke::Fill { x0, x1, y0, y1, symbol, tone } => {
            fill_box(buf, *x0, *x1, *y0, *y1, symbol.as_str(), *tone, false);
            proof {
                lemma_box_filled(
                    b0,
                    *buf,
                    *x0 as int,
                    *x1 as int,
                    *y0 as int,
                    *y1 as int,
                    symbol@,
                    *tone,
                    false,
                );
            }
        },
        Stroke::Patch { x0, x1, y0, y1, symbol, tone } => {
            fill_box(buf, *x0, *x1, *y0, *y1, symbol.as_str(), *tone, true);
            proof {
                lemma_box_filled(
                    b0,
                    *buf,
                    *x0 as int,
                    *x1 as int,
                    *y0 as int,
                    *y1 as int,
                    symbol@,
                    *tone,
                    true,
                );
            }
        },
        Stroke::Text { x, y, text, paint } => {
            set_string_at(buf, *x, *y, text.as_str(), *paint);
            assert(buffer_cells(*buf) =~= string_written(
                buffer_cells(b0),
                buffer_area(b0),
                *x,
                *y,
                text@,
                *paint,
            ));
        },
    }
}

/// Make the strokes, first to last.
pub fn draw(buf: &mut Buffer, strokes: &Vec<Stroke>)
    requires
        canvas_ok(*old(buf)),
        marks_fit(marks_of(strokes@), buffer_area(*old(buf))),
    ensures
        canvas_ok(*final(buf)),
        same_shape(*old(buf), *final(buf)),
        buffer_cells(*final(buf)) == apply_marks(
            buffer_cells(*old(buf)),
            buffer_area(*old(buf)),
            marks_of(strokes@),
        ),
{
    let ghost b0 = *buf;
    let ghost ms = marks_of(strokes@);
    let n = strokes.len();
    let mut k: usize = 0;
    while k < n
        invariant
            n == strokes@.len(),
            ms == marks_of(strokes@),
            k <= n,
            canvas_ok(*buf),
            same_shape(b0, *buf),
            marks_fit(ms, buffer_area(b0)),
            buffer_cells(*buf) == apply_marks(buffer_cells(b0), buffer_area(b0), ms.take(k as int)),
        decreases n - k,
    {
        assert(ms[k as int] == strokes@[k as int]@);
        assert(mark_fits(ms[k as int], buffer_area(b0)));
        draw_one(buf, &strokes[k]);
        assert(ms.take(k + 1).drop_last() =~= ms.take(k as int));
        k = k + 1;
    }
    assert(ms.take(n as int) =~= ms);
}

/// The mark stays off the rectangle `r`: a box that does not meet it, or
/// text on a row outside it.
pub open spec fn mark_clear_of(m: Mark, r: Area) -> bool {
    match m {
        Mark::Fill { x0, x1, y0, y1, .. } => x0 >= x1 || y0 >= y1 || x1 <= r.l() || r.r() <= x0
            || y1 <= r.t() || r.b() <= y0,
        Mark::Patch { x0, x1, y0, y1, .. } => x0 >= x1 || y0 >= y1 || x1 <= r.l() || r.r() <= x0
            || y1 <= r.t() || r.b() <= y0,
        Mark::Text { y, .. } => y < r.t() || r.b() <= y,
    }
}

pub open spec fn marks_clear_of(ms: Seq<Mark>, r: Area) -> bool {
    forall|k: int| 0 <= k < ms.len() ==> mark_clear_of(#[trigger] ms[k], r)
}

/// Append a stroke to a plan.
pub fn push_stroke(plan: &mut Vec<Stroke>, s: Stroke)
    ensures
        marks_of(final(plan)@) == marks_of(old(plan)@).push(s@),
{
    let ghost before = plan@;
    plan.push(s);
    assert(marks_of(plan@) =~= marks_of(before).push(s@));
}

/// A text stroke.
pub fn text_stroke(x: u16, y: u16, text: &str, paint: Paint) -> (s: Stroke)
    ensures
        s@ == (Mark::Text { x, y, text: text@, paint }),
{
    Stroke::Text { x, y, text: String::from_str(text), paint }
}

/// A box stroke; with `only_blank`, a patch.
pub fn box_stroke(x0: u16, x1: u16, y0: u16, y1: u16, symbol: &str, tone: Tone, only_blank: bool) -> (s: Stroke)
    ensures
        s@ == (if only_blank {
            Mark::Patch { x0, x1, y0, y1, symbol: symbol@, tone }
        } else {
            Mark::Fill { x0, x1, y0, y1, symbol: symbol@, tone }
        }),
{
    if only_blank {
        Stroke::Patch { x0, x1, y0, y1, symbol: String::from_str(symbol), tone }
    } else {
        Stroke::Fill { x0, x1, y0, y1, symbol: String::from_str(symbol), tone }
    }
}

} // verus!
