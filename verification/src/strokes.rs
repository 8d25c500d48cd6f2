//! Verified painting primitives over the buffer: one cell, a filled box of
//! cells, and a blanked box.

use vstd::prelude::*;
use ratatui::buffer::Buffer;
use crate::area::Area;
use crate::canvas::{
    buffer_area, lemma_cell_index, same_shape, set_style_at, set_symbol_at, sound, stamped,
    symbol_at, view_at, CellView, Paint, Tone,
};

verus! {

pub open spec fn in_box(px: int, py: int, x0: int, x1: int, y0: int, y1: int) -> bool {
    x0 <= px < x1 && y0 <= py < y1
}

/// `b1` is `b0` with every cell of the box `[x0, x1) x [y0, y1)` given the
/// symbol `s` and foreground `t` (with `only_blank`, only those cells whose
/// symbol was a single space), and every other cell as it was.
pub open spec fn box_painted(
    b0: Buffer,
    b1: Buffer,
    x0: int,
    x1: int,
    y0: int,
    y1: int,
    s: Seq<char>,
    t: Tone,
    only_blank: bool,
) -> bool {
    &&& same_shape(b0, b1)
    &&& forall|px: int, py: int|
        buffer_area(b0).has(px, py) ==> #[trigger] view_at(b1, px, py) == (if in_box(
            px,
            py,
            x0,
            x1,
            y0,
            y1,
        ) && (!only_blank || view_at(b0, px, py).symbol == seq![' ']) {
            stamped(view_at(b0, px, py), s, t)
        } else {
            view_at(b0, px, py)
        })
}

/// `b1` is `b0` with every cell of the box reset to a blank symbol and
/// default colours.
pub open spec fn box_blanked(b0: Buffer, b1: Buffer, a: Area) -> bool {
    &&& same_shape(b0, b1)
    &&& forall|px: int, py: int|
        buffer_area(b0).has(px, py) ==> #[trigger] view_at(b1, px, py) == (if a.has(px, py) {
            CellView { symbol: seq![' '], fg: Tone::Reset, bg: Tone::Reset }
        } else {
            view_at(b0, px, py)
        })
}

/// The box lies inside the buffer's area, or is empty.
pub open spec fn box_fits(b: Buffer, x0: int, x1: int, y0: int, y1: int) -> bool {
    x0 >= x1 || y0 >= y1 || (buffer_area(b).l() <= x0 && x1 <= buffer_area(b).r()
        && buffer_area(b).t() <= y0 && y1 <= buffer_area(b).b())
}

/// Set the cell at `(x, y)` to symbol `s` with foreground `t`, as
/// `buf[(x, y)].set_symbol(s)` followed by `set_style(fg(t))`.
pub fn put(buf: &mut Buffer, x: u16, y: u16, s: &str, t: Tone)
    requires
        sound(*old(buf)),
        buffer_area(*old(buf)).has(x as int, y as int),
    ensures
        sound(*final(buf)),
        box_painted(*old(buf), *final(buf), x as int, x + 1, y as int, y + 1, s@, t, false),
{
    let ghost b0 = *buf;
    proof {
        lemma_cell_index(buffer_area(b0), x as int, y as int, x as int, y as int);
    }
    set_symbol_at(buf, x, y, s);
    set_style_at(buf, x, y, Paint { fg: Some(t), bg: None });
    proof {
        let a = buffer_area(b0);
        assert forall|px: int, py: int| a.has(px, py) implies #[trigger] view_at(*buf, px, py) == (
        if in_box(px, py, x as int, x + 1, y as int, y + 1) {
            stamped(view_at(b0, px, py), s@, t)
        } else {
            view_at(b0, px, py)
        }) by {
            lemma_cell_index(a, px, py, x as int, y as int);
        }
    }
}

/// The cell at `(x, y)` shows a single space.
pub fn is_blank_at(buf: &Buffer, x: u16, y: u16) -> (r: bool)
    requires
        sound(*buf),
        buffer_area(*buf).has(x as int, y as int),
    ensures
        r == (view_at(*buf, x as int, y as int).symbol == seq![' ']),
{
    let cur = symbol_at(buf, x, y);
    let r = cur.as_str().unicode_len() == 1 && cur.as_str().get_char(0) == ' ';
    proof {
        if cur@.len() == 1 && cur@[0] == ' ' {
            assert(cur@ =~= seq![' ']);
        }
    }
    r
}

/// Paint the cells of `[x0, x1) x [y0, y1)` with `s` in foreground `t`, row
/// by row, left to right; with `only_blank`, only the cells that show a
/// single space when reached.
pub fn fill_box(
    buf: &mut Buffer,
    x0: u16,
    x1: u16,
    y0: u16,
    y1: u16,
    s: &str,
    t: Tone,
    only_blank: bool,
)
    requires
        sound(*old(buf)),
        box_fits(*old(buf), x0 as int, x1 as int, y0 as int, y1 as int),
    ensures
        sound(*final(buf)),
        box_painted(
            *old(buf),
            *final(buf),
            x0 as int,
            x1 as int,
            y0 as int,
            y1 as int,
            s@,
            t,
            only_blank,
        ),
{
    let ghost b0 = *buf;
    let mut y = y0;
    while y < y1
        invariant
            sound(*buf),
            box_fits(b0, x0 as int, x1 as int, y0 as int, y1 as int),
            y0 <= y,
            y <= y1 || y == y0,
            box_painted(b0, *buf, x0 as int, x1 as int, y0 as int, y as int, s@, t, only_blank),
        decreases y1 - y,
    {
        let ghost row_start = *buf;
        let mut x = x0;
        while x < x1
            invariant
                sound(*buf),
                box_fits(b0, x0 as int, x1 as int, y0 as int, y1 as int),
                y0 <= y < y1,
                x0 <= x,
                x <= x1 || x == x0,
                box_painted(
                    b0,
                    row_start,
                    x0 as int,
                    x1 as int,
                    y0 as int,
                    y as int,
                    s@,
                    t,
                    only_blank,
                ),
                box_painted(row_start, *buf, x0 as int, x as int, y as int, y + 1, s@, t, only_blank),
            decreases x1 - x,
        {
            let ghost before = *buf;
            if !only_blank || is_blank_at(buf, x, y) {
                put(buf, x, y, s, t);
            }
            proof {
                assert forall|px: int, py: int| buffer_area(row_start).has(px, py) implies #[trigger] view_at(
                    *buf,
                    px,
                    py,
                ) == (if in_box(px, py, x0 as int, x + 1, y as int, y + 1) && (!only_blank
                    || view_at(row_start, px, py).symbol == seq![' ']) {
                    stamped(view_at(row_start, px, py), s@, t)
                } else {
                    view_at(row_start, px, py)
                }) by {
                    assert(view_at(before, px, py) == (if in_box(
                        px,
                        py,
                        x0 as int,
                        x as int,
                        y as int,
                        y + 1,
                    ) && (!only_blank || view_at(row_start, px, py).symbol == seq![' ']) {
                        stamped(view_at(row_start, px, py), s@, t)
                    } else {
                        view_at(row_start, px, py)
                    }));
                }
            }
            x = x + 1;
        }
        proof {
            assert forall|px: int, py: int| buffer_area(b0).has(px, py) implies #[trigger] view_at(
                *buf,
                px,
                py,
            ) == (if in_box(px, py, x0 as int, x1 as int, y0 as int, y + 1) && (!only_blank
                || view_at(b0, px, py).symbol == seq![' ']) {
                stamped(view_at(b0, px, py), s@, t)
            } else {
                view_at(b0, px, py)
            }) by {
                assert(view_at(row_start, px, py) == (if in_box(
                    px,
                    py,
                    x0 as int,
                    x1 as int,
                    y0 as int,
                    y as int,
                ) && (!only_blank || view_at(b0, px, py).symbol == seq![' ']) {
                    stamped(view_at(b0, px, py), s@, t)
                } else {
                    view_at(b0, px, py)
                }));
            }
        }
        y = y + 1;
    }
    proof {
        assert forall|px: int, py: int| buffer_area(b0).has(px, py) implies #[trigger] view_at(
            *buf,
            px,
            py,
        ) == (if in_box(px, py, x0 as int, x1 as int, y0 as int, y1 as int) && (!only_blank
            || view_at(b0, px, py).symbol == seq![' ']) {
            stamped(view_at(b0, px, py), s@, t)
        } else {
            view_at(b0, px, py)
        }) by {
            assert(view_at(*buf, px, py) == (if in_box(
                px,
                py,
                x0 as int,
                x1 as int,
                y0 as int,
                y as int,
            ) && (!only_blank || view_at(b0, px, py).symbol == seq![' ']) {
                stamped(view_at(b0, px, py), s@, t)
            } else {
                view_at(b0, px, py)
            }));
        }
    }
}

/// Reset every cell of `a` to a blank symbol with default foreground and
/// background, as `set_symbol(" ")` and `set_style(bg(Reset).fg(Reset))`.
pub fn blank_box(buf: &mut Buffer, a: Area)
    requires
        sound(*old(buf)),
        a.within(buffer_area(*old(buf))),
    ensures
        sound(*final(buf)),
        box_blanked(*old(buf), *final(buf), a),
{
    let ghost b0 = *buf;
    let ghost whole = buffer_area(b0);
    let top = a.top();
    let bottom = a.bottom();
    let left = a.left();
    let right = a.right();
    let blank = Paint { fg: Some(Tone::Reset), bg: Some(Tone::Reset) };
    let mut y = top;
    while y < bottom
        invariant
            sound(*buf),
            same_shape(b0, *buf),
            a.within(whole),
            whole == buffer_area(b0),
            top == a.t(),
            bottom == a.b(),
            left == a.l(),
            right == a.r(),
            top <= y,
            top < bottom ==> y <= bottom,
            blank == (Paint { fg: Some(Tone::Reset), bg: Some(Tone::Reset) }),
            forall|px: int, py: int|
                whole.has(px, py) ==> #[trigger] view_at(*buf, px, py) == (if a.has(px, py)
                    && py < y {
                    CellView { symbol: seq![' '], fg: Tone::Reset, bg: Tone::Reset }
                } else {
                    view_at(b0, px, py)
                }),
        decreases bottom - y,
    {
        let mut x = left;
        while x < right
            invariant
                sound(*buf),
                same_shape(b0, *buf),
                a.within(whole),
                whole == buffer_area(b0),
                top == a.t(),
                bottom == a.b(),
                left == a.l(),
                right == a.r(),
                top <= y < bottom,
                left <= x,
                left < right ==> x <= right,
                blank == (Paint { fg: Some(Tone::Reset), bg: Some(Tone::Reset) }),
                forall|px: int, py: int|
                    whole.has(px, py) ==> #[trigger] view_at(*buf, px, py) == (if a.has(px, py)
                        && (py < y || (py == y && px < x)) {
                        CellView { symbol: seq![' '], fg: Tone::Reset, bg: Tone::Reset }
                    } else {
                        view_at(b0, px, py)
                    }),
            decreases right - x,
        {
            let ghost before = *buf;
            proof {
                reveal_strlit(" ");
            }
            proof {
                lemma_cell_index(whole, x as int, y as int, x as int, y as int);
            }
            set_symbol_at(buf, x, y, " ");
            set_style_at(buf, x, y, blank);
            proof {
                assert forall|px: int, py: int| whole.has(px, py) implies #[trigger] view_at(
                    *buf,
                    px,
                    py,
                ) == (if a.has(px, py) && (py < y || (py == y && px < x + 1)) {
                    CellView { symbol: seq![' '], fg: Tone::Reset, bg: Tone::Reset }
                } else {
                    view_at(b0, px, py)
                }) by {
                    lemma_cell_index(whole, px, py, x as int, y as int);
                    assert(view_at(before, px, py) == (if a.has(px, py) && (py < y || (py == y
                        && px < x)) {
                        CellView { symbol: seq![' '], fg: Tone::Reset, bg: Tone::Reset }
                    } else {
                        view_at(b0, px, py)
                    }));
                    if px == x && py == y {
                        assert(view_at(*buf, px, py).symbol =~= seq![' ']);
                    }
                }
            }
            x = x + 1;
        }
        y = y + 1;
    }
}

} // verus!
