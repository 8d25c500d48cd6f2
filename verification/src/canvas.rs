//! The cell buffer that graphs are painted into.
//!
//! The buffer is `ratatui::buffer::Buffer`, reached only through the few
//! trusted items below. Verified code sees it through two names: the row-major
//! sequence of its cells, each as its symbol and its two colours, and the
//! rectangle it covers.

use vstd::prelude::*;
use ratatui::buffer::Buffer;
use ratatui::style::{Color, Style};
use crate::area::Area;

verus! {

#[verifier::external_type_specification]
#[verifier::external_body]
pub struct ExBuffer(Buffer);

#[verifier::external_type_specification]
#[verifier::external_body]
pub struct ExColor(Color);

/// The terminal colours the graph painters use (a part of
/// `ratatui::style::Color`'s palette).
#[derive(Clone, Copy, Debug, PartialEq, Eq, Structural)]
pub enum Tone {
    Reset,
    Red,
    Green,
    Cyan,
    Gray,
    DarkGray,
    White,
}

/// The colour part of a style: a colour that is set replaces the cell's,
/// one that is `None` leaves it as it was.
#[derive(Clone, Copy, Debug, PartialEq, Eq, Structural)]
pub struct Paint {
    pub fg: Option<Tone>,
    pub bg: Option<Tone>,
}

/// What a cell shows: its symbol and its foreground and background colours.
/// A colour outside `Tone` that another writer left in a cell is seen as
/// some tone; the painters here only ever write tones.
pub struct CellView {
    pub symbol: Seq<char>,
    pub fg: Tone,
    pub bg: Tone,
}

/// The cells of a buffer, row by row, as `Buffer::content` holds them.
pub uninterp spec fn buffer_cells(b: Buffer) -> Seq<CellView>;

/// The rectangle a buffer covers, as `Buffer::area` holds it.
pub uninterp spec fn buffer_area(b: Buffer) -> Area;

/// What one print of a string does to one cell.
pub enum Written {
    /// The cell is left as it was.
    Kept,
    /// The cell gets a grapheme as its symbol and the style's colours.
    Printed(Seq<char>),
    /// The cell is covered by the wide grapheme before it, and reset to a
    /// blank symbol with default colours.
    Cleared,
}

/// What `Buffer::set_string` does to the cell at index `i` of the row-major
/// content of a buffer over `area`, printing `text` from `(x, y)`. It is
/// fixed by the area, the position and the text (its grapheme clusters and
/// their display widths), whatever the cells hold.
pub uninterp spec fn string_effect(area: Area, x: u16, y: u16, text: Seq<char>, i: int) -> Written;

/// The cell after `w`, printed with the colours of `p`.
pub open spec fn written_cell(c: CellView, w: Written, p: Paint) -> CellView {
    match w {
        Written::Kept => c,
        Written::Printed(s) => painted(CellView { symbol: s, fg: c.fg, bg: c.bg }, p),
        Written::Cleared => CellView { symbol: seq![' '], fg: Tone::Reset, bg: Tone::Reset },
    }
}

/// Position of the cell `(x, y)` in the row-major content of `a`.
pub open spec fn cell_index(a: Area, x: int, y: int) -> int {
    (y - a.y) * a.width + (x - a.x)
}

/// The buffer holds exactly one cell per position of its area, so every
/// position inside the area can be indexed.
pub open spec fn sound(b: Buffer) -> bool {
    buffer_cells(b).len() == buffer_area(b).width * buffer_area(b).height
}

/// The cell shown at `(x, y)`.
pub open spec fn view_at(b: Buffer, x: int, y: int) -> CellView {
    buffer_cells(b)[cell_index(buffer_area(b), x, y)]
}

pub open spec fn painted(c: CellView, p: Paint) -> CellView {
    CellView {
        symbol: c.symbol,
        fg: match p.fg {
            Some(t) => t,
            None => c.fg,
        },
        bg: match p.bg {
            Some(t) => t,
            None => c.bg,
        },
    }
}

/// The cell after its symbol was set to `s` and its foreground to `t`.
pub open spec fn stamped(c: CellView, s: Seq<char>, t: Tone) -> CellView {
    CellView { symbol: s, fg: t, bg: c.bg }
}

/// Same area, same number of cells.
pub open spec fn same_shape(b0: Buffer, b1: Buffer) -> bool {
    buffer_area(b1) == buffer_area(b0) && buffer_cells(b1).len() == buffer_cells(b0).len()
}

/// Each character is printable ASCII, one terminal column wide.
pub open spec fn plain_text(s: Seq<char>) -> bool {
    forall|i: int| 0 <= i < s.len() ==> ' ' <= #[trigger] s[i] <= '~'
}

/// Column of the `i`-th cell of the row-major content of `a`.
pub open spec fn col_of(a: Area, i: int) -> int {
    a.x + i % (a.width as int)
}

/// Row of the `i`-th cell of the row-major content of `a`.
pub open spec fn row_of(a: Area, i: int) -> int {
    a.y + i / (a.width as int)
}

/// What printing printable ASCII `text` on row `y` from column `x` does to
/// cell `i`: the characters go one per cell.
pub open spec fn plain_effect(a: Area, x: int, y: int, text: Seq<char>, i: int) -> Written {
    if row_of(a, i) == y && x <= col_of(a, i) < x + text.len() {
        Written::Printed(seq![text[col_of(a, i) - x]])
    } else {
        Written::Kept
    }
}

/// What printing `text` does to cell `i`: stated for printable ASCII, named
/// by `string_effect` for any other text.
pub open spec fn text_effect(a: Area, x: u16, y: u16, text: Seq<char>, i: int) -> Written {
    if plain_text(text) {
        plain_effect(a, x as int, y as int, text, i)
    } else {
        string_effect(a, x, y, text, i)
    }
}

/// The cells after `text` was printed on row `y` from column `x` with the
/// colours of `p`.
pub open spec fn string_written(c: Seq<CellView>, a: Area, x: u16, y: u16, text: Seq<char>, p: Paint) -> Seq<
    CellView,
> {
    Seq::new(c.len(), |i: int| written_cell(c[i], text_effect(a, x, y, text, i), p))
}

/// Two different positions inside a sound area have different indices,
/// both inside the content.
pub proof fn lemma_cell_index(a: Area, x1: int, y1: int, x2: int, y2: int)
    requires
        a.has(x1, y1),
        a.has(x2, y2),
    ensures
        0 <= cell_index(a, x1, y1) < a.width * a.height,
        (x1 != x2 || y1 != y2) ==> cell_index(a, x1, y1) != cell_index(a, x2, y2),
{
    let w = a.width as int;
    let h = a.height as int;
    let i1 = x1 - a.x;
    let j1 = y1 - a.y;
    let i2 = x2 - a.x;
    let j2 = y2 - a.y;
    assert(0 <= i1 < w && 0 <= j1 < h && 0 <= i2 < w && 0 <= j2 < h);
    assert(0 <= j1 * w + i1 < w * h) by (nonlinear_arith)
        requires
            0 <= i1 < w,
            0 <= j1 < h,
    ;
    assert((i1 != i2 || j1 != j2) ==> j1 * w + i1 != j2 * w + i2) by (nonlinear_arith)
        requires
            0 <= i1 < w,
            0 <= i2 < w,
    ;
}

/// The rectangle the buffer covers (`Buffer::area`).
#[verifier::external_body]
pub(crate) fn area_of(buf: &Buffer) -> (a: Area)
    ensures
        a == buffer_area(*buf),
{
    Area { x: buf.area.x, y: buf.area.y, width: buf.area.width, height: buf.area.height }
}

/// How many cells the buffer holds (`Vec::len` of `Buffer::content`).
#[verifier::external_body]
pub(crate) fn cell_count(buf: &Buffer) -> (n: usize)
    ensures
        n == buffer_cells(*buf).len(),
{
    buf.content.len()
}

/// `ratatui::style::Color` for a tone, variant for variant.
#[verifier::external_body]
fn color_of(t: Tone) -> Color {
    match t {
        Tone::Reset => Color::Reset,
        Tone::Red => Color::Red,
        Tone::Green => Color::Green,
        Tone::Cyan => Color::Cyan,
        Tone::Gray => Color::Gray,
        Tone::DarkGray => Color::DarkGray,
        Tone::White => Color::White,
    }
}

/// `Cell::set_symbol` on the cell at `(x, y)` (reached by `Buffer`'s
/// `IndexMut`): the cell's symbol becomes `symbol`; nothing else changes.
/// Indexing panics outside the area, and reads the wrong cell or panics when
/// the content does not hold one cell per position.
#[verifier::external_body]
pub(crate) fn set_symbol_at(buf: &mut Buffer, x: u16, y: u16, symbol: &str)
    requires
        sound(*old(buf)),
        buffer_area(*old(buf)).has(x as int, y as int),
    ensures
        buffer_area(*final(buf)) == buffer_area(*old(buf)),
        buffer_cells(*final(buf)) == buffer_cells(*old(buf)).update(
            cell_index(buffer_area(*old(buf)), x as int, y as int),
            (CellView {
                symbol: symbol@,
                fg: view_at(*old(buf), x as int, y as int).fg,
                bg: view_at(*old(buf), x as int, y as int).bg,
            }),
        ),
{
    buf[(x, y)].set_symbol(symbol);
}

/// `Cell::set_style` on the cell at `(x, y)` with a style that sets only
/// colours: each colour that `paint` sets replaces the cell's.
#[verifier::external_body]
pub(crate) fn set_style_at(buf: &mut Buffer, x: u16, y: u16, paint: Paint)
    requires
        sound(*old(buf)),
        buffer_area(*old(buf)).has(x as int, y as int),
    ensures
        buffer_area(*final(buf)) == buffer_area(*old(buf)),
        buffer_cells(*final(buf)) == buffer_cells(*old(buf)).update(
            cell_index(buffer_area(*old(buf)), x as int, y as int),
            painted(view_at(*old(buf), x as int, y as int), paint),
        ),
{
    let style = Style { fg: paint.fg.map(color_of), bg: paint.bg.map(color_of), ..Style::default() };
    buf[(x, y)].set_style(style);
}

/// `Cell::symbol` of the cell at `(x, y)`, copied into a `String`.
#[verifier::external_body]
pub(crate) fn symbol_at(buf: &Buffer, x: u16, y: u16) -> (s: String)
    requires
        sound(*buf),
        buffer_area(*buf).has(x as int, y as int),
    ensures
        s@ == view_at(*buf, x as int, y as int).symbol,
{
    buf[(x, y)].symbol().to_string()
}

/// `Buffer::set_string`: prints `text` on row `y` from column `x` rightward,
/// one grapheme per cell, until the buffer's right edge. Each cell is
/// visited at most once: it is kept, or gets a grapheme and the style's
/// colours, or (covered by a wide grapheme) is reset; which of these is
/// named by `string_effect`, and does not depend on what the cells held.
/// Stated beside it: the number of cells stays; no cell on another row or
/// left of `x` changes; and printable ASCII text, which is one single-width
/// grapheme per character, puts its `k`-th character in column `x + k`. Not
/// stated: how other text is split into graphemes and measured.
#[verifier::external_body]
pub(crate) fn set_string_at(buf: &mut Buffer, x: u16, y: u16, text: &str, paint: Paint)
    requires
        sound(*old(buf)),
        buffer_area(*old(buf)).fits(),
        buffer_area(*old(buf)).t() <= y < buffer_area(*old(buf)).b(),
        buffer_area(*old(buf)).l() <= x,
    ensures
        buffer_area(*final(buf)) == buffer_area(*old(buf)),
        buffer_cells(*final(buf)).len() == buffer_cells(*old(buf)).len(),
        forall|i: int|
            0 <= i < buffer_cells(*old(buf)).len() ==> #[trigger] buffer_cells(*final(buf))[i] == written_cell(
                buffer_cells(*old(buf))[i],
                string_effect(buffer_area(*old(buf)), x, y, text@, i),
                paint,
            ),
        forall|i: int|
            0 <= i < buffer_cells(*old(buf)).len() && (row_of(buffer_area(*old(buf)), i) != y
                || col_of(buffer_area(*old(buf)), i) < x) ==> #[trigger] buffer_cells(
                *final(buf),
            )[i] == buffer_cells(*old(buf))[i],
        plain_text(text@) ==> forall|i: int|
            0 <= i < buffer_cells(*old(buf)).len() ==> #[trigger] buffer_cells(*final(buf))[i] == written_cell(
                buffer_cells(*old(buf))[i],
                plain_effect(buffer_area(*old(buf)), x as int, y as int, text@, i),
                paint,
            ),
{
    let style = Style { fg: paint.fg.map(color_of), bg: paint.bg.map(color_of), ..Style::default() };
    buf.set_string(x, y, text, style);
}

} // verus!
