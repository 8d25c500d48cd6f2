//! Everything around the plot: clearing, the placeholder message, titles,
//! notes, legend, value table, axis-title columns, frame and grid lines.

use vstd::prelude::*;
use crate::area::{sat_sub, Area};
use crate::canvas::{Paint, Tone};
use crate::marks::{push_stroke, mark_clear_of, marks_clear_of, marks_fit, mark_fits, text_stroke, Mark, Stroke, marks_of};
use crate::model::text_of;

verus! {

/// Colours that set only the foreground.
pub open spec fn fg_paint(t: Tone) -> Paint {
    Paint { fg: Some(t), bg: None }
}

pub fn fg(t: Tone) -> (p: Paint)
    ensures
        p == fg_paint(t),
{
    Paint { fg: Some(t), bg: None }
}

/// Text cut to the terminal width the row leaves for it: `msg` itself when
/// it has at most `max_len` characters, else its first `max_len`.
pub open spec fn cut(msg: Seq<char>, max_len: int) -> Seq<char> {
    if msg.len() > max_len {
        msg.take(max_len)
    } else {
        msg
    }
}

/// `msg` centred on row `y` of `a`, cut to the width less two cells.
pub open spec fn centered_row(a: Area, y: int, msg: Seq<char>) -> Mark {
    let display = cut(msg, sat_sub(a.width as int, 2));
    Mark::Text {
        x: (a.x + sat_sub(a.width as int, (display.len() as u16) as int) / 2) as u16,
        y: y as u16,
        text: display,
        paint: fg_paint(Tone::White),
    }
}

/// The first `n` characters of `s`, or all of it when shorter.
pub fn take_chars(s: &str, n: usize) -> (r: &str)
    ensures
        r@ == (if n < s@.len() { s@.take(n as int) } else { s@ }),
{
    let len = s.unicode_len();
    if n < len {
        let r = s.substring_char(0, n);
        assert(r@ =~= s@.take(n as int));
        r
    } else {
        s
    }
}

/// Plan `msg` centred on row `y`, cut to the area's width less two.
pub fn write_centered_row(area: Area, y: u16, msg: &str, plan: &mut Vec<Stroke>)
    requires
        area.fits(),
    ensures
        marks_of(final(plan)@) == marks_of(old(plan)@).push(centered_row(area, y as int, msg@)),
{
    let max_len = area.width.saturating_sub(2);
    let display = take_chars(msg, max_len as usize);
    assert(display@ == cut(msg@, sat_sub(area.width as int, 2)));
    let display_len = display.unicode_len() as u16;
    let x0 = area.left() + area.width.saturating_sub(display_len) / 2;
    push_stroke(plan, text_stroke(x0, y, display, fg(Tone::White)));
}

/// The rows reserved by the First, Second and X-Axis titles: First on the
/// top row, Second below it, X-Axis on the bottom row, each while a row is
/// left; and the rectangle left between them.
pub open spec fn title_rows(
    a: Area,
    first: Option<Seq<char>>,
    second: Option<Seq<char>>,
    x_axis: Option<Seq<char>>,
) -> (Seq<Mark>, Area) {
    let top0 = a.t();
    let bottom0 = a.b();
    let use1 = first is Some && top0 < bottom0;
    let top1 = if use1 { top0 + 1 } else { top0 };
    let m1 = if use1 { seq![centered_row(a, top0, first.unwrap())] } else { seq![] };
    let use2 = second is Some && top1 < bottom0;
    let top2 = if use2 { top1 + 1 } else { top1 };
    let m2 = if use2 { seq![centered_row(a, top1, second.unwrap())] } else { seq![] };
    let use3 = x_axis is Some && bottom0 > top2;
    let bottom1 = if use3 { bottom0 - 1 } else { bottom0 };
    let m3 = if use3 { seq![centered_row(a, bottom1, x_axis.unwrap())] } else { seq![] };
    (m1 + m2 + m3, Area { x: a.x, y: top2 as u16, width: a.width, height: (bottom1 - top2) as u16 })
}

/// Plan the First, Second and X-Axis titles and return the rectangle left
/// for the plot between them.
pub fn reserve_title_rows(area: Area, titles: &crate::model::Titles, plan: &mut Vec<Stroke>) -> (r: Area)
    requires
        area.fits(),
    ensures
        marks_of(final(plan)@) == marks_of(old(plan)@) + title_rows(
            area,
            text_of(titles.first),
            text_of(titles.second),
            text_of(titles.x_axis),
        ).0,
        r == title_rows(area, text_of(titles.first), text_of(titles.second), text_of(titles.x_axis)).1,
{
    let ghost m0 = marks_of(plan@);
    let mut top = area.top();
    let mut bottom = area.bottom();
    if let Some(t) = &titles.first {
        if top < bottom {
            write_centered_row(area, top, t.as_str(), plan);
            top = top + 1;
        }
    }
    let ghost m1 = marks_of(plan@);
    if let Some(t) = &titles.second {
        if top < bottom {
            write_centered_row(area, top, t.as_str(), plan);
            top = top + 1;
        }
    }
    let ghost m2 = marks_of(plan@);
    if let Some(t) = &titles.x_axis {
        if bottom > top {
            bottom = bottom - 1;
            write_centered_row(area, bottom, t.as_str(), plan);
        }
    }
    let ghost spec = title_rows(area, text_of(titles.first), text_of(titles.second), text_of(titles.x_axis));
    assert(marks_of(plan@) =~= m0 + spec.0);
    Area::new(area.x, top, area.width, bottom - top)
}

/// The Note (left) and Other-Note (right) row at the bottom of `a`, when
/// either is set and `a` has at least four rows; and what is left above it.
/// Each is cut to the width less two. Note starts one cell in from the left
/// edge; Other-Note ends one cell in from the right edge. Where they would
/// overlap, Note wins: Other-Note starts right after it and keeps only the
/// characters that fit before its end cell.
pub open spec fn note_row(a: Area, note: Option<Seq<char>>, other: Option<Seq<char>>) -> (
    Seq<Mark>,
    Area,
) {
    if (note is None && other is None) || a.height < 4 {
        (seq![], a)
    } else {
        let y = a.b() - 1;
        let max_len = sat_sub(a.width as int, 2);
        let m1 = match note {
            Some(t) => seq![
                Mark::Text { x: (a.x + 1) as u16, y: y as u16, text: cut(t, max_len), paint: fg_paint(Tone::White) },
            ],
            None => seq![],
        };
        let m2 = match other {
            Some(t) => {
                let display = cut(t, max_len);
                let x0 = a.x + sat_sub(a.width as int, display.len() as int + 1);
                let free = match note {
                    Some(n) => a.x + 1 + cut(n, max_len).len(),
                    None => a.x as int,
                };
                let keep = a.x + a.width - 1 - free;
                if x0 >= free {
                    seq![Mark::Text { x: x0 as u16, y: y as u16, text: display, paint: fg_paint(Tone::White) }]
                } else if keep > 0 {
                    seq![
                        Mark::Text {
                            x: free as u16,
                            y: y as u16,
                            text: display.take(keep),
                            paint: fg_paint(Tone::White),
                        },
                    ]
                } else {
                    seq![]
                }
            },
            None => seq![],
        };
        (m1 + m2, Area { x: a.x, y: a.y, width: a.width, height: (a.height - 1) as u16 })
    }
}

/// Plan Note and Other-Note on a shared bottom row and return the area
/// above it.
pub fn reserve_note_row(area: Area, titles: &crate::model::Titles, plan: &mut Vec<Stroke>) -> (r: Area)
    requires
        area.fits(),
        titles.note is Some && area.height >= 4 ==> area.x < u16::MAX,
    ensures
        marks_of(final(plan)@) == marks_of(old(plan)@) + note_row(
            area,
            text_of(titles.note),
            text_of(titles.other_note),
        ).0,
        r == note_row(area, text_of(titles.note), text_of(titles.other_note)).1,
{
    let ghost m0 = marks_of(plan@);
    let ghost spec = note_row(area, text_of(titles.note), text_of(titles.other_note));
    if titles.note.is_none() && titles.other_note.is_none() {
        assert(spec.0 =~= seq![]);
        return area;
    }
    if area.height < 4 {
        assert(spec.0 =~= seq![]);
        return area;
    }
    let y = area.bottom() - 1;
    let max_len = area.width.saturating_sub(2);
    let mut free: u32 = area.left() as u32;
    if let Some(text) = &titles.note {
        let display = take_chars(text.as_str(), max_len as usize);
        push_stroke(plan, text_stroke(area.left() + 1, y, display, fg(Tone::White)));
        free = area.left() as u32 + 1 + display.unicode_len() as u32;
    }
    let ghost m1 = marks_of(plan@);
    if let Some(text) = &titles.other_note {
        let display = take_chars(text.as_str(), max_len as usize);
        let display_len = display.unicode_len() as u16;
        let x0 = area.left() + area.width.saturating_sub(display_len + 1);
        let last = area.left() as u32 + area.width as u32;
        if x0 as u32 >= free {
            push_stroke(plan, text_stroke(x0, y, display, fg(Tone::White)));
        } else if last > free + 1 {
            let kept = take_chars(display, (last - 1 - free) as usize);
            push_stroke(plan, text_stroke(free as u16, y, kept, fg(Tone::White)));
        }
    }
    assert(marks_of(plan@) =~= m0 + spec.0);
    Area::new(area.x, area.y, area.width, area.height - 1)
}

/// The letter of series slot `i` (0..=5 for A..F).
pub open spec fn slot_letter(i: int) -> char {
    if i == 0 {
        'A'
    } else if i == 1 {
        'B'
    } else if i == 2 {
        'C'
    } else if i == 3 {
        'D'
    } else if i == 4 {
        'E'
    } else {
        'F'
    }
}

/// `"A: "` .. `"F: "` for slot `i`.
pub fn slot_prefix(i: usize) -> (r: &'static str)
    requires
        i < 6,
    ensures
        r@ == seq![slot_letter(i as int), ':', ' '],
{
    if i == 0 {
        proof { reveal_strlit("A: "); }
        assert("A: "@ =~= seq!['A', ':', ' ']);
        "A: "
    } else if i == 1 {
        proof { reveal_strlit("B: "); }
        assert("B: "@ =~= seq!['B', ':', ' ']);
        "B: "
    } else if i == 2 {
        proof { reveal_strlit("C: "); }
        assert("C: "@ =~= seq!['C', ':', ' ']);
        "C: "
    } else if i == 3 {
        proof { reveal_strlit("D: "); }
        assert("D: "@ =~= seq!['D', ':', ' ']);
        "D: "
    } else if i == 4 {
        proof { reveal_strlit("E: "); }
        assert("E: "@ =~= seq!['E', ':', ' ']);
        "E: "
    } else {
        proof { reveal_strlit("F: "); }
        assert("F: "@ =~= seq!['F', ':', ' ']);
        "F: "
    }
}

/// `"L: name"` for every set legend slot, in A..F order.
pub open spec fn legend_parts(l: Seq<Option<Seq<char>>>) -> Seq<Seq<char>>
    decreases l.len(),
{
    if l.len() == 0 {
        seq![]
    } else {
        let p = legend_parts(l.drop_last());
        match l.last() {
            Some(name) => p.push(seq![slot_letter(l.len() - 1), ':', ' '] + name),
            None => p,
        }
    }
}

/// The parts joined by two spaces.
pub open spec fn joined(parts: Seq<Seq<char>>) -> Seq<char>
    decreases parts.len(),
{
    if parts.len() == 0 {
        seq![]
    } else if parts.len() == 1 {
        parts[0]
    } else {
        joined(parts.drop_last()) + seq![' ', ' '] + parts.last()
    }
}

pub open spec fn texts_of(l: Seq<Option<String>>) -> Seq<Option<Seq<char>>> {
    l.map_values(|o: Option<String>| text_of(o))
}

/// The legend row at the bottom of `a` (`A: name  B: name ...`, cut to the
/// width less two), when a slot is set and `a` has at least four rows; and
/// what is left above it.
pub open spec fn legend_row(a: Area, l: Seq<Option<Seq<char>>>) -> (Seq<Mark>, Area) {
    let parts = legend_parts(l);
    if parts.len() == 0 || a.height < 4 {
        (seq![], a)
    } else {
        let line = joined(parts);
        let max_len = sat_sub(a.width as int, 2);
        (
            seq![
                Mark::Text {
                    x: (a.x + 1) as u16,
                    y: (a.b() - 1) as u16,
                    text: if line.len() > max_len { line.take(max_len) } else { line },
                    paint: fg_paint(Tone::White),
                },
            ],
            Area { x: a.x, y: a.y, width: a.width, height: (a.height - 1) as u16 },
        )
    }
}

/// Plan the legend row and return the area above it.
pub fn reserve_legend_row(area: Area, legend: &[Option<String>; 6], plan: &mut Vec<Stroke>) -> (r: Area)
    requires
        area.fits(),
        legend_parts(texts_of(legend@)).len() > 0 && area.height >= 4 ==> area.x < u16::MAX,
    ensures
        marks_of(final(plan)@) == marks_of(old(plan)@) + legend_row(area, texts_of(legend@)).0,
        r == legend_row(area, texts_of(legend@)).1,
{
    let ghost l = texts_of(legend@);
    let mut line = String::new();
    let mut count: usize = 0;
    let mut i: usize = 0;
    while i < 6
        invariant
            i <= 6,
            l == texts_of(legend@),
            l.len() == 6,
            line@ == joined(legend_parts(l.take(i as int))),
            count == legend_parts(l.take(i as int)).len(),
            count <= i,
        decreases 6 - i,
    {
        assert(l.take(i + 1).drop_last() =~= l.take(i as int));
        assert(l.take(i + 1).last() == l[i as int]);
        if let Some(name) = &legend[i] {
            let ghost parts = legend_parts(l.take(i as int));
            let ghost part = seq![slot_letter(i as int), ':', ' '] + name@;
            if count > 0 {
                line.append("  ");
                proof { reveal_strlit("  "); }
            }
            line.append(slot_prefix(i));
            line.append(name.as_str());
            assert(parts.push(part).drop_last() =~= parts);
            if count > 0 {
                assert("  "@ =~= seq![' ', ' ']);
                assert(line@ =~= joined(parts) + seq![' ', ' '] + part);
            } else {
                assert(line@ =~= part);
            }
            count = count + 1;
        }
        i = i + 1;
    }
    assert(l.take(6) =~= l);
    if count == 0 || area.height < 4 {
        return area;
    }
    let max_len = area.width.saturating_sub(2) as usize;
    let shown = take_chars(line.as_str(), max_len);
    let y = area.bottom() - 1;
    push_stroke(plan, text_stroke(area.left() + 1, y, shown, fg(Tone::White)));
    Area::new(area.x, area.y, area.width, area.height - 1)
}

/// `t` right-aligned in a field of `w` characters.
pub open spec fn padded(t: Seq<char>, w: int) -> Seq<char> {
    if t.len() < w {
        Seq::new((w - t.len()) as nat, |i: int| ' ') + t
    } else {
        t
    }
}

/// `text` right-aligned in a field of `w` characters (`format!("{:>w$}")`).
pub fn pad_left(text: &str, w: usize) -> (r: String)
    ensures
        r@ == padded(text@, w as int),
{
    let n = text.unicode_len();
    let mut r = String::new();
    let mut k = n;
    proof { reveal_strlit(" "); }
    while k < w
        invariant
            n == text@.len(),
            n <= k <= w || (k == n && n >= w),
            r@ == Seq::new((k - n) as nat, |i: int| ' '),
        decreases w - k,
    {
        proof { reveal_strlit(" "); }
        r.append(" ");
        assert(" "@ =~= seq![' ']);
        assert(r@ =~= Seq::new((k + 1 - n) as nat, |i: int| ' '));
        k = k + 1;
    }
    r.append(text);
    if n >= w {
        assert(r@ =~= text@);
    }
    r
}

/// Width of the slot-letter column of the value table (`"A:  "`).
pub const LABEL_WIDTH: u16 = 4;

/// Width of each value column of the value table.
pub const COL_WIDTH: u16 = 7;

/// The slots that hold a series, in A..F order.
pub open spec fn set_slots<T>(t: Seq<Option<T>>) -> Seq<int>
    decreases t.len(),
{
    if t.len() == 0 {
        seq![]
    } else {
        let p = set_slots(t.drop_last());
        if t.last() is Some { p.push(t.len() - 1) } else { p }
    }
}

pub open spec fn table_texts(t: Seq<Option<Vec<String>>>) -> Seq<Option<Seq<Seq<char>>>> {
    t.map_values(
        |o: Option<Vec<String>>|
            match o {
                Some(v) => Some(v@.map_values(|s: String| s@)),
                None => None,
            },
    )
}

/// How many value columns fit on a table row of `a`.
pub open spec fn table_columns(a: Area) -> int {
    if a.width >= 5 { (a.width - 5) / 7 } else { 0 }
}

/// One table row on row `y`: the slot letter, then a value for each
/// seven-cell column that fits, right-aligned in it; a value longer than
/// its column runs on into the next (which the next value then overwrites)
/// and is cut only at the area's right edge.
pub open spec fn table_row(a: Area, y: int, slot: int, vals: Seq<Seq<char>>) -> Seq<Mark> {
    let shown = if vals.len() < table_columns(a) { vals.len() as int } else { table_columns(a) };
    seq![
        Mark::Text {
            x: (a.x + 1) as u16,
            y: y as u16,
            text: seq![slot_letter(slot), ':', ' '],
            paint: fg_paint(Tone::White),
        },
    ] + Seq::new(
        shown as nat,
        |c: int|
            Mark::Text {
                x: (a.x + 5 + 7 * c) as u16,
                y: y as u16,
                text: cut(padded(vals[c], 7), a.r() - (a.x + 5 + 7 * c)),
                paint: fg_paint(Tone::White),
            },
    )
}

/// The first `k` table rows, from row `top` down.
pub open spec fn table_rows_upto(a: Area, top: int, t: Seq<Option<Seq<Seq<char>>>>, k: int) -> Seq<Mark>
    decreases k,
{
    if k <= 0 {
        seq![]
    } else {
        let slot = set_slots(t)[k - 1];
        table_rows_upto(a, top, t, k - 1) + table_row(a, top + k - 1, slot, t[slot].unwrap())
    }
}

/// The number of values of the longest set series.
pub open spec fn table_longest(t: Seq<Option<Seq<Seq<char>>>>) -> int
    decreases t.len(),
{
    if t.len() == 0 {
        0
    } else {
        let rest = table_longest(t.drop_last());
        match t.last() {
            Some(v) => if v.len() > rest { v.len() as int } else { rest },
            None => rest,
        }
    }
}

/// The value table at the bottom of `a`, one row per set series, when some
/// series has a value, the rows leave at least four rows above them and `a`
/// is at least 16 cells wide; and the area above it.
pub open spec fn table_rows(a: Area, t: Seq<Option<Seq<Seq<char>>>>) -> (Seq<Mark>, Area) {
    let rows = set_slots(t).len() as int;
    if rows == 0 || table_longest(t) == 0 || rows + 3 >= a.height || a.width < 16 {
        (seq![], a)
    } else {
        (
            table_rows_upto(a, a.b() - rows, t, rows),
            Area { x: a.x, y: a.y, width: a.width, height: (a.height - rows) as u16 },
        )
    }
}

proof fn lemma_set_slots<T>(t: Seq<Option<T>>, i: int)
    requires
        0 <= i <= t.len(),
    ensures
        set_slots(t.take(i)).len() <= i,
        forall|k: int|
            0 <= k < set_slots(t.take(i)).len() ==> 0 <= #[trigger] set_slots(t.take(i))[k] < i
                && t[set_slots(t.take(i))[k]] is Some,
        forall|k1: int, k2: int|
            0 <= k1 < k2 < set_slots(t.take(i)).len() ==> #[trigger] set_slots(t.take(i))[k1]
                < #[trigger] set_slots(t.take(i))[k2],
    decreases i,
{
    if i > 0 {
        lemma_set_slots(t, i - 1);
        assert(t.take(i).drop_last() =~= t.take(i - 1));
    }
}

proof fn lemma_table_columns(w: int, col: int)
    requires
        w >= 16,
        col >= 0,
    ensures
        5 + 7 * col + 7 <= w <==> col < (w - 5) / 7,
{
    vstd::arithmetic::div_mod::lemma_fundamental_div_mod(w - 5, 7);
    let q = (w - 5) / 7;
    let r = (w - 5) % 7;
    assert(0 <= r < 7) by {
        vstd::arithmetic::div_mod::lemma_mod_bound(w - 5, 7);
    }
    assert(5 + 7 * col + 7 <= w <==> col < q) by (nonlinear_arith)
        requires
            w - 5 == 7 * q + r,
            0 <= r < 7,
            col >= 0,
    ;
}

/// Plan the value table (one row per set series, the values already
/// written as text, each right-aligned in its seven-cell column) at the
/// bottom of `area` and return the area above it; nothing when no series
/// has a value.
pub fn reserve_value_table_rows(area: Area, table: &[Option<Vec<String>>; 6], plan: &mut Vec<Stroke>) -> (r: Area)
    requires
        area.fits(),
    ensures
        marks_of(final(plan)@) == marks_of(old(plan)@) + table_rows(area, table_texts(table@)).0,
        r == table_rows(area, table_texts(table@)).1,
{
    let ghost m0 = marks_of(plan@);
    let ghost t = table_texts(table@);
    let mut slots: Vec<usize> = Vec::new();
    let mut longest: usize = 0;
    let mut i: usize = 0;
    while i < 6
        invariant
            i <= 6,
            t == table_texts(table@),
            t.len() == 6,
            slots@.map_values(|s: usize| s as int) == set_slots(t.take(i as int)),
            longest == table_longest(t.take(i as int)),
        decreases 6 - i,
    {
        assert(t.take(i + 1).drop_last() =~= t.take(i as int));
        let ghost before = slots@;
        match &table[i] {
            Some(v) => {
                slots.push(i);
                assert(slots@.map_values(|s: usize| s as int) =~= before.map_values(|s: usize| s as int).push(i as int));
                if v.len() > longest {
                    longest = v.len();
                }
            },
            None => {},
        }
        i = i + 1;
    }
    assert(t.take(6) =~= t);
    if longest == 0 {
        return area;
    }
    let ghost ss = set_slots(t);
    proof {
        lemma_set_slots(t, 6);
    }
    assert(slots@.len() == ss.len());
    if slots.len() == 0 {
        return area;
    }
    let rows_needed = slots.len() as u16;
    if rows_needed + 3 >= area.height || area.width < 16 {
        return area;
    }
    let top = area.bottom() - rows_needed;
    let ncols: Ghost<int> = Ghost(table_columns(area));
    let mut row_i: usize = 0;
    while row_i < slots.len()
        invariant
            t == table_texts(table@),
            ss == set_slots(t),
            slots@.map_values(|s: usize| s as int) == ss,
            slots@.len() == rows_needed,
            rows_needed + 3 < area.height,
            area.width >= 16,
            area.fits(),
            top == area.b() - rows_needed,
            ncols@ == table_columns(area),
            row_i <= slots@.len(),
            forall|k: int| 0 <= k < ss.len() ==> 0 <= #[trigger] ss[k] < 6 && t[ss[k]] is Some,
            marks_of(plan@) == m0 + table_rows_upto(area, top as int, t, row_i as int),
        decreases slots@.len() - row_i,
    {
        let slot = slots[row_i];
        assert(slot == ss[row_i as int]);
        let y = top + row_i as u16;
        let ghost base = marks_of(plan@);
        push_stroke(plan, text_stroke(area.left() + 1, y, slot_prefix(slot), fg(Tone::White)));
        let vals = table[slot].as_ref().unwrap();
        let ghost vs = t[slot as int].unwrap();
        assert(vs == vals@.map_values(|s: String| s@));
        let mut col: usize = 0;
        while col < vals.len()
            invariant
                area.width >= 16,
                area.fits(),
                vs == vals@.map_values(|s: String| s@),
                ncols@ == table_columns(area),
                col <= vals@.len(),
                col <= ncols@,
                y < area.b(),
                marks_of(plan@) == base + table_row(area, y as int, slot as int, vs).take(1 + col),
            ensures
                col == vals@.len() || col == ncols@,
                marks_of(plan@) == base + table_row(area, y as int, slot as int, vs).take(1 + col),
            decreases vals@.len() - col,
        {
            proof {
                lemma_table_columns(area.width as int, col as int);
            }
            let x = area.left() as u64 + 1 + LABEL_WIDTH as u64 + (col as u64) * COL_WIDTH as u64;
            if x + COL_WIDTH as u64 > area.right() as u64 {
                break;
            }
            let x = x as u16;
            let ghost row = table_row(area, y as int, slot as int, vs);
            let padded_text = pad_left(vals[col].as_str(), 7);
            let shown = take_chars(padded_text.as_str(), (area.right() - x) as usize);
            push_stroke(plan, text_stroke(x, y, shown, fg(Tone::White)));
            assert(row.take(2 + col) =~= row.take(1 + col).push(row[1 + col]));
            col = col + 1;
        }
        proof {
            lemma_table_columns(area.width as int, col as int);
            let row = table_row(area, y as int, slot as int, vs);
            assert(row.take(1 + col) =~= row);
            assert(table_rows_upto(area, top as int, t, row_i + 1) =~= table_rows_upto(area, top as int, t, row_i as int) + row);
        }
        row_i = row_i + 1;
    }
    Area::new(area.x, area.y, area.width, area.height - rows_needed)
}

/// `msg` written top to bottom in column `x`, one character per row,
/// centred vertically in `a` and cut to its height.
pub open spec fn column_marks(a: Area, x: int, msg: Seq<char>) -> Seq<Mark> {
    let take = if msg.len() < a.height { msg.len() as int } else { a.height as int };
    let y0 = a.t() + (a.height - take) / 2;
    Seq::new(
        take as nat,
        |i: int|
            Mark::Fill {
                x0: x as u16,
                x1: (x + 1) as u16,
                y0: (y0 + i) as u16,
                y1: (y0 + i + 1) as u16,
                symbol: seq![msg[i]],
                tone: Tone::White,
            },
    )
}

/// Plan `msg` as a vertical title in column `x` of `area`.
pub fn write_centered_column(area: Area, x: u16, msg: &str, plan: &mut Vec<Stroke>)
    requires
        area.fits(),
        x < u16::MAX,
    ensures
        marks_of(final(plan)@) == marks_of(old(plan)@) + column_marks(area, x as int, msg@),
{
    let ghost m0 = marks_of(plan@);
    let len = msg.unicode_len();
    let max_len = area.height as usize;
    let take = if len < max_len { len } else { max_len };
    let y0 = area.top() + ((area.height as usize - take) / 2) as u16;
    let mut i: usize = 0;
    while i < take
        invariant
            area.fits(),
            x < u16::MAX,
            take <= msg@.len(),
            take <= area.height,
            take == (if msg@.len() < area.height { msg@.len() as int } else { area.height as int }),
            y0 == area.t() + (area.height - take) / 2,
            i <= take,
            marks_of(plan@) == m0 + column_marks(area, x as int, msg@).take(i as int),
        decreases take - i,
    {
        let y = y0 + i as u16;
        let ch = msg.substring_char(i, i + 1);
        assert(ch@ =~= seq![msg@[i as int]]);
        push_stroke(plan, crate::marks::box_stroke(x, x + 1, y, y + 1, ch, Tone::White, false));
        let ghost col = column_marks(area, x as int, msg@);
        assert(col.take(i + 1) =~= col.take(i as int).push(col[i as int]));
        i = i + 1;
    }
    assert(column_marks(area, x as int, msg@).take(take as int) =~= column_marks(area, x as int, msg@));
}

/// The Y-Axis title in the leftmost column and the 2Y-Axis title in the
/// rightmost column of `a`, when either is set and `a` is at least four
/// cells wide; and the area between them.
pub open spec fn axis_columns(a: Area, left: Option<Seq<char>>, right: Option<Seq<char>>) -> (
    Seq<Mark>,
    Area,
) {
    if (left is None && right is None) || a.width < 4 {
        (seq![], a)
    } else {
        let ml = match left {
            Some(t) => column_marks(a, a.l(), t),
            None => seq![],
        };
        let mr = match right {
            Some(t) => column_marks(a, a.r() - 1, t),
            None => seq![],
        };
        let dl: int = if left is Some { 1 } else { 0 };
        let dr: int = if right is Some { 1 } else { 0 };
        (ml + mr, Area { x: (a.x + dl) as u16, y: a.y, width: (a.width - dl - dr) as u16, height: a.height })
    }
}

/// Plan the Y-Axis and 2Y-Axis titles as one-column vertical text and
/// return the area between them.
pub fn reserve_axis_title_columns(area: Area, titles: &crate::model::Titles, plan: &mut Vec<Stroke>) -> (r: Area)
    requires
        area.fits(),
    ensures
        marks_of(final(plan)@) == marks_of(old(plan)@) + axis_columns(
            area,
            text_of(titles.y_axis),
            text_of(titles.two_y_axis),
        ).0,
        r == axis_columns(area, text_of(titles.y_axis), text_of(titles.two_y_axis)).1,
{
    let ghost m0 = marks_of(plan@);
    let ghost spec = axis_columns(area, text_of(titles.y_axis), text_of(titles.two_y_axis));
    if titles.y_axis.is_none() && titles.two_y_axis.is_none() {
        assert(spec.0 =~= seq![]);
        return area;
    }
    if area.width < 4 {
        assert(spec.0 =~= seq![]);
        return area;
    }
    let mut x = area.left();
    let mut width = area.width;
    if let Some(text) = &titles.y_axis {
        write_centered_column(area, area.left(), text.as_str(), plan);
        x = x + 1;
        width = width - 1;
    }
    let ghost m1 = marks_of(plan@);
    if let Some(text) = &titles.two_y_axis {
        let col = area.right() - 1;
        write_centered_column(area, col, text.as_str(), plan);
        width = width - 1;
    }
    assert(marks_of(plan@) =~= m0 + spec.0);
    Area::new(x, area.y, width, area.height)
}

/// Appending marks that fit keeps the whole list fitting.
pub proof fn lemma_fit_concat(m1: Seq<Mark>, m2: Seq<Mark>, a: Area)
    requires
        marks_fit(m1, a),
        marks_fit(m2, a),
    ensures
        marks_fit(m1 + m2, a),
{
    assert forall|k: int| 0 <= k < (m1 + m2).len() implies mark_fits(#[trigger] (m1 + m2)[k], a) by {
        if k < m1.len() {
            assert((m1 + m2)[k] == m1[k]);
        } else {
            assert((m1 + m2)[k] == m2[k - m1.len()]);
        }
    }
}

/// Marks that fit an area fit any area around it.
pub proof fn lemma_fit_widen(m: Seq<Mark>, a: Area, b: Area)
    requires
        marks_fit(m, a),
        a.within(b),
        a.fits(),
    ensures
        marks_fit(m, b),
{
    assert forall|k: int| 0 <= k < m.len() implies mark_fits(#[trigger] m[k], b) by {
        assert(mark_fits(m[k], a));
    }
}

/// Marks that stay off an area stay off any area inside it.
pub proof fn lemma_clear_concat(m1: Seq<Mark>, m2: Seq<Mark>, r: Area)
    requires
        marks_clear_of(m1, r),
        marks_clear_of(m2, r),
    ensures
        marks_clear_of(m1 + m2, r),
{
    assert forall|k: int| 0 <= k < (m1 + m2).len() implies mark_clear_of(#[trigger] (m1 + m2)[k], r) by {
        if k < m1.len() {
            assert((m1 + m2)[k] == m1[k]);
        } else {
            assert((m1 + m2)[k] == m2[k - m1.len()]);
        }
    }
}

/// The title rows lie inside `a` and off the rectangle they leave, which
/// is the part of `a` between them.
pub proof fn lemma_title_rows(a: Area, f: Option<Seq<char>>, s: Option<Seq<char>>, x: Option<Seq<char>>)
    requires
        a.fits(),
    ensures
        marks_fit(title_rows(a, f, s, x).0, a),
        marks_clear_of(title_rows(a, f, s, x).0, title_rows(a, f, s, x).1),
        title_rows(a, f, s, x).1.within(a),
        title_rows(a, f, s, x).1.fits(),
        title_rows(a, f, s, x).1.x == a.x,
        title_rows(a, f, s, x).1.width == a.width,
{
    let r = title_rows(a, f, s, x);
    assert forall|k: int| 0 <= k < r.0.len() implies mark_fits(#[trigger] r.0[k], a) && mark_clear_of(r.0[k], r.1) by {
    }
}

/// The note row lies inside `a` and below what it leaves.
pub proof fn lemma_note_row(a: Area, n: Option<Seq<char>>, o: Option<Seq<char>>)
    requires
        a.fits(),
        a.width >= 2,
    ensures
        marks_fit(note_row(a, n, o).0, a),
        marks_clear_of(note_row(a, n, o).0, note_row(a, n, o).1),
        note_row(a, n, o).1.within(a),
        note_row(a, n, o).1.fits(),
        note_row(a, n, o).1.x == a.x,
        note_row(a, n, o).1.width == a.width,
{
    let r = note_row(a, n, o);
    assert forall|k: int| 0 <= k < r.0.len() implies mark_fits(#[trigger] r.0[k], a) && mark_clear_of(r.0[k], r.1) by {
    }
}

/// The legend row lies inside `a` and below what it leaves.
pub proof fn lemma_legend_row(a: Area, l: Seq<Option<Seq<char>>>)
    requires
        a.fits(),
        a.width >= 2,
    ensures
        marks_fit(legend_row(a, l).0, a),
        marks_clear_of(legend_row(a, l).0, legend_row(a, l).1),
        legend_row(a, l).1.within(a),
        legend_row(a, l).1.fits(),
        legend_row(a, l).1.x == a.x,
        legend_row(a, l).1.width == a.width,
{
    let r = legend_row(a, l);
    assert forall|k: int| 0 <= k < r.0.len() implies mark_fits(#[trigger] r.0[k], a) && mark_clear_of(r.0[k], r.1) by {
    }
}

proof fn lemma_table_rows_upto(a: Area, top: int, t: Seq<Option<Seq<Seq<char>>>>, k: int)
    requires
        a.fits(),
        a.width >= 16,
        a.t() <= top,
        top + k <= a.b(),
        0 <= k <= set_slots(t).len(),
        forall|j: int| 0 <= j < set_slots(t).len() ==> 0 <= #[trigger] set_slots(t)[j] < 6 && t[set_slots(t)[j]] is Some,
    ensures
        marks_fit(table_rows_upto(a, top, t, k), a),
        forall|j: int|
            0 <= j < table_rows_upto(a, top, t, k).len() ==> match #[trigger] table_rows_upto(a, top, t, k)[j] {
                Mark::Text { y, .. } => top <= y < top + k,
                _ => false,
            },
    decreases k,
{
    if k > 0 {
        lemma_table_rows_upto(a, top, t, k - 1);
        let slot = set_slots(t)[k - 1];
        let row = table_row(a, top + k - 1, slot, t[slot].unwrap());
        let prev = table_rows_upto(a, top, t, k - 1);
        assert forall|j: int| 0 <= j < row.len() implies mark_fits(#[trigger] row[j], a) && match row[j] {
            Mark::Text { y, .. } => top <= y < top + k,
            _ => false,
        } by {
            if j >= 1 {
                lemma_table_columns(a.width as int, j - 1);
            }
        }
        lemma_fit_concat(prev, row, a);
        assert forall|j: int| 0 <= j < (prev + row).len() implies match #[trigger] (prev + row)[j] {
            Mark::Text { y, .. } => top <= y < top + k,
            _ => false,
        } by {
            if j < prev.len() {
                assert((prev + row)[j] == prev[j]);
            } else {
                assert((prev + row)[j] == row[j - prev.len()]);
            }
        }
    }
}

/// The value table lies inside `a` and below what it leaves.
pub proof fn lemma_table_rows(a: Area, t: Seq<Option<Seq<Seq<char>>>>)
    requires
        a.fits(),
        t.len() == 6,
    ensures
        marks_fit(table_rows(a, t).0, a),
        marks_clear_of(table_rows(a, t).0, table_rows(a, t).1),
        table_rows(a, t).1.within(a),
        table_rows(a, t).1.fits(),
        table_rows(a, t).1.x == a.x,
        table_rows(a, t).1.width == a.width,
{
    let rows = set_slots(t).len() as int;
    lemma_set_slots(t, 6);
    assert(t.take(6) =~= t);
    if !(rows == 0 || rows + 3 >= a.height || a.width < 16) {
        lemma_table_rows_upto(a, a.b() - rows, t, rows);
        let r = table_rows(a, t);
        assert forall|k: int| 0 <= k < r.0.len() implies mark_clear_of(#[trigger] r.0[k], r.1) by {
            let m = r.0[k];
            assert(match m {
                Mark::Text { y, .. } => a.b() - rows <= y < a.b(),
                _ => false,
            });
        }
    }
}

/// The axis-title columns lie inside `a` and beside what they leave.
pub proof fn lemma_axis_columns(a: Area, l: Option<Seq<char>>, r: Option<Seq<char>>)
    requires
        a.fits(),
    ensures
        marks_fit(axis_columns(a, l, r).0, a),
        marks_clear_of(axis_columns(a, l, r).0, axis_columns(a, l, r).1),
        axis_columns(a, l, r).1.within(a),
        axis_columns(a, l, r).1.fits(),
        axis_columns(a, l, r).1.y == a.y,
        axis_columns(a, l, r).1.height == a.height,
        axis_columns(a, l, r).1.width + 2 >= a.width,
{
    let res = axis_columns(a, l, r);
    if !((l is None && r is None) || a.width < 4) {
        let ml = match l {
            Some(t) => column_marks(a, a.l(), t),
            None => seq![],
        };
        let mr = match r {
            Some(t) => column_marks(a, a.r() - 1, t),
            None => seq![],
        };
        assert forall|k: int| 0 <= k < ml.len() implies mark_fits(#[trigger] ml[k], a) && mark_clear_of(ml[k], res.1) by {}
        assert forall|k: int| 0 <= k < mr.len() implies mark_fits(#[trigger] mr[k], a) && mark_clear_of(mr[k], res.1) by {}
        lemma_fit_concat(ml, mr, a);
        lemma_clear_concat(ml, mr, res.1);
    }
}

/// `msg` centred in `a`, on its middle row, in the default style, cut to
/// `a`'s width.
pub open spec fn centered(a: Area, msg: Seq<char>) -> Mark {
    let shown = if msg.len() > a.width { msg.take(a.width as int) } else { msg };
    Mark::Text {
        x: (a.x + (a.width - shown.len()) / 2) as u16,
        y: (a.y + a.height / 2) as u16,
        text: shown,
        paint: Paint { fg: None, bg: None },
    }
}

/// Plan `msg` centred in `area`.
pub fn write_centered(area: Area, msg: &str, plan: &mut Vec<Stroke>)
    requires
        area.fits(),
    ensures
        marks_of(final(plan)@) == marks_of(old(plan)@).push(centered(area, msg@)),
{
    let y = area.top() + area.height / 2;
    let shown = take_chars(msg, area.width as usize);
    let x0 = area.left() + (area.width - shown.unicode_len() as u16) / 2;
    push_stroke(plan, text_stroke(x0, y, shown, Paint { fg: None, bg: None }));
}

pub proof fn lemma_centered(a: Area, msg: Seq<char>)
    requires
        a.fits(),
        a.height > 0,
    ensures
        mark_fits(centered(a, msg), a),
{
}

} // verus!
