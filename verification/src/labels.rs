//! Data labels: the text of a series' label cells painted beside its
//! points or bars.

use vstd::prelude::*;
use crate::area::Area;
use crate::canvas::Tone;
use crate::chrome::{fg, fg_paint};
use crate::marks::{marks_of, push_stroke, text_stroke, Mark, Stroke};
use crate::model::DataLabelPlacement;

verus! {

/// The label of point `i` of series slot `slot`: its label cell's text,
/// when the slot's labels are bound and that text is not empty.
pub open spec fn label_at(labels: Seq<Option<Vec<String>>>, slot: int, i: int) -> Option<Seq<char>> {
    match labels[slot] {
        Some(v) => if 0 <= i < v@.len() && v@[i]@.len() > 0 {
            Some(v@[i]@)
        } else {
            None
        },
        None => None,
    }
}

/// Where a label of `len` characters anchored at `(ax, ay)` starts, before
/// it is clipped to the area, or `None` when the placement leaves it no row:
/// Above and Below one row off the anchor (none above the area's first row
/// or below its last), Center on it, all three centred on the anchor
/// column; Left ending one cell before the anchor, and moved to the area's
/// left edge when it would lie wholly left of the area; Right starting one
/// cell after the anchor.
pub open spec fn label_origin(len: int, ax: int, ay: int, p: DataLabelPlacement, a: Area) -> Option<(int, int)> {
    let half = len / 2;
    match p {
        DataLabelPlacement::Above => if ay <= a.t() { None } else { Some((ax - half, ay - 1)) },
        DataLabelPlacement::Below => if ay + 1 >= a.b() { None } else { Some((ax - half, ay + 1)) },
        DataLabelPlacement::Center => Some((ax - half, ay)),
        DataLabelPlacement::Left => if ax - 1 <= a.l() { Some((a.l(), ay)) } else { Some((ax - len - 1, ay)) },
        DataLabelPlacement::Right => Some((ax + 1, ay)),
    }
}

/// The stroke that paints `text` as a data label anchored at `(ax, ay)`: at
/// the placement's origin, on a row of `a`, with what would fall left or
/// right of `a` cut off; none when nothing is left.
pub open spec fn label_marks(text: Seq<char>, ax: int, ay: int, p: DataLabelPlacement, a: Area) -> Seq<Mark> {
    match label_origin(text.len() as int, ax, ay, p, a) {
        None => seq![],
        Some((lx, ly)) => {
            let start = if lx > a.l() { lx } else { a.l() };
            let end = if lx + text.len() < a.r() { lx + text.len() } else { a.r() };
            if ly < a.t() || ly >= a.b() || end <= start {
                seq![]
            } else {
                seq![
                    Mark::Text {
                        x: start as u16,
                        y: ly as u16,
                        text: text.subrange(start - lx, end - lx),
                        paint: fg_paint(Tone::White),
                    },
                ]
            }
        },
    }
}

/// Plan a data-label string near `(anchor_x, anchor_y)` according to
/// `placement`, clipped to `area`.
pub fn paint_data_label(
    text: &str,
    anchor_x: u16,
    anchor_y: u16,
    placement: DataLabelPlacement,
    area: Area,
    plan: &mut Vec<Stroke>,
)
    requires
        area.fits(),
    ensures
        marks_of(final(plan)@) == marks_of(old(plan)@) + label_marks(
            text@,
            anchor_x as int,
            anchor_y as int,
            placement,
            area,
        ),
{
    let ghost m0 = marks_of(plan@);
    let len = text.unicode_len();
    let n = len as i128;
    let ax = anchor_x as i128;
    let ay = anchor_y as i128;
    let l = area.left() as i128;
    let r = area.right() as i128;
    let t = area.top() as i128;
    let b = area.bottom() as i128;
    let (lx, ly): (i128, i128) = match placement {
        DataLabelPlacement::Above => {
            if ay <= t {
                assert(marks_of(plan@) =~= m0 + seq![]);
                return;
            }
            (ax - n / 2, ay - 1)
        },
        DataLabelPlacement::Below => {
            if ay + 1 >= b {
                assert(marks_of(plan@) =~= m0 + seq![]);
                return;
            }
            (ax - n / 2, ay + 1)
        },
        DataLabelPlacement::Center => (ax - n / 2, ay),
        DataLabelPlacement::Left => {
            if ax - 1 <= l {
                (l, ay)
            } else {
                (ax - n - 1, ay)
            }
        },
        DataLabelPlacement::Right => (ax + 1, ay),
    };
    let start = if lx > l { lx } else { l };
    let end = if lx + n < r { lx + n } else { r };
    if ly < t || ly >= b || end <= start {
        assert(marks_of(plan@) =~= m0 + seq![]);
        return;
    }
    let shown = text.substring_char((start - lx) as usize, (end - lx) as usize);
    push_stroke(plan, text_stroke(start as u16, ly as u16, shown, fg(Tone::White)));
}

} // verus!
