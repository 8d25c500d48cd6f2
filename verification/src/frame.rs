//! The plot frame and the dotted grid lines inside it.

use vstd::prelude::*;
use crate::area::{sat_sub, Area};
use crate::canvas::Tone;
use crate::glyphs::{corner_glyph, corner_kind, CornerKind};
use crate::marks::{box_stroke, mark_clear_of, mark_fits, marks_clear_of, marks_fit, marks_of, push_stroke, Mark, Stroke};
use crate::model::{FrameMask, GridMask};

verus! {

/// `Area::new` in spec form: width and height clamped to the last column
/// and row.
pub open spec fn clamped(x: int, y: int, w: int, h: int) -> Area {
    Area {
        x: x as u16,
        y: y as u16,
        width: (if w > u16::MAX - x { u16::MAX - x } else { w }) as u16,
        height: (if h > u16::MAX - y { u16::MAX - y } else { h }) as u16,
    }
}

/// A one-glyph box stroke in white.
pub open spec fn white_box(x0: int, x1: int, y0: int, y1: int, s: Seq<char>) -> Mark {
    Mark::Fill { x0: x0 as u16, x1: x1 as u16, y0: y0 as u16, y1: y1 as u16, symbol: s, tone: Tone::White }
}

/// The symbol a corner shows: the corner glyph when both edges are on,
/// else the edge that is on, else nothing.
pub open spec fn corner_symbol(h: bool, v: bool, corner: Seq<char>) -> Seq<char> {
    match corner_kind(h, v) {
        CornerKind::Corner => corner,
        CornerKind::Horizontal => "─"@,
        CornerKind::Vertical => "│"@,
        CornerKind::Blank => Seq::<char>::empty(),
    }
}

pub open spec fn when(c: bool, m: Mark) -> Seq<Mark> {
    if c { seq![m] } else { seq![] }
}

/// The four edges of the frame around `a`, each without its corner cells.
pub open spec fn edge_marks(f: FrameMask, a: Area) -> Seq<Mark> {
    let lx = a.l();
    let rx = sat_sub(a.r(), 1);
    let ty = a.t();
    let by = sat_sub(a.b(), 1);
    when(f.top && a.height >= 1, white_box(lx + 1, rx, ty, ty + 1, "─"@))
    + when(f.bottom && a.height >= 2, white_box(lx + 1, rx, by, by + 1, "─"@))
    + when(f.left && a.width >= 1, white_box(lx, lx + 1, ty + 1, by, "│"@))
    + when(f.right && a.width >= 2, white_box(rx, rx + 1, ty + 1, by, "│"@))
}

/// The four corners of the frame around `a`.
pub open spec fn corner_marks(f: FrameMask, a: Area) -> Seq<Mark> {
    let lx = a.l();
    let rx = sat_sub(a.r(), 1);
    let ty = a.t();
    let by = sat_sub(a.b(), 1);
    when(a.width >= 1 && a.height >= 1 && corner_kind(f.top, f.left) != CornerKind::Blank,
        white_box(lx, lx + 1, ty, ty + 1, corner_symbol(f.top, f.left, "┌"@)))
    + when(a.width >= 2 && a.height >= 1 && corner_kind(f.top, f.right) != CornerKind::Blank,
        white_box(rx, rx + 1, ty, ty + 1, corner_symbol(f.top, f.right, "┐"@)))
    + when(a.width >= 1 && a.height >= 2 && corner_kind(f.bottom, f.left) != CornerKind::Blank,
        white_box(lx, lx + 1, by, by + 1, corner_symbol(f.bottom, f.left, "└"@)))
    + when(a.width >= 2 && a.height >= 2 && corner_kind(f.bottom, f.right) != CornerKind::Blank,
        white_box(rx, rx + 1, by, by + 1, corner_symbol(f.bottom, f.right, "┘"@)))
}

/// The inner Y-axis line just inside the left edge.
pub open spec fn y_axis_marks(f: FrameMask, a: Area) -> Seq<Mark> {
    let il: int = if f.left { 1 } else { 0 };
    when(f.y_axis && a.width > il, white_box(a.l() + il, a.l() + il + 1, a.t() + 1, sat_sub(a.b(), 1), "│"@))
}

/// The strokes of the frame around `a`: the four edges, the four corners,
/// then the inner Y-axis line.
pub open spec fn frame_marks(f: FrameMask, a: Area) -> Seq<Mark> {
    edge_marks(f, a) + corner_marks(f, a) + y_axis_marks(f, a)
}

/// The rectangle inside the frame: one row or column less for each edge
/// that is on, and one more column for the inner Y-axis line.
pub open spec fn frame_inner(f: FrameMask, a: Area) -> Area {
    let it: int = if f.top { 1 } else { 0 };
    let ib: int = if f.bottom { 1 } else { 0 };
    let il: int = (if f.left { 1int } else { 0int }) + (if f.y_axis { 1int } else { 0int });
    let ir: int = if f.right { 1 } else { 0 };
    clamped(a.x + il, a.y + it, sat_sub(a.width as int, il + ir), sat_sub(a.height as int, it + ib))
}

/// The frame's columns and rows stay representable: the column after the
/// left edge where a horizontal edge is drawn, the row after the top edge
/// where a vertical line is drawn, and the inner rectangle's corner.
pub open spec fn frame_fits(f: FrameMask, a: Area) -> bool {
    let il: int = if f.left { 1 } else { 0 };
    let ia: int = if f.y_axis { 1 } else { 0 };
    let it: int = if f.top { 1 } else { 0 };
    &&& (f.top && a.height >= 1) || (f.bottom && a.height >= 2) ==> a.x < u16::MAX
    &&& (f.left && a.width >= 1) || (f.right && a.width >= 2) || (f.y_axis && a.width > il) ==> a.y < u16::MAX
    &&& a.x + il + ia <= u16::MAX
    &&& a.y + it <= u16::MAX
}

fn corner(
    plan: &mut Vec<Stroke>,
    x: u16,
    y: u16,
    h: bool,
    v: bool,
    glyph: &'static str,
)
    requires
        x < u16::MAX,
        y < u16::MAX,
        glyph@.len() > 0,
    ensures
        marks_of(final(plan)@) == marks_of(old(plan)@) + when(
            corner_kind(h, v) != CornerKind::Blank,
            white_box(x as int, x + 1, y as int, y + 1, corner_symbol(h, v, glyph@)),
        ),
{
    proof {
        reveal_strlit("─");
        reveal_strlit("│");
    }
    let g = corner_glyph(h, v, glyph, "─", "│");
    if g.unicode_len() > 0 {
        push_stroke(plan, box_stroke(x, x + 1, y, y + 1, g, Tone::White, false));
    } else {
        assert(marks_of(plan@) =~= marks_of(plan@) + seq![]);
    }
}

fn plan_edges(frame: &FrameMask, area: Area, plan: &mut Vec<Stroke>)
    requires
        area.fits(),
        frame_fits(*frame, area),
    ensures
        marks_of(final(plan)@) == marks_of(old(plan)@) + edge_marks(*frame, area),
{
    let ghost m0 = marks_of(plan@);
    let left_x = area.left();
    let right_x = area.right().saturating_sub(1);
    let top_y = area.top();
    let bottom_y = area.bottom().saturating_sub(1);
    proof {
        reveal_strlit("─");
        reveal_strlit("│");
    }
    if frame.top && area.height >= 1 {
        push_stroke(plan, box_stroke(left_x + 1, right_x, top_y, top_y + 1, "─", Tone::White, false));
    }
    let ghost m1 = marks_of(plan@);
    if frame.bottom && area.height >= 2 {
        push_stroke(plan, box_stroke(left_x + 1, right_x, bottom_y, bottom_y + 1, "─", Tone::White, false));
    }
    let ghost m2 = marks_of(plan@);
    if frame.left && area.width >= 1 {
        push_stroke(plan, box_stroke(left_x, left_x + 1, top_y + 1, bottom_y, "│", Tone::White, false));
    }
    let ghost m3 = marks_of(plan@);
    if frame.right && area.width >= 2 {
        push_stroke(plan, box_stroke(right_x, right_x + 1, top_y + 1, bottom_y, "│", Tone::White, false));
    }
    assert(marks_of(plan@) =~= m0 + edge_marks(*frame, area));
}

fn plan_corners(frame: &FrameMask, area: Area, plan: &mut Vec<Stroke>)
    requires
        area.fits(),
        frame_fits(*frame, area),
    ensures
        marks_of(final(plan)@) == marks_of(old(plan)@) + corner_marks(*frame, area),
{
    let ghost m0 = marks_of(plan@);
    let left_x = area.left();
    let right_x = area.right().saturating_sub(1);
    let top_y = area.top();
    let bottom_y = area.bottom().saturating_sub(1);
    proof {
        reveal_strlit("┌");
        reveal_strlit("┐");
        reveal_strlit("└");
        reveal_strlit("┘");
    }
    if area.width >= 1 && area.height >= 1 {
        corner(plan, left_x, top_y, frame.top, frame.left, "┌");
    }
    let ghost m1 = marks_of(plan@);
    if area.width >= 2 && area.height >= 1 {
        corner(plan, right_x, top_y, frame.top, frame.right, "┐");
    }
    let ghost m2 = marks_of(plan@);
    if area.width >= 1 && area.height >= 2 {
        corner(plan, left_x, bottom_y, frame.bottom, frame.left, "└");
    }
    let ghost m3 = marks_of(plan@);
    if area.width >= 2 && area.height >= 2 {
        corner(plan, right_x, bottom_y, frame.bottom, frame.right, "┘");
    }
    assert(marks_of(plan@) =~= m0 + corner_marks(*frame, area));
}

/// Plan the frame edges per `frame` and return the inner rectangle that
/// the data may fill. Corner glyphs (`┌┐└┘`) appear only where both
/// adjacent edges are on; otherwise the corner cell continues whichever
/// edge is on, or stays blank.
pub fn render_frame(frame: &FrameMask, area: Area, plan: &mut Vec<Stroke>) -> (inner: Area)
    requires
        area.fits(),
        frame_fits(*frame, area),
    ensures
        marks_of(final(plan)@) == marks_of(old(plan)@) + frame_marks(*frame, area),
        inner == frame_inner(*frame, area),
{
    let ghost m0 = marks_of(plan@);
    plan_edges(frame, area, plan);
    plan_corners(frame, area, plan);
    let ghost m2 = marks_of(plan@);
    proof {
        reveal_strlit("│");
    }
    let inset_left_outer: u16 = if frame.left { 1 } else { 0 };
    if frame.y_axis && area.width > inset_left_outer {
        let yax_x = area.left() + inset_left_outer;
        push_stroke(
            plan,
            box_stroke(yax_x, yax_x + 1, area.top() + 1, area.bottom().saturating_sub(1), "│", Tone::White, false),
        );
    }
    assert(marks_of(plan@) =~= m2 + y_axis_marks(*frame, area));
    proof {
        lemma_frame_marks_split(marks_of(plan@), m0, m2, *frame, area);
    }
    inner_of(frame, area)
}

proof fn lemma_frame_marks_split(all: Seq<Mark>, m0: Seq<Mark>, m2: Seq<Mark>, f: FrameMask, a: Area)
    requires
        m2 == m0 + edge_marks(f, a) + corner_marks(f, a),
        all == m2 + y_axis_marks(f, a),
    ensures
        all == m0 + frame_marks(f, a),
{
    assert(all =~= m0 + frame_marks(f, a));
}

fn inner_of(frame: &FrameMask, area: Area) -> (inner: Area)
    requires
        area.fits(),
        frame_fits(*frame, area),
    ensures
        inner == frame_inner(*frame, area),
{
    let inset_top: u16 = if frame.top { 1 } else { 0 };
    let inset_bottom: u16 = if frame.bottom { 1 } else { 0 };
    let inset_left_outer: u16 = if frame.left { 1 } else { 0 };
    let inset_right: u16 = if frame.right { 1 } else { 0 };
    let inset_left = inset_left_outer + if frame.y_axis { 1 } else { 0 };
    Area::new(
        area.x + inset_left,
        area.y + inset_top,
        area.width.saturating_sub(inset_left + inset_right),
        area.height.saturating_sub(inset_top + inset_bottom),
    )
}

/// A horizontal dotted grid row `n` quarters down `a` (its last row kept
/// for the baseline), when it falls above that last row.
pub open spec fn grid_row(a: Area, n: int) -> Seq<Mark> {
    let ih = sat_sub(a.height as int, 1);
    let y = a.t() + ih * n / 4;
    when(y < sat_sub(a.b(), 1), Mark::Fill {
        x0: a.x,
        x1: a.r() as u16,
        y0: y as u16,
        y1: (y + 1) as u16,
        symbol: "┄"@,
        tone: Tone::DarkGray,
    })
}

/// A vertical dotted grid column `n` quarters across `a`, painted only on
/// blank cells above the last row.
pub open spec fn grid_column(a: Area, n: int) -> Seq<Mark> {
    let x = a.l() + a.width * n / 4;
    when(x < a.r(), Mark::Patch {
        x0: x as u16,
        x1: (x + 1) as u16,
        y0: a.y,
        y1: sat_sub(a.b(), 1) as u16,
        symbol: "┊"@,
        tone: Tone::DarkGray,
    })
}

/// The grid strokes: three evenly spaced horizontal rows (`┄`) when the
/// area has at least four rows above its last, then three evenly spaced
/// vertical columns (`┊`) over blank cells when it is at least four wide.
pub open spec fn grid_marks(g: GridMask, a: Area) -> Seq<Mark> {
    if !g.horizontal && !g.vertical {
        seq![]
    } else {
        (if g.horizontal && sat_sub(a.height as int, 1) >= 4 {
            grid_row(a, 1) + grid_row(a, 2) + grid_row(a, 3)
        } else {
            seq![]
        }) + (if g.vertical && a.width >= 4 {
            grid_column(a, 1) + grid_column(a, 2) + grid_column(a, 3)
        } else {
            seq![]
        })
    }
}

/// Plan light dotted grid lines in `area`, three evenly spaced in each
/// direction, leaving the last row to the baseline; vertical lines do not
/// cross cells already drawn on.
pub fn render_grid_lines(grid: &GridMask, area: Area, plan: &mut Vec<Stroke>)
    requires
        area.fits(),
    ensures
        marks_of(final(plan)@) == marks_of(old(plan)@) + grid_marks(*grid, area),
{
    let ghost m0 = marks_of(plan@);
    if !grid.horizontal && !grid.vertical {
        assert(grid_marks(*grid, area) =~= seq![]);
        return;
    }
    proof {
        reveal_strlit("┄");
        reveal_strlit("┊");
    }
    let inner_height = area.height.saturating_sub(1);
    if grid.horizontal && inner_height >= 4 {
        let mut n: u32 = 1;
        while n <= 3
            invariant
                1 <= n <= 4,
                area.fits(),
                inner_height == sat_sub(area.height as int, 1),
                marks_of(plan@) == m0 + (if n >= 2 { grid_row(area, 1) } else { seq![] }) + (if n
                    >= 3 { grid_row(area, 2) } else { seq![] }) + (if n >= 4 { grid_row(area, 3) } else { seq![] }),
            decreases 4 - n,
        {
            assert(inner_height as u32 * n <= inner_height as u32 * 3) by (nonlinear_arith)
                requires n <= 3;
            assert(inner_height as u32 * n / 4 <= inner_height) by (nonlinear_arith)
                requires n <= 3;
            let y = area.top() + (inner_height as u32 * n / 4) as u16;
            if y < area.bottom().saturating_sub(1) {
                push_stroke(plan, box_stroke(area.left(), area.right(), y, y + 1, "┄", Tone::DarkGray, false));
            }
            assert(marks_of(plan@) =~= m0 + (if n + 1 >= 2 { grid_row(area, 1) } else { seq![] }) + (
            if n + 1 >= 3 { grid_row(area, 2) } else { seq![] }) + (if n + 1 >= 4 {
                grid_row(area, 3)
            } else {
                seq![]
            }));
            n = n + 1;
        }
    }
    let ghost m1 = marks_of(plan@);
    assert(m1 =~= m0 + (if grid.horizontal && sat_sub(area.height as int, 1) >= 4 {
        grid_row(area, 1) + grid_row(area, 2) + grid_row(area, 3)
    } else {
        seq![]
    }));
    if grid.vertical && area.width >= 4 {
        let mut n: u32 = 1;
        while n <= 3
            invariant
                1 <= n <= 4,
                area.fits(),
                area.width >= 4,
                marks_of(plan@) == m1 + (if n >= 2 { grid_column(area, 1) } else { seq![] }) + (if n
                    >= 3 { grid_column(area, 2) } else { seq![] }) + (if n >= 4 { grid_column(area, 3) } else { seq![] }),
            decreases 4 - n,
        {
            assert(area.width as u32 * n / 4 <= area.width) by (nonlinear_arith)
                requires n <= 3;
            let x = area.left() + (area.width as u32 * n / 4) as u16;
            if x < area.right() {
                push_stroke(plan, box_stroke(x, x + 1, area.top(), area.bottom().saturating_sub(1), "┊", Tone::DarkGray, true));
            }
            assert(marks_of(plan@) =~= m1 + (if n + 1 >= 2 { grid_column(area, 1) } else { seq![] }) + (
            if n + 1 >= 3 { grid_column(area, 2) } else { seq![] }) + (if n + 1 >= 4 {
                grid_column(area, 3)
            } else {
                seq![]
            }));
            n = n + 1;
        }
    }
    assert(marks_of(plan@) =~= m0 + grid_marks(*grid, area));
}

proof fn lemma_edges(f: FrameMask, a: Area)
    requires
        a.fits(),
        a.x + 2 <= u16::MAX,
        a.y < u16::MAX,
    ensures
        marks_fit(edge_marks(f, a), a),
        marks_clear_of(edge_marks(f, a), frame_inner(f, a)),
{
    let m = edge_marks(f, a);
    let inner = frame_inner(f, a);
    assert forall|k: int| 0 <= k < m.len() implies mark_fits(#[trigger] m[k], a) && mark_clear_of(m[k], inner) by {}
}

#[verifier::rlimit(40)]
proof fn lemma_corners(f: FrameMask, a: Area)
    requires
        a.fits(),
        a.x + 2 <= u16::MAX,
        a.y < u16::MAX,
    ensures
        marks_fit(corner_marks(f, a), a),
        marks_clear_of(corner_marks(f, a), frame_inner(f, a)),
{
    let m = corner_marks(f, a);
    let inner = frame_inner(f, a);
    assert forall|k: int| 0 <= k < m.len() implies mark_fits(#[trigger] m[k], a) && mark_clear_of(m[k], inner) by {}
}

proof fn lemma_y_axis(f: FrameMask, a: Area)
    requires
        a.fits(),
        a.x + 2 <= u16::MAX,
        a.y < u16::MAX,
    ensures
        marks_fit(y_axis_marks(f, a), a),
        marks_clear_of(y_axis_marks(f, a), frame_inner(f, a)),
{
    let m = y_axis_marks(f, a);
    let inner = frame_inner(f, a);
    assert forall|k: int| 0 <= k < m.len() implies mark_fits(#[trigger] m[k], a) && mark_clear_of(m[k], inner) by {}
}

/// The frame strokes lie inside `a` and off the inner rectangle, which lies
/// inside `a` unless it is empty.
pub proof fn lemma_frame(f: FrameMask, a: Area)
    requires
        a.fits(),
        a.x + 2 <= u16::MAX,
        a.y < u16::MAX,
    ensures
        marks_fit(frame_marks(f, a), a),
        marks_clear_of(frame_marks(f, a), frame_inner(f, a)),
        frame_inner(f, a).fits(),
        frame_inner(f, a).width > 0 && frame_inner(f, a).height > 0 ==> frame_inner(f, a).within(a),
{
    lemma_edges(f, a);
    lemma_corners(f, a);
    lemma_y_axis(f, a);
    let inner = frame_inner(f, a);
    crate::chrome::lemma_fit_concat(edge_marks(f, a), corner_marks(f, a), a);
    crate::chrome::lemma_fit_concat(edge_marks(f, a) + corner_marks(f, a), y_axis_marks(f, a), a);
    crate::chrome::lemma_clear_concat(edge_marks(f, a), corner_marks(f, a), inner);
    crate::chrome::lemma_clear_concat(edge_marks(f, a) + corner_marks(f, a), y_axis_marks(f, a), inner);
}

/// The grid strokes lie inside `a`.
pub proof fn lemma_grid(g: GridMask, a: Area)
    requires
        a.fits(),
    ensures
        marks_fit(grid_marks(g, a), a),
{
    let m = grid_marks(g, a);
    assert forall|n: int| 1 <= n <= 3 implies marks_fit(#[trigger] grid_row(a, n), a) by {
        let ih = sat_sub(a.height as int, 1);
        assert(ih * n / 4 <= ih) by (nonlinear_arith)
            requires 1 <= n <= 3, ih >= 0;
        assert(0 <= ih * n / 4) by (nonlinear_arith)
            requires 1 <= n <= 3, ih >= 0;
    }
    assert forall|n: int| 1 <= n <= 3 implies marks_fit(#[trigger] grid_column(a, n), a) by {
        assert(0 <= a.width * n / 4) by (nonlinear_arith)
            requires 1 <= n <= 3;
    }
    assert forall|k: int| 0 <= k < m.len() implies mark_fits(#[trigger] m[k], a) by {
        let h1 = grid_row(a, 1);
        let h2 = grid_row(a, 2);
        let h3 = grid_row(a, 3);
        let v1 = grid_column(a, 1);
        let v2 = grid_column(a, 2);
        let v3 = grid_column(a, 3);
        assert(marks_fit(h1, a) && marks_fit(h2, a) && marks_fit(h3, a));
        assert(marks_fit(v1, a) && marks_fit(v2, a) && marks_fit(v3, a));
        let hs: Seq<Mark> = if g.horizontal && sat_sub(a.height as int, 1) >= 4 { h1 + h2 + h3 } else { seq![] };
        let vs: Seq<Mark> = if g.vertical && a.width >= 4 { v1 + v2 + v3 } else { seq![] };
        crate::chrome::lemma_fit_concat(h1, h2, a);
        crate::chrome::lemma_fit_concat(h1 + h2, h3, a);
        crate::chrome::lemma_fit_concat(v1, v2, a);
        crate::chrome::lemma_fit_concat(v1 + v2, v3, a);
        crate::chrome::lemma_fit_concat(hs, vs, a);
    }
}

} // verus!
