//! The first phase of rendering a graph: clear the area, then either show
//! the placeholder or reserve titles, notes, legend, value table and axis
//! titles, frame the plot and draw its grid, leaving the rectangle that the
//! graph's data may fill.

use vstd::prelude::*;
use ratatui::buffer::Buffer;
use crate::area::Area;
use crate::canvas::{buffer_area, buffer_cells, same_shape};
use crate::chrome::{
    axis_columns, centered, lemma_axis_columns, lemma_centered, lemma_fit_concat, lemma_fit_widen,
    lemma_legend_row, lemma_note_row, lemma_table_rows, lemma_title_rows, legend_row, note_row,
    reserve_axis_title_columns, reserve_legend_row, reserve_note_row, reserve_title_rows,
    reserve_value_table_rows, table_rows, table_texts, texts_of, title_rows, write_centered,
};
use crate::frame::{frame_inner, frame_marks, grid_marks, lemma_frame, lemma_grid, render_frame, render_grid_lines};
use crate::marks::{apply_marks, blanked, canvas_ok, clear, draw, marks_fit, marks_of, Mark, Stroke};
use crate::model::{text_of, GraphDef, GraphValues};

verus! {

/// The message shown when no range is set.
pub open spec fn placeholder() -> Seq<char> {
    "No graph ranges set — /Graph X and /Graph A..F define them."@
}

/// No X range and no series range is set.
pub open spec fn no_ranges<V>(vals: GraphValues<V>) -> bool {
    vals.x is None && forall|i: int| 0 <= i < 6 ==> #[trigger] vals.data@[i] is None
}

/// The decorations up to the axis-title columns, and what they leave.
pub open spec fn decorations(d: GraphDef, table: Seq<Option<Seq<Seq<char>>>>, a: Area) -> (Seq<Mark>, Area) {
    let t = d.options.titles;
    let r1 = title_rows(a, text_of(t.first), text_of(t.second), text_of(t.x_axis));
    let r2 = note_row(r1.1, text_of(t.note), text_of(t.other_note));
    let r3 = legend_row(r2.1, texts_of(d.options.legend@));
    let r4 = if d.features.table { table_rows(r3.1, table) } else { (seq![], r3.1) };
    let r5 = axis_columns(r4.1, text_of(t.y_axis), text_of(t.two_y_axis));
    (r1.0 + r2.0 + r3.0 + r4.0 + r5.0, r5.1)
}

/// What the first phase draws after clearing `a`, and the plot rectangle
/// it leaves for the data when there is room for one: nothing when `a` is
/// under 8 x 4 cells; the placeholder when no range is set; otherwise the
/// decorations, then, when at least three rows remain, the frame, then,
/// when the frame leaves at least two rows, the grid.
pub open spec fn chrome(d: GraphDef, empty: bool, table: Seq<Option<Seq<Seq<char>>>>, a: Area) -> (
    Seq<Mark>,
    Option<Area>,
) {
    if a.width < 8 || a.height < 4 {
        (seq![], None)
    } else if empty {
        (seq![centered(a, placeholder())], None)
    } else {
        let dec = decorations(d, table, a);
        let plot = dec.1;
        if plot.height < 3 {
            (dec.0, None)
        } else {
            let inner = frame_inner(d.features.frame, plot);
            let framed = dec.0 + frame_marks(d.features.frame, plot);
            if inner.height < 2 {
                (framed, None)
            } else {
                (framed + grid_marks(d.options.grid, inner), Some(inner))
            }
        }
    }
}

pub proof fn lemma_decorations(d: GraphDef, table: Seq<Option<Seq<Seq<char>>>>, a: Area)
    requires
        a.fits(),
        a.width >= 8,
        table.len() == 6,
    ensures
        marks_fit(decorations(d, table, a).0, a),
        decorations(d, table, a).1.within(a),
        decorations(d, table, a).1.fits(),
        decorations(d, table, a).1.width + 2 >= a.width,
{
    let t = d.options.titles;
    let r1 = title_rows(a, text_of(t.first), text_of(t.second), text_of(t.x_axis));
    lemma_title_rows(a, text_of(t.first), text_of(t.second), text_of(t.x_axis));
    let r2 = note_row(r1.1, text_of(t.note), text_of(t.other_note));
    lemma_note_row(r1.1, text_of(t.note), text_of(t.other_note));
    let r3 = legend_row(r2.1, texts_of(d.options.legend@));
    lemma_legend_row(r2.1, texts_of(d.options.legend@));
    let r4 = if d.features.table { table_rows(r3.1, table) } else { (seq![], r3.1) };
    if d.features.table {
        lemma_table_rows(r3.1, table);
    }
    assert(marks_fit(r4.0, r3.1));
    let r5 = axis_columns(r4.1, text_of(t.y_axis), text_of(t.two_y_axis));
    lemma_axis_columns(r4.1, text_of(t.y_axis), text_of(t.two_y_axis));
    lemma_fit_widen(r2.0, r1.1, a);
    lemma_fit_widen(r3.0, r2.1, a);
    lemma_fit_widen(r4.0, r3.1, a);
    lemma_fit_widen(r5.0, r4.1, a);
    lemma_fit_concat(r1.0, r2.0, a);
    lemma_fit_concat(r1.0 + r2.0, r3.0, a);
    lemma_fit_concat(r1.0 + r2.0 + r3.0, r4.0, a);
    lemma_fit_concat(r1.0 + r2.0 + r3.0 + r4.0, r5.0, a);
}

/// Clear `area`, then draw the placeholder or the decorations, frame and
/// grid of `def` around the plot, and return the rectangle left for the
/// graph's data, if any. `table` holds, for each set series, the text of
/// each of its values for the value table.
pub fn render_chrome<V>(
    def: &GraphDef,
    vals: &GraphValues<V>,
    table: &[Option<Vec<String>>; 6],
    area: Area,
    buf: &mut Buffer,
) -> (inner: Option<Area>)
    requires
        canvas_ok(*old(buf)),
        area.fits(),
        area.within(buffer_area(*old(buf))),
    ensures
        canvas_ok(*final(buf)),
        same_shape(*old(buf), *final(buf)),
        buffer_cells(*final(buf)) == apply_marks(
            blanked(buffer_cells(*old(buf)), buffer_area(*old(buf)), area),
            buffer_area(*old(buf)),
            chrome(*def, no_ranges(*vals), table_texts(table@), area).0,
        ),
        inner == chrome(*def, no_ranges(*vals), table_texts(table@), area).1,
{
    let ghost b0 = *buf;
    let ghost whole = buffer_area(b0);
    let ghost spec = chrome(*def, no_ranges(*vals), table_texts(table@), area);
    clear(area, buf);
    let mut plan: Vec<Stroke> = Vec::new();
    assert(marks_of(plan@) =~= seq![]);
    if area.width < 8 || area.height < 4 {
        draw(buf, &plan);
        return None;
    }
    if vals.is_empty() {
        write_centered(area, "No graph ranges set — /Graph X and /Graph A..F define them.", &mut plan);
        proof {
            lemma_centered(area, placeholder());
            assert(marks_of(plan@) =~= seq![centered(area, placeholder())]);
            lemma_fit_widen(marks_of(plan@), area, whole);
        }
        draw(buf, &plan);
        return None;
    }
    let titles = &def.options.titles;
    let with_titles = reserve_title_rows(area, titles, &mut plan);
    proof {
        lemma_title_rows(area, text_of(titles.first), text_of(titles.second), text_of(titles.x_axis));
    }
    let with_notes = reserve_note_row(with_titles, titles, &mut plan);
    proof {
        lemma_note_row(with_titles, text_of(titles.note), text_of(titles.other_note));
    }
    let with_legend = reserve_legend_row(with_notes, &def.options.legend, &mut plan);
    proof {
        lemma_legend_row(with_notes, texts_of(def.options.legend@));
    }
    let after_table = if def.features.table {
        reserve_value_table_rows(with_legend, table, &mut plan)
    } else {
        with_legend
    };
    let plot_area = reserve_axis_title_columns(after_table, titles, &mut plan);
    proof {
        lemma_decorations(*def, table_texts(table@), area);
        assert(marks_of(plan@) =~= decorations(*def, table_texts(table@), area).0);
        lemma_fit_widen(marks_of(plan@), area, whole);
    }
    if plot_area.height < 3 {
        draw(buf, &plan);
        return None;
    }
    let ghost dec = marks_of(plan@);
    let inner = render_frame(&def.features.frame, plot_area, &mut plan);
    proof {
        lemma_frame(def.features.frame, plot_area);
        lemma_fit_widen(frame_marks(def.features.frame, plot_area), plot_area, whole);
        lemma_fit_concat(dec, frame_marks(def.features.frame, plot_area), whole);
    }
    if inner.height < 2 {
        draw(buf, &plan);
        return None;
    }
    let ghost framed = marks_of(plan@);
    render_grid_lines(&def.options.grid, inner, &mut plan);
    proof {
        lemma_grid(def.options.grid, inner);
        lemma_fit_widen(grid_marks(def.options.grid, inner), inner, whole);
        lemma_fit_concat(framed, grid_marks(def.options.grid, inner), whole);
    }
    draw(buf, &plan);
    Some(inner)
}

/// Show `msg` centred in `area` (the hint of a graph type that has nothing
/// to plot).
pub fn show_message(area: Area, msg: &str, buf: &mut Buffer)
    requires
        canvas_ok(*old(buf)),
        area.fits(),
        area.height >= 1,
        area.within(buffer_area(*old(buf))),
    ensures
        canvas_ok(*final(buf)),
        same_shape(*old(buf), *final(buf)),
        buffer_cells(*final(buf)) == apply_marks(buffer_cells(*old(buf)), buffer_area(*old(buf)), seq![centered(area, msg@)]),
{
    let mut plan: Vec<Stroke> = Vec::new();
    write_centered(area, msg, &mut plan);
    proof {
        assert(marks_of(plan@) =~= seq![centered(area, msg@)]);
        lemma_centered(area, msg@);
        lemma_fit_widen(marks_of(plan@), area, buffer_area(*buf));
    }
    draw(buf, &plan);
}

/// Rows above the baseline of a plot in `area` (the baseline is its last
/// row).
pub fn plot_rows(area: Area) -> (h: u16)
    ensures
        h == crate::area::sat_sub(crate::area::sat_sub(area.b(), 1), area.t()),
{
    area.bottom().saturating_sub(1).saturating_sub(area.top())
}

/// Columns right of the baseline column of a horizontal bar chart in
/// `area` (the baseline is its first column).
pub fn side_cols(area: Area) -> (w: u16)
    ensures
        w == crate::area::sat_sub(area.r(), crate::area::sat_add(area.l(), 1)),
{
    area.right().saturating_sub(area.left().saturating_add(1))
}

} // verus!
