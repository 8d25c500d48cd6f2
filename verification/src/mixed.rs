//! Mixed graph: series A as bars and series B as a dot line over one plot.

use vstd::prelude::*;
use ratatui::buffer::Buffer;
use crate::area::{sat_sub, Area};
use crate::bars::{bar_plot, cells_within, paint_bar, series_ok};
use crate::canvas::{buffer_area, buffer_cells, same_shape};
use crate::chrome::centered;
use crate::laws::lemma_marks_concat;
use crate::layout::show_message;
use crate::marks::{apply_marks, canvas_ok, Mark};
use crate::model::{GraphDef, GraphValues};
use crate::plots::{line_plot, paint_line, spots_ok, Placed};
use crate::series::Scaled;

verus! {

/// The Mixed graph: a hint when neither series A nor B is set; else, when A
/// is set, its bars (without drop shadows), then, when B is set, its dot
/// line, each layer as its own chart scaled to its own extent.
pub open spec fn mixed_plot<V>(
    d: GraphDef,
    vals: GraphValues<V>,
    bars: Seq<Scaled>,
    line: Option<Placed>,
    a: Area,
) -> Seq<Mark> {
    let labels = vals.data_label_text@;
    if vals.data@[0] is None && vals.data@[1] is None {
        seq![centered(a, "Mixed needs at least one of A or B."@)]
    } else {
        (if vals.data@[0] is Some { bar_plot(d, labels, bars, a, false) } else { seq![] }) + (if vals.data@[1] is Some {
            line_plot(d, labels, line, a)
        } else {
            seq![]
        })
    }
}

/// Mixed graph, terminal flavour: series A drawn as bars (`bars`, scaled by
/// the caller) and series B as a dot line over them (`line`, placed by the
/// caller; `None` when B has no values), or a hint when neither is set.
pub fn paint_mixed<V>(
    def: &GraphDef,
    vals: &GraphValues<V>,
    bars: &Vec<Scaled>,
    line: &Option<Placed>,
    area: Area,
    buf: &mut Buffer,
)
    requires
        canvas_ok(*old(buf)),
        area.fits(),
        area.height >= 1,
        area.within(buffer_area(*old(buf))),
        series_ok(bars@, area),
        cells_within(bars@, 2 * sat_sub(sat_sub(area.b(), 1), area.t())),
        *line matches Some(p) ==> p.slot < 6 && spots_ok(p.spots@, area),
    ensures
        canvas_ok(*final(buf)),
        same_shape(*old(buf), *final(buf)),
        buffer_cells(*final(buf)) == apply_marks(
            buffer_cells(*old(buf)),
            buffer_area(*old(buf)),
            mixed_plot(*def, *vals, bars@, *line, area),
        ),
{
    let ghost b0 = *buf;
    let ghost w = buffer_area(b0);
    let ghost labels = vals.data_label_text@;
    if vals.data[0].is_none() && vals.data[1].is_none() {
        show_message(area, "Mixed needs at least one of A or B.", buf);
        return;
    }
    let ghost m1: Seq<Mark> = if vals.data@[0] is Some { bar_plot(*def, labels, bars@, area, false) } else { seq![] };
    if vals.data[0].is_some() {
        paint_bar(def, &vals.data_label_text, bars, area, buf, false);
    }
    let ghost b1 = *buf;
    assert(buffer_cells(b1) == apply_marks(buffer_cells(b0), w, m1));
    let ghost m2: Seq<Mark> = if vals.data@[1] is Some { line_plot(*def, labels, *line, area) } else { seq![] };
    if vals.data[1].is_some() {
        paint_line(def, &vals.data_label_text, line, area, buf);
    }
    proof {
        lemma_marks_concat(buffer_cells(b0), w, m1, m2);
        assert(m1 + m2 == mixed_plot(*def, *vals, bars@, *line, area));
    }
}

} // verus!
