//! The graph settings and the resolved series values that rendering reads.

use vstd::prelude::*;

verus! {

/// The seven graph types of `/Graph Type`.
#[derive(Clone, Copy, Debug, PartialEq, Eq, Structural)]
pub enum GraphType {
    Line,
    Bar,
    XY,
    Stack,
    Pie,
    HLCO,
    Mixed,
}

/// Bar orientation (`/Graph Type Features Vertical|Horizontal`).
#[derive(Clone, Copy, Debug, PartialEq, Eq, Structural)]
pub enum Orientation {
    Vertical,
    Horizontal,
}

/// Where a data label sits relative to its point or bar
/// (`/Graph Options Data-Labels`).
#[derive(Clone, Copy, Debug, PartialEq, Eq, Structural)]
pub enum DataLabelPlacement {
    Center,
    Left,
    Above,
    Right,
    Below,
}

/// Which edges of the plot frame are drawn, and whether an inner Y-axis
/// line stands just inside the left edge.
#[derive(Clone, Copy, Debug, PartialEq, Eq, Structural)]
pub struct FrameMask {
    pub left: bool,
    pub right: bool,
    pub top: bool,
    pub bottom: bool,
    pub y_axis: bool,
}

/// Which grid lines are drawn (`/Graph Options Grid`).
#[derive(Clone, Copy, Debug, PartialEq, Eq, Structural)]
pub struct GridMask {
    pub horizontal: bool,
    pub vertical: bool,
}

/// The graph's titles (`/Graph Options Titles`).
#[derive(Clone, Debug)]
pub struct Titles {
    pub first: Option<String>,
    pub second: Option<String>,
    pub x_axis: Option<String>,
    pub y_axis: Option<String>,
    pub two_y_axis: Option<String>,
    pub note: Option<String>,
    pub other_note: Option<String>,
}

/// `/Graph Type Features`.
#[derive(Clone, Copy, Debug, PartialEq, Eq, Structural)]
pub struct GraphFeatures {
    pub orientation: Orientation,
    pub stacked: bool,
    pub percent: bool,
    pub frame: FrameMask,
    pub drop_shadow: bool,
    pub table: bool,
}

/// The parts of `/Graph Options` that the terminal view draws.
#[derive(Clone, Debug)]
pub struct GraphOptions {
    pub legend: [Option<String>; 6],
    pub titles: Titles,
    pub grid: GridMask,
    pub data_labels_placement: [DataLabelPlacement; 6],
}

/// A graph's settings.
#[derive(Clone, Debug)]
pub struct GraphDef {
    pub graph_type: GraphType,
    pub features: GraphFeatures,
    pub options: GraphOptions,
}

/// A string option seen as its characters.
pub open spec fn text_of(o: Option<String>) -> Option<Seq<char>> {
    match o {
        Some(s) => Some(s@),
        None => None,
    }
}

impl Default for FrameMask {
    /// All four edges on, no inner Y-axis line.
    fn default() -> (f: FrameMask)
        ensures
            f == (FrameMask { left: true, right: true, top: true, bottom: true, y_axis: false }),
    {
        FrameMask { left: true, right: true, top: true, bottom: true, y_axis: false }
    }
}

impl Default for GridMask {
    /// No grid lines.
    fn default() -> (g: GridMask)
        ensures
            g == (GridMask { horizontal: false, vertical: false }),
    {
        GridMask { horizontal: false, vertical: false }
    }
}

impl Default for GraphFeatures {
    /// Vertical, not stacked, not 100%, default frame, no drop shadow, no
    /// table.
    fn default() -> (f: GraphFeatures)
        ensures
            f == (GraphFeatures {
                orientation: Orientation::Vertical,
                stacked: false,
                percent: false,
                frame: FrameMask { left: true, right: true, top: true, bottom: true, y_axis: false },
                drop_shadow: false,
                table: false,
            }),
    {
        GraphFeatures {
            orientation: Orientation::Vertical,
            stacked: false,
            percent: false,
            frame: FrameMask::default(),
            drop_shadow: false,
            table: false,
        }
    }
}

impl Default for Titles {
    /// No titles.
    fn default() -> (t: Titles)
        ensures
            t.first is None,
            t.second is None,
            t.x_axis is None,
            t.y_axis is None,
            t.two_y_axis is None,
            t.note is None,
            t.other_note is None,
    {
        Titles {
            first: None,
            second: None,
            x_axis: None,
            y_axis: None,
            two_y_axis: None,
            note: None,
            other_note: None,
        }
    }
}

impl Default for GraphOptions {
    /// No legend, no titles, no grid, data labels centred.
    fn default() -> (o: GraphOptions)
        ensures
            forall|i: int| 0 <= i < 6 ==> #[trigger] o.legend@[i] is None,
            o.titles.first is None,
            o.titles.second is None,
            o.titles.x_axis is None,
            o.titles.y_axis is None,
            o.titles.two_y_axis is None,
            o.titles.note is None,
            o.titles.other_note is None,
            o.grid == (GridMask { horizontal: false, vertical: false }),
            forall|i: int| 0 <= i < 6 ==> #[trigger] o.data_labels_placement@[i] == DataLabelPlacement::Center,
    {
        GraphOptions {
            legend: [None, None, None, None, None, None],
            titles: Titles::default(),
            grid: GridMask::default(),
            data_labels_placement: [DataLabelPlacement::Center; 6],
        }
    }
}

impl Default for GraphDef {
    /// A line graph with the default features and options.
    fn default() -> (d: GraphDef)
        ensures
            d.graph_type == GraphType::Line,
            d.features == (GraphFeatures {
                orientation: Orientation::Vertical,
                stacked: false,
                percent: false,
                frame: FrameMask { left: true, right: true, top: true, bottom: true, y_axis: false },
                drop_shadow: false,
                table: false,
            }),
            forall|i: int| 0 <= i < 6 ==> #[trigger] d.options.legend@[i] is None,
            d.options.titles.first is None,
            d.options.titles.second is None,
            d.options.titles.x_axis is None,
            d.options.titles.y_axis is None,
            d.options.titles.two_y_axis is None,
            d.options.titles.note is None,
            d.options.titles.other_note is None,
            d.options.grid == (GridMask { horizontal: false, vertical: false }),
            forall|i: int| 0 <= i < 6 ==> #[trigger] d.options.data_labels_placement@[i] == DataLabelPlacement::Center,
    {
        GraphDef {
            graph_type: GraphType::Line,
            features: GraphFeatures::default(),
            options: GraphOptions::default(),
        }
    }
}

/// How a graph is drawn: which painter, with which of its features.
#[derive(Clone, Copy, Debug, PartialEq, Eq, Structural)]
pub enum Chart {
    /// Side-by-side vertical bars, with or without drop shadows.
    Bars { drop_shadow: bool },
    /// Stacked vertical bars, each column scaled to its own total (100%)
    /// or all to the largest total.
    Stacked { percent: bool },
    /// Bars of the first set series laid on their side.
    Horizontal,
    Line,
    Pie,
    XY,
    Mixed,
    HLCO,
}

/// The painter of a graph: Bar goes by orientation (Horizontal whether
/// stacked or not) and then by Stacked; Stack is always stacked; every
/// other type has its own.
pub open spec fn chart_for(d: GraphDef) -> Chart {
    match d.graph_type {
        GraphType::Bar => match d.features.orientation {
            Orientation::Horizontal => Chart::Horizontal,
            Orientation::Vertical => if d.features.stacked {
                Chart::Stacked { percent: d.features.percent }
            } else {
                Chart::Bars { drop_shadow: d.features.drop_shadow }
            },
        },
        GraphType::Stack => Chart::Stacked { percent: d.features.percent },
        GraphType::Line => Chart::Line,
        GraphType::Pie => Chart::Pie,
        GraphType::XY => Chart::XY,
        GraphType::Mixed => Chart::Mixed,
        GraphType::HLCO => Chart::HLCO,
    }
}

impl GraphDef {
    /// The painter this graph is drawn with.
    pub fn chart(&self) -> (c: Chart)
        ensures
            c == chart_for(*self),
    {
        match self.graph_type {
            GraphType::Bar => match self.features.orientation {
                Orientation::Horizontal => Chart::Horizontal,
                Orientation::Vertical => if self.features.stacked {
                    Chart::Stacked { percent: self.features.percent }
                } else {
                    Chart::Bars { drop_shadow: self.features.drop_shadow }
                },
            },
            GraphType::Stack => Chart::Stacked { percent: self.features.percent },
            GraphType::Line => Chart::Line,
            GraphType::Pie => Chart::Pie,
            GraphType::XY => Chart::XY,
            GraphType::Mixed => Chart::Mixed,
            GraphType::HLCO => Chart::HLCO,
        }
    }
}

/// Values resolved per series slot, for an element type `V` (the numbers
/// that the caller scales; in the terminal view, `f64`).
///
/// `None` means the slot has no range set; an empty `Vec` means the range is
/// set but yielded no values. `x_labels` carries the display text of each X
/// cell, `data_label_text` the text of each series' data-label cells.
#[derive(Clone, Debug, Default)]
pub struct GraphValues<V> {
    pub x: Option<Vec<V>>,
    pub x_labels: Option<Vec<String>>,
    pub data: [Option<Vec<V>>; 6],
    pub data_label_text: [Option<Vec<String>>; 6],
}

impl<V> GraphValues<V> {
    /// True when X and every series slot are unset: nothing to render.
    pub fn is_empty(&self) -> (r: bool)
        ensures
            r == (self.x is None && forall|i: int| 0 <= i < 6 ==> #[trigger] self.data@[i] is None),
    {
        let mut i: usize = 0;
        while i < 6
            invariant
                i <= 6,
                forall|j: int| 0 <= j < i ==> #[trigger] self.data@[j] is None,
            decreases 6 - i,
        {
            if self.data[i].is_some() {
                return false;
            }
            i = i + 1;
        }
        self.x.is_none()
    }

    /// The first series in A..F order that has values, with its slot index
    /// (0..=5); a set but empty series is passed over.
    pub fn first_series_with_slot(&self) -> (r: Option<(usize, &[V])>)
        ensures
            match r {
                None => forall|i: int| 0 <= i < 6 ==> !(#[trigger] has_values(self.data@[i])),
                Some((slot, s)) => {
                    &&& slot < 6
                    &&& has_values(self.data@[slot as int])
                    &&& s@ == self.data@[slot as int].unwrap()@
                    &&& forall|j: int| 0 <= j < slot ==> !(#[trigger] has_values(self.data@[j]))
                },
            },
    {
        let mut i: usize = 0;
        while i < 6
            invariant
                i <= 6,
                forall|j: int| 0 <= j < i ==> !(#[trigger] has_values(self.data@[j])),
            decreases 6 - i,
        {
            match &self.data[i] {
                Some(v) => {
                    if v.len() > 0 {
                        return Some((i, v.as_slice()));
                    }
                },
                None => {},
            }
            i = i + 1;
        }
        None
    }

    /// The first series in A..F order that has values.
    pub fn first_series(&self) -> (r: Option<&[V]>)
        ensures
            match r {
                None => forall|i: int| 0 <= i < 6 ==> !(#[trigger] has_values(self.data@[i])),
                Some(s) => exists|slot: int|
                    0 <= slot < 6 && #[trigger] has_values(self.data@[slot]) && s@ == self.data@[slot].unwrap()@
                        && forall|j: int| 0 <= j < slot ==> !(#[trigger] has_values(self.data@[j])),
            },
    {
        match self.first_series_with_slot() {
            Some((_, s)) => Some(s),
            None => None,
        }
    }
}

/// The slot holds a series with at least one value.
pub open spec fn has_values<V>(o: Option<Vec<V>>) -> bool {
    o matches Some(v) && v@.len() > 0
}

} // verus!
