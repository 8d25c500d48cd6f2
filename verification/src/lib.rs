//! Terminal rendering of spreadsheet graphs into a `ratatui` buffer.
//!
//! The crate splits a graph into what can be decided on whole cells and
//! what needs the series' numeric values. Everything that places glyphs,
//! reserves rows and columns, clips to the plot area and picks labels is
//! verified here; the numeric scaling of values into cell counts is done by
//! the caller, which hands the painters plain integers.

pub mod area;
pub mod bars;
pub mod canvas;
pub mod chrome;
pub mod frame;
pub mod glyphs;
pub mod hlco;
pub mod horizontal;
pub mod labels;
pub mod laws;
pub mod layout;
pub mod marks;
pub mod mixed;
pub mod model;
pub mod pie;
pub mod plots;
pub mod series;
pub mod stacked;
pub mod strokes;
