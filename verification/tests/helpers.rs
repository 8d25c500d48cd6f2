use l123_graph::area::Area;
use l123_graph::canvas::{Paint, Tone};
use l123_graph::chrome::{pad_left, slot_prefix, take_chars};
use l123_graph::glyphs::corner_glyph;
use l123_graph::labels::paint_data_label;
use l123_graph::layout::{plot_rows, side_cols};
use l123_graph::marks::{box_stroke, canvas_ready, clear, draw, text_stroke, Stroke};
use l123_graph::model::{Chart, DataLabelPlacement, FrameMask, GraphDef, GraphType, GraphValues, Orientation};
use l123_graph::pie::{decimal_string, trims_to_empty, wedge_label_unicode};
use ratatui::buffer::Buffer;
use ratatui::layout::Rect;
use ratatui::style::Color;

fn row(buf: &Buffer, y: u16) -> String {
    let mut s = String::new();
    for x in 0..buf.area.width {
        s.push_str(buf[(x, y)].symbol());
    }
    s
}

#[test]
fn corner_glyph_follows_the_edges() {
    assert_eq!(corner_glyph(true, true, "┌", "─", "│"), "┌");
    assert_eq!(corner_glyph(true, false, "┌", "─", "│"), "─");
    assert_eq!(corner_glyph(false, true, "┌", "─", "│"), "│");
    assert_eq!(corner_glyph(false, false, "┌", "─", "│"), "");
}

#[test]
fn wedge_label_prefers_cell_text_then_position() {
    let labels = vec!["North".to_string(), " \t ".to_string(), " x ".to_string()];
    assert_eq!(wedge_label_unicode(Some(&labels), 0, 0), "North");
    // Blank cell text falls back to the 1-based wedge position.
    assert_eq!(wedge_label_unicode(Some(&labels), 1, 1), "2");
    // Text is kept as it is, surrounding spaces included.
    assert_eq!(wedge_label_unicode(Some(&labels), 2, 1), " x ");
    // Past the labels, and with no labels at all: the position.
    assert_eq!(wedge_label_unicode(Some(&labels), 7, 4), "5");
    assert_eq!(wedge_label_unicode(None, 0, 11), "12");
}

#[test]
fn decimal_string_matches_format() {
    for n in [0usize, 7, 10, 42, 405, 9999, 123456789] {
        assert_eq!(decimal_string(n), format!("{}", n));
    }
}

#[test]
fn trims_to_empty_matches_trim() {
    for s in ["", " ", "\t\n", "\u{3000}", " a ", "x"] {
        assert_eq!(trims_to_empty(s), s.trim().is_empty(), "{s:?}");
    }
}

#[test]
fn pad_left_right_aligns() {
    assert_eq!(pad_left("12", 7), "     12");
    assert_eq!(pad_left("-", 7), "      -");
    assert_eq!(pad_left("12345678", 7), "12345678");
    assert_eq!(pad_left("", 3), "   ");
}

#[test]
fn take_chars_counts_characters() {
    assert_eq!(take_chars("héllo", 2), "hé");
    assert_eq!(take_chars("héllo", 9), "héllo");
    assert_eq!(take_chars("abc", 0), "");
}

#[test]
fn slot_prefixes_run_a_to_f() {
    let got: Vec<&str> = (0..6).map(slot_prefix).collect();
    assert_eq!(got, vec!["A: ", "B: ", "C: ", "D: ", "E: ", "F: "]);
}

#[test]
fn is_empty_only_without_any_range() {
    let mut vals: GraphValues<f64> = GraphValues::default();
    assert!(vals.is_empty());
    vals.x_labels = Some(vec!["a".to_string()]);
    assert!(vals.is_empty());
    vals.data[5] = Some(vec![]);
    assert!(!vals.is_empty());
    let mut vals: GraphValues<f64> = GraphValues::default();
    vals.x = Some(vec![1.0]);
    assert!(!vals.is_empty());
}

#[test]
fn first_series_is_the_first_set_slot() {
    let mut vals: GraphValues<f64> = GraphValues::default();
    assert!(vals.first_series().is_none());
    assert!(vals.first_series_with_slot().is_none());
    vals.data[2] = Some(vec![]);
    // A set but empty series has no values and is passed over.
    assert!(vals.first_series().is_none());
    vals.data[4] = Some(vec![4.0]);
    assert_eq!(vals.first_series_with_slot(), Some((4, &[4.0][..])));
    assert_eq!(vals.first_series(), Some(&[4.0][..]));
    vals.data[1] = Some(vec![1.5, 2.5]);
    assert_eq!(vals.first_series_with_slot(), Some((1, &[1.5, 2.5][..])));
    assert_eq!(vals.first_series(), Some(&[1.5, 2.5][..]));
}

#[test]
fn graph_def_defaults() {
    let d = GraphDef::default();
    assert_eq!(d.graph_type, GraphType::Line);
    assert_eq!(d.features.frame, FrameMask { left: true, right: true, top: true, bottom: true, y_axis: false });
    assert!(!d.features.stacked && !d.features.percent && !d.features.table && !d.features.drop_shadow);
    assert!(d.options.legend.iter().all(Option::is_none));
    assert!(d.options.data_labels_placement.iter().all(|p| *p == DataLabelPlacement::Center));
}

#[test]
fn area_new_clamps_at_the_last_cell() {
    assert_eq!(Area::new(65530, 3, 10, 4), Area { x: 65530, y: 3, width: 5, height: 4 });
    let a = Area::new(2, 3, 10, 4);
    assert_eq!((a.left(), a.top(), a.right(), a.bottom()), (2, 3, 12, 7));
}

#[test]
fn plot_rows_and_side_cols() {
    assert_eq!(plot_rows(Area::new(1, 1, 38, 8)), 7);
    assert_eq!(plot_rows(Area::new(0, 0, 5, 0)), 0);
    assert_eq!(side_cols(Area::new(1, 1, 39, 8)), 38);
    assert_eq!(side_cols(Area::new(3, 0, 1, 8)), 0);
}

#[test]
fn canvas_ready_checks_buffer_and_area() {
    let buf = Buffer::empty(Rect::new(2, 1, 10, 5));
    assert!(canvas_ready(&buf, Area::new(2, 1, 10, 5)));
    assert!(canvas_ready(&buf, Area::new(4, 2, 3, 3)));
    assert!(!canvas_ready(&buf, Area::new(0, 1, 10, 5)));
    assert!(!canvas_ready(&buf, Area::new(2, 1, 11, 5)));
    assert!(!canvas_ready(&buf, Area::new(2, 1, 10, 6)));
}

#[test]
fn strokes_fill_patch_and_print() {
    let mut buf = Buffer::empty(Rect::new(0, 0, 6, 3));
    let plan: Vec<Stroke> = vec![
        box_stroke(0, 3, 0, 2, "#", Tone::Red, false),
        box_stroke(2, 5, 1, 3, "+", Tone::Green, true),
        text_stroke(1, 2, "hey", Paint { fg: Some(Tone::White), bg: Some(Tone::DarkGray) }),
    ];
    draw(&mut buf, &plan);
    assert_eq!(row(&buf, 0), "###   ");
    // The patch skips the cell the fill already drew on.
    assert_eq!(row(&buf, 1), "###++ ");
    assert_eq!(row(&buf, 2), " hey+ ");
    assert_eq!(buf[(0, 0)].fg, Color::Red);
    assert_eq!(buf[(3, 1)].fg, Color::Green);
    assert_eq!(buf[(2, 1)].fg, Color::Red);
    assert_eq!(buf[(1, 2)].fg, Color::White);
    assert_eq!(buf[(1, 2)].bg, Color::DarkGray);
    assert_eq!(buf[(4, 2)].bg, Color::Reset);
}

#[test]
fn text_stroke_stops_at_the_buffer_edge() {
    let mut buf = Buffer::empty(Rect::new(0, 0, 5, 1));
    draw(&mut buf, &vec![text_stroke(3, 0, "abcdef", Paint { fg: None, bg: None })]);
    assert_eq!(row(&buf, 0), "   ab");
}

#[test]
fn clear_blanks_only_the_area() {
    let mut buf = Buffer::empty(Rect::new(0, 0, 4, 2));
    draw(&mut buf, &vec![box_stroke(0, 4, 0, 2, "x", Tone::Cyan, false)]);
    clear(Area::new(1, 0, 2, 2), &mut buf);
    assert_eq!(row(&buf, 0), "x  x");
    assert_eq!(row(&buf, 1), "x  x");
    assert_eq!(buf[(1, 0)].fg, Color::Reset);
    assert_eq!(buf[(0, 0)].fg, Color::Cyan);
}

#[test]
fn data_label_placements() {
    let area = Area::new(2, 1, 10, 5);
    let place = |p: DataLabelPlacement, ax: u16, ay: u16| -> Vec<String> {
        let mut buf = Buffer::empty(Rect::new(0, 0, 14, 7));
        let mut plan = Vec::new();
        paint_data_label("abcd", ax, ay, p, area, &mut plan);
        draw(&mut buf, &plan);
        (0..7).map(|y| row(&buf, y)).collect()
    };
    // Centre: centred on the anchor column, on its row.
    assert_eq!(place(DataLabelPlacement::Center, 6, 3)[3], "    abcd      ");
    // Above and Below: one row off; none above the top row or below the last.
    assert_eq!(place(DataLabelPlacement::Above, 6, 3)[2], "    abcd      ");
    assert!(place(DataLabelPlacement::Above, 6, 1).iter().all(|r| r.trim().is_empty()));
    assert_eq!(place(DataLabelPlacement::Below, 6, 3)[4], "    abcd      ");
    assert!(place(DataLabelPlacement::Below, 6, 5).iter().all(|r| r.trim().is_empty()));
    // Left ends one cell before the anchor; what would fall left of the
    // area is cut off, and a label wholly left of it moves to its left edge.
    assert_eq!(place(DataLabelPlacement::Left, 8, 3)[3], "   abcd       ");
    assert_eq!(place(DataLabelPlacement::Left, 4, 3)[3], "  d           ");
    assert_eq!(place(DataLabelPlacement::Left, 3, 3)[3], "  abcd        ");
    // Centre near the left edge is cut at the area's left edge.
    assert_eq!(place(DataLabelPlacement::Center, 2, 3)[3], "  cd          ");
    // Right starts one cell after the anchor and is cut at the area's
    // right edge (column 12).
    assert_eq!(place(DataLabelPlacement::Right, 9, 3)[3], "          ab  ");
}

#[test]
fn chart_follows_type_orientation_and_stacking() {
    let mut d = GraphDef { graph_type: GraphType::Bar, ..Default::default() };
    assert_eq!(d.chart(), Chart::Bars { drop_shadow: false });
    d.features.drop_shadow = true;
    assert_eq!(d.chart(), Chart::Bars { drop_shadow: true });
    d.features.stacked = true;
    d.features.percent = true;
    assert_eq!(d.chart(), Chart::Stacked { percent: true });
    d.features.orientation = Orientation::Horizontal;
    assert_eq!(d.chart(), Chart::Horizontal);
    d.graph_type = GraphType::Stack;
    assert_eq!(d.chart(), Chart::Stacked { percent: true });
    for (t, c) in [
        (GraphType::Line, Chart::Line),
        (GraphType::Pie, Chart::Pie),
        (GraphType::XY, Chart::XY),
        (GraphType::Mixed, Chart::Mixed),
        (GraphType::HLCO, Chart::HLCO),
    ] {
        d.graph_type = t;
        assert_eq!(d.chart(), c);
    }
}

#[test]
fn data_label_stays_inside_its_area() {
    // Centre: "ABCD" anchored at the area's first column is cut there.
    let mut buf = Buffer::empty(Rect::new(0, 0, 15, 3));
    let mut plan = Vec::new();
    paint_data_label("ABCD", 5, 1, DataLabelPlacement::Center, Area::new(5, 0, 10, 3), &mut plan);
    draw(&mut buf, &plan);
    assert_eq!(row(&buf, 1), "     CD        ");
    // Left with no room left of the anchor: moved inside the area.
    let mut buf = Buffer::empty(Rect::new(0, 0, 10, 3));
    let mut plan = Vec::new();
    paint_data_label("ab", 0, 1, DataLabelPlacement::Left, Area::new(0, 0, 10, 3), &mut plan);
    draw(&mut buf, &plan);
    assert_eq!(row(&buf, 1), "ab        ");
}
