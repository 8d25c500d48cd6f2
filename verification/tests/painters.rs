use l123_graph::area::Area;
use l123_graph::bars::paint_bar;
use l123_graph::hlco::{paint_hlco, Tick};
use l123_graph::mixed::paint_mixed;
use l123_graph::horizontal::paint_horizontal;
use l123_graph::layout::{plot_rows, render_chrome, side_cols};
use l123_graph::model::{DataLabelPlacement, GraphDef, GraphType, GraphValues};
use l123_graph::pie::{paint_pie, Wedge};
use l123_graph::plots::{paint_line, paint_xy, Placed};
use l123_graph::series::Scaled;
use l123_graph::stacked::paint_stacked;
use ratatui::buffer::Buffer;
use ratatui::layout::Rect;
use ratatui::style::Color;

fn no_labels() -> [Option<Vec<String>>; 6] {
    [None, None, None, None, None, None]
}

fn row(buf: &Buffer, y: u16) -> String {
    let mut s = String::new();
    for x in 0..buf.area.width {
        s.push_str(buf[(x, y)].symbol());
    }
    s
}

fn contains(buf: &Buffer, needle: &str) -> bool {
    (0..buf.area.height).any(|y| row(buf, y).contains(needle))
}

fn with_a(a: Vec<f64>) -> GraphValues<f64> {
    let mut vals = GraphValues::default();
    vals.data[0] = Some(a);
    vals
}

/// Clear and frame a `w` x `h` buffer for `def`, returning the plot.
fn framed(def: &GraphDef, vals: &GraphValues<f64>, w: u16, h: u16) -> (Buffer, Area) {
    let mut buf = Buffer::empty(Rect::new(0, 0, w, h));
    let inner = render_chrome(def, vals, &no_labels(), Area::new(0, 0, w, h), &mut buf).unwrap();
    (buf, inner)
}

fn some(v: &[u16]) -> Vec<Option<u16>> {
    v.iter().map(|&c| Some(c)).collect()
}

#[test]
fn bar_chart_draws_full_blocks_half_block_and_baseline() {
    // A = [1, 2, 3] in 40 x 10: the plot is 38 x 8 at (1, 1), seven rows
    // above its baseline; the values scale to 5, 9 and 14 half rows.
    let def = GraphDef { graph_type: GraphType::Bar, ..Default::default() };
    let (mut buf, inner) = framed(&def, &with_a(vec![1.0, 2.0, 3.0]), 40, 10);
    assert_eq!(inner, Area { x: 1, y: 1, width: 38, height: 8 });
    assert_eq!(plot_rows(inner), 7);
    let series = vec![Scaled { slot: 0, cells: some(&[5, 9, 14]) }];
    paint_bar(&def, &no_labels(), &series, inner, &mut buf, false);
    assert!(contains(&buf, "█"));
    // Three groups of 12 columns, each bar 11 wide.
    assert_eq!(row(&buf, 8), "│──────────────────────────────────────│");
    assert_eq!(buf[(1, 7)].symbol(), "█");
    assert_eq!(buf[(11, 6)].symbol(), "█");
    assert_eq!(buf[(11, 5)].symbol(), "▄");
    assert_eq!(buf[(11, 4)].symbol(), " ");
    assert_eq!(buf[(12, 7)].symbol(), " ");
    assert_eq!(buf[(13, 4)].symbol(), "█");
    assert_eq!(buf[(13, 3)].symbol(), "▄");
    assert_eq!(buf[(25, 1)].symbol(), "█");
    assert_eq!(buf[(35, 1)].symbol(), "█");
    assert_eq!(buf[(36, 1)].symbol(), " ");
    assert_eq!(buf[(1, 7)].fg, Color::Cyan);
    assert_eq!(buf[(1, 8)].fg, Color::Gray);
}

#[test]
fn bar_height_grows_with_value() {
    // A = [1, 10] in 20 x 12: nine rows above the baseline, so 2 and 18
    // half rows.
    let def = GraphDef { graph_type: GraphType::Bar, ..Default::default() };
    let (mut buf, inner) = framed(&def, &with_a(vec![1.0, 10.0]), 20, 12);
    let series = vec![Scaled { slot: 0, cells: some(&[2, 18]) }];
    paint_bar(&def, &no_labels(), &series, inner, &mut buf, false);
    let mut heights = [0u16; 20];
    for y in 0..12 {
        for x in 0..20 {
            if buf[(x, y)].symbol() == "█" {
                heights[x as usize] += 1;
            }
        }
    }
    assert_eq!(heights[1], 1);
    assert_eq!(heights[10], 9);
    let small = heights.iter().filter(|&&h| h > 0).copied().min().unwrap();
    let big = heights.iter().copied().max().unwrap();
    assert!(big > small);
}

#[test]
fn bar_clusters_series_side_by_side_with_their_shades() {
    let def = GraphDef { graph_type: GraphType::Bar, ..Default::default() };
    let mut vals = with_a(vec![1.0]);
    vals.data[2] = Some(vec![1.0]);
    let (mut buf, inner) = framed(&def, &vals, 20, 8);
    // One group 18 wide: two bars of (18 - 1) / 2 = 8 columns.
    let series = vec![Scaled { slot: 0, cells: some(&[4]) }, Scaled { slot: 2, cells: some(&[4]) }];
    paint_bar(&def, &no_labels(), &series, inner, &mut buf, false);
    assert_eq!(buf[(1, 5)].symbol(), "█");
    assert_eq!(buf[(8, 5)].symbol(), "█");
    // Each bar is shaded by its slot: C is `▒`.
    assert_eq!(buf[(9, 5)].symbol(), "▒");
    assert_eq!(buf[(16, 5)].symbol(), "▒");
    assert_eq!(buf[(17, 5)].symbol(), " ");
}

#[test]
fn bar_drop_shadow_runs_beside_the_bar() {
    let def = GraphDef { graph_type: GraphType::Bar, ..Default::default() };
    let (mut buf, inner) = framed(&def, &with_a(vec![1.0]), 12, 8);
    // Plot 10 x 6 at (1, 1): baseline row 6, bar of 3 half rows, 9 wide.
    let series = vec![Scaled { slot: 0, cells: some(&[3]) }];
    paint_bar(&def, &no_labels(), &series, inner, &mut buf, true);
    assert_eq!(buf[(1, 5)].symbol(), "█");
    assert_eq!(buf[(1, 4)].symbol(), "▄");
    assert_eq!(buf[(10, 5)].symbol(), "░");
    assert_eq!(buf[(10, 4)].symbol(), "░");
    assert_eq!(buf[(10, 3)].symbol(), " ");
    assert_eq!(buf[(10, 5)].fg, Color::DarkGray);
}

#[test]
fn bar_data_label_sits_above_the_bar() {
    let mut def = GraphDef { graph_type: GraphType::Bar, ..Default::default() };
    def.options.data_labels_placement[0] = DataLabelPlacement::Above;
    let (mut buf, inner) = framed(&def, &with_a(vec![1.0]), 12, 8);
    let mut labels = no_labels();
    labels[0] = Some(vec!["hi".to_string()]);
    let series = vec![Scaled { slot: 0, cells: some(&[4]) }];
    paint_bar(&def, &labels, &series, inner, &mut buf, false);
    // Bar 9 wide from column 1, top row 4; label centred on column 5,
    // one row up.
    assert_eq!(buf[(4, 3)].symbol(), "h");
    assert_eq!(buf[(5, 3)].symbol(), "i");
    assert_eq!(buf[(4, 3)].fg, Color::White);
}

#[test]
fn bar_without_series_shows_hint() {
    let def = GraphDef { graph_type: GraphType::Bar, ..Default::default() };
    let mut vals: GraphValues<f64> = GraphValues::default();
    vals.x = Some(vec![1.0]);
    let (mut buf, inner) = framed(&def, &vals, 40, 10);
    paint_bar(&def, &no_labels(), &Vec::new(), inner, &mut buf, false);
    assert!(contains(&buf, "No A..F data to plot."));
}

#[test]
fn stacked_percent_fills_more_of_the_top_row() {
    // A = [1, 1], B = [1, 2] in 30 x 12: nine rows above the baseline.
    let def = GraphDef { graph_type: GraphType::Stack, ..Default::default() };
    let mut vals = with_a(vec![1.0, 1.0]);
    vals.data[1] = Some(vec![1.0, 2.0]);
    let top_row = |cells_a: &[u16], cells_b: &[u16]| -> usize {
        let (mut buf, inner) = framed(&def, &vals, 30, 12);
        let series = vec![Scaled { slot: 0, cells: some(cells_a) }, Scaled { slot: 1, cells: some(cells_b) }];
        paint_stacked(&def, &no_labels(), &series, &vec![true, true], inner, &mut buf);
        (0..30).filter(|&x| ["█", "▓", "▒", "░"].contains(&buf[(x, 1)].symbol())).count()
    };
    // Absolute: shares of the largest total 3; percent: of each column's own.
    let absolute = top_row(&[3, 3], &[3, 6]);
    let percent = top_row(&[5, 3], &[5, 6]);
    assert_eq!(absolute, 13);
    assert_eq!(percent, 26);
    assert!(percent > absolute);
}

#[test]
fn stacked_segments_stack_from_the_bottom() {
    let def = GraphDef { graph_type: GraphType::Stack, ..Default::default() };
    let mut vals = with_a(vec![1.0]);
    vals.data[1] = Some(vec![1.0]);
    let (mut buf, inner) = framed(&def, &vals, 12, 10);
    // Plot 10 x 8 at (1, 1): baseline row 8; A two rows, B three rows.
    let series = vec![Scaled { slot: 0, cells: some(&[2]) }, Scaled { slot: 1, cells: some(&[3]) }];
    paint_stacked(&def, &no_labels(), &series, &vec![true], inner, &mut buf);
    assert_eq!(buf[(1, 7)].symbol(), "█");
    assert_eq!(buf[(1, 6)].symbol(), "█");
    assert_eq!(buf[(1, 5)].symbol(), "▓");
    assert_eq!(buf[(1, 3)].symbol(), "▓");
    assert_eq!(buf[(1, 2)].symbol(), " ");
    assert_eq!(row(&buf, 8), "│──────────│");
}

#[test]
fn stacked_column_not_drawn_stays_empty() {
    let def = GraphDef { graph_type: GraphType::Stack, ..Default::default() };
    let (mut buf, inner) = framed(&def, &with_a(vec![0.0, 1.0]), 12, 10);
    let series = vec![Scaled { slot: 0, cells: vec![None, Some(4)] }];
    paint_stacked(&def, &no_labels(), &series, &vec![false, true], inner, &mut buf);
    // Two columns of five: the first is empty, the second four rows tall.
    assert_eq!(buf[(1, 7)].symbol(), " ");
    assert_eq!(buf[(6, 7)].symbol(), "█");
    assert_eq!(buf[(6, 4)].symbol(), "█");
    assert_eq!(buf[(6, 3)].symbol(), " ");
}

#[test]
fn horizontal_bars_grow_right_from_the_baseline_column() {
    // A = [1..5] in 41 x 10: the plot is 39 x 8 at (1, 1), 38 columns right
    // of its baseline column; the values scale to 15, 30, 46, 61, 76.
    let def = GraphDef::default();
    let (mut buf, inner) = framed(&def, &with_a(vec![1.0, 2.0, 3.0, 4.0, 5.0]), 41, 10);
    assert_eq!(side_cols(inner), 38);
    let series = Scaled { slot: 0, cells: some(&[15, 30, 46, 61, 76]) };
    paint_horizontal(&def, &no_labels(), &Some(series), inner, &mut buf);
    assert!(contains(&buf, "█"));
    assert!(contains(&buf, "▌"));
    assert!(contains(&buf, "│"));
    // Bar 0 on row 1: seven full cells from column 2, then a half cell.
    assert_eq!(&row(&buf, 1)[..], "││███████▌                              │");
    assert_eq!(buf[(2, 5)].symbol(), "█");
    assert_eq!(buf[(39, 5)].symbol(), "█");
    for y in 1..9 {
        assert_eq!(buf[(1, y)].symbol(), "│");
    }
}

#[test]
fn horizontal_without_series_shows_hint() {
    let def = GraphDef::default();
    let mut vals: GraphValues<f64> = GraphValues::default();
    vals.x = Some(vec![1.0]);
    let (mut buf, inner) = framed(&def, &vals, 50, 10);
    paint_horizontal(&def, &no_labels(), &None, inner, &mut buf);
    assert!(contains(&buf, "No numeric A-series values to plot."));
}

#[test]
fn line_places_dots_and_baseline() {
    // A = [1, 5, 3, 7] in 40 x 10: plot 38 x 8, seven rows above the
    // baseline; the points land 0, 12, 25, 37 columns across and 0, 4, 2, 6
    // rows up.
    let def = GraphDef::default();
    let (mut buf, inner) = framed(&def, &with_a(vec![1.0, 5.0, 3.0, 7.0]), 40, 10);
    let placed = Placed { slot: 0, spots: vec![Some((0, 0)), Some((12, 4)), Some((25, 2)), Some((37, 6))] };
    paint_line(&def, &no_labels(), &Some(placed), inner, &mut buf);
    assert_eq!(buf[(1, 7)].symbol(), "•");
    assert_eq!(buf[(13, 3)].symbol(), "•");
    assert_eq!(buf[(26, 5)].symbol(), "•");
    assert_eq!(buf[(38, 1)].symbol(), "•");
    assert_eq!(row(&buf, 8), "│──────────────────────────────────────│");
    assert_eq!(row(&buf, 2), "│                                      │");
}

#[test]
fn line_point_outside_the_window_is_skipped_but_labelled() {
    let mut def = GraphDef::default();
    def.options.data_labels_placement[0] = DataLabelPlacement::Right;
    let (mut buf, inner) = framed(&def, &with_a(vec![1.0, 2.0]), 20, 8);
    let mut labels = no_labels();
    labels[0] = Some(vec!["p".to_string(), "q".to_string()]);
    let placed = Placed { slot: 0, spots: vec![Some((3, 1)), None] };
    paint_line(&def, &labels, &Some(placed), inner, &mut buf);
    // Plot 18 x 6 at (1, 1), baseline row 6: the dot at (4, 4), its label
    // one cell right of it; the unplaced point draws nothing.
    assert_eq!(buf[(4, 4)].symbol(), "•");
    assert_eq!(buf[(5, 4)].symbol(), "p");
    assert!(!contains(&buf, "q"));
}

#[test]
fn xy_positions_follow_the_x_values() {
    // X = [0, 10, 100], A = [50, 50, 50] in 60 x 16: plot 58 wide, the dots
    // 0, 6 and 57 columns across on the row above the baseline.
    let def = GraphDef { graph_type: GraphType::XY, ..Default::default() };
    let mut vals = with_a(vec![50.0, 50.0, 50.0]);
    vals.x = Some(vec![0.0, 10.0, 100.0]);
    let (mut buf, inner) = framed(&def, &vals, 60, 16);
    let pairs = vec![(0, Some((0, 0))), (1, Some((6, 0))), (2, Some((57, 0)))];
    paint_xy(&def, &vals, &Some(pairs), inner, &mut buf);
    let dot_xs: Vec<u16> = (0..60).filter(|&x| (0..16).any(|y| buf[(x, y)].symbol() == "•")).collect();
    assert_eq!(dot_xs, vec![1, 7, 58]);
    let near = dot_xs[1] - dot_xs[0];
    let far = dot_xs[2] - dot_xs[1];
    assert!(far > near * 3);
}

#[test]
fn xy_without_x_range_shows_hint() {
    let def = GraphDef { graph_type: GraphType::XY, ..Default::default() };
    let vals = with_a(vec![1.0]);
    let (mut buf, inner) = framed(&def, &vals, 40, 10);
    paint_xy(&def, &vals, &None, inner, &mut buf);
    assert!(contains(&buf, "XY graphs need an X range."));
}

#[test]
fn hlco_open_tick_left_close_tick_right() {
    // H = 10, L = 2, C = 8, O = 4 in 30 x 14: plot 28 x 12 at (1, 1), eleven
    // rows above the baseline; the bar stands 14 columns across, from 10 rows
    // up to 0, close 8 up, open 3 up.
    let def = GraphDef { graph_type: GraphType::HLCO, ..Default::default() };
    let mut vals = with_a(vec![10.0]);
    vals.data[1] = Some(vec![2.0]);
    vals.data[2] = Some(vec![8.0]);
    vals.data[3] = Some(vec![4.0]);
    let (mut buf, inner) = framed(&def, &vals, 30, 14);
    let ticks = vec![Some(Tick { x: 14, high: 10, low: 0, close: Some(8), open: Some(3) })];
    paint_hlco(&def, &vals, &Some(ticks), inner, &mut buf);
    for y in 1..12 {
        assert_eq!(buf[(15, y)].symbol(), "│");
    }
    assert_eq!(buf[(16, 3)].symbol(), "─");
    assert_eq!(buf[(16, 3)].fg, Color::Green);
    assert_eq!(buf[(14, 8)].symbol(), "─");
    assert_eq!(buf[(14, 8)].fg, Color::Red);
    assert_eq!(buf[(16, 8)].symbol(), " ");
    assert_eq!(buf[(14, 3)].symbol(), " ");
}

#[test]
fn hlco_without_high_series_shows_hint() {
    let def = GraphDef { graph_type: GraphType::HLCO, ..Default::default() };
    let mut vals: GraphValues<f64> = GraphValues::default();
    vals.data[1] = Some(vec![1.0]);
    let (mut buf, inner) = framed(&def, &vals, 40, 10);
    paint_hlco(&def, &vals, &None, inner, &mut buf);
    assert!(contains(&buf, "HLCO needs series A (high)."));
}

#[test]
fn pie_wedges_tile_the_middle_row_with_positional_labels() {
    let mut buf = Buffer::empty(Rect::new(0, 0, 20, 5));
    let vals = with_a(vec![1.0, 2.0, 1.0]);
    let wedges = vec![Wedge { orig: 0, end: 5 }, Wedge { orig: 1, end: 15 }, Wedge { orig: 2, end: 20 }];
    paint_pie(&vals, &Some(wedges), Area::new(0, 0, 20, 5), &mut buf);
    assert_eq!(row(&buf, 2), "█████▓▓▓▓▓▓▓▓▓▓▒▒▒▒▒");
    assert_eq!(row(&buf, 3), "  1      2       3  ");
}

#[test]
fn pie_labels_prefer_x_cell_text() {
    let mut buf = Buffer::empty(Rect::new(0, 0, 20, 5));
    let mut vals = with_a(vec![1.0, 2.0, 1.0]);
    vals.x_labels = Some(vec!["Jan".to_string(), "  ".to_string(), "Marchland".to_string()]);
    let wedges = vec![Wedge { orig: 0, end: 5 }, Wedge { orig: 1, end: 15 }, Wedge { orig: 2, end: 20 }];
    paint_pie(&vals, &Some(wedges), Area::new(0, 0, 20, 5), &mut buf);
    assert_eq!(row(&buf, 3), " Jan     2     March");
}

#[test]
fn pie_tiny_wedge_still_gets_a_cell() {
    let mut buf = Buffer::empty(Rect::new(0, 0, 10, 3));
    let vals = with_a(vec![100.0, 0.1, 100.0]);
    // The second wedge's share rounds to no cell of its own.
    let wedges = vec![Wedge { orig: 0, end: 5 }, Wedge { orig: 1, end: 5 }, Wedge { orig: 2, end: 10 }];
    paint_pie(&vals, &Some(wedges), Area::new(0, 0, 10, 3), &mut buf);
    assert_eq!(row(&buf, 1), "█████▓▒▒▒▒");
}

#[test]
fn pie_hints() {
    let mut buf = Buffer::empty(Rect::new(0, 0, 40, 5));
    let vals: GraphValues<f64> = GraphValues::default();
    paint_pie(&vals, &None, Area::new(0, 0, 40, 5), &mut buf);
    assert!(contains(&buf, "Set /Graph A to plot a pie."));
    let mut buf = Buffer::empty(Rect::new(0, 0, 40, 5));
    paint_pie(&with_a(vec![-1.0]), &None, Area::new(0, 0, 40, 5), &mut buf);
    assert!(contains(&buf, "Pie needs positive values."));
}

#[test]
fn line_labels_on_a_buffer_right_of_column_zero() {
    let mut def = GraphDef::default();
    def.options.data_labels_placement[0] = DataLabelPlacement::Right;
    let mut buf = Buffer::empty(Rect::new(5, 0, 20, 8));
    let vals = with_a(vec![1.0]);
    let inner = render_chrome(&def, &vals, &no_labels(), Area::new(5, 0, 20, 8), &mut buf).unwrap();
    assert_eq!(inner, Area { x: 6, y: 1, width: 18, height: 6 });
    let mut labels = no_labels();
    labels[0] = Some(vec!["p".to_string()]);
    let placed = Placed { slot: 0, spots: vec![Some((3, 1))] };
    paint_line(&def, &labels, &Some(placed), inner, &mut buf);
    assert_eq!(buf[(9, 4)].symbol(), "•");
    assert_eq!(buf[(10, 4)].symbol(), "p");
}

#[test]
fn lone_b_series_is_shaded_as_b() {
    let def = GraphDef { graph_type: GraphType::Bar, ..Default::default() };
    let mut vals: GraphValues<f64> = GraphValues::default();
    vals.data[1] = Some(vec![1.0]);
    let (mut buf, inner) = framed(&def, &vals, 12, 8);
    let series = vec![Scaled { slot: 1, cells: some(&[4]) }];
    paint_bar(&def, &no_labels(), &series, inner, &mut buf, false);
    assert_eq!(buf[(1, 5)].symbol(), "▓");
    assert!(!contains(&buf, "█"));
}

#[test]
fn pie_keeps_a_cell_for_every_wedge() {
    // A = [100, 1, 1, 1] over four columns: the shares round every end to
    // the right edge, yet each wedge keeps a cell.
    let mut buf = Buffer::empty(Rect::new(0, 0, 4, 3));
    let vals = with_a(vec![100.0, 1.0, 1.0, 1.0]);
    let wedges = (0..4).map(|orig| Wedge { orig, end: 4 }).collect();
    paint_pie(&vals, &Some(wedges), Area::new(0, 0, 4, 3), &mut buf);
    assert_eq!(row(&buf, 1), "█▓▒░");
}

#[test]
fn hint_is_cut_to_the_plot_width() {
    let def = GraphDef { graph_type: GraphType::Bar, ..Default::default() };
    let mut vals: GraphValues<f64> = GraphValues::default();
    vals.x = Some(vec![1.0]);
    let (mut buf, inner) = framed(&def, &vals, 12, 8);
    paint_bar(&def, &no_labels(), &Vec::new(), inner, &mut buf, false);
    // The plot is 10 wide: the hint keeps its first ten characters.
    assert_eq!(row(&buf, 4), "│No A..F da│");
}

#[test]
fn mixed_draws_bars_then_line() {
    let def = GraphDef { graph_type: GraphType::Mixed, ..Default::default() };
    let mut vals = with_a(vec![1.0]);
    vals.data[1] = Some(vec![2.0]);
    let (mut buf, inner) = framed(&def, &vals, 12, 8);
    // Plot 10 x 6 at (1, 1): A's bar two rows tall, B's dot above it.
    let bars = vec![Scaled { slot: 0, cells: some(&[4]) }];
    let line = Placed { slot: 1, spots: vec![Some((4, 3))] };
    paint_mixed(&def, &vals, &bars, &Some(line), inner, &mut buf);
    assert_eq!(buf[(1, 5)].symbol(), "█");
    assert_eq!(buf[(1, 4)].symbol(), "█");
    assert_eq!(buf[(5, 2)].symbol(), "•");
    assert_eq!(row(&buf, 6), "│──────────│");
}

#[test]
fn mixed_without_a_or_b_shows_hint() {
    let def = GraphDef { graph_type: GraphType::Mixed, ..Default::default() };
    let mut vals: GraphValues<f64> = GraphValues::default();
    vals.data[2] = Some(vec![1.0]);
    let (mut buf, inner) = framed(&def, &vals, 40, 8);
    paint_mixed(&def, &vals, &Vec::new(), &None, inner, &mut buf);
    assert!(contains(&buf, "Mixed needs at least one of A or B."));
}
