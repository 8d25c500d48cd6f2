use l123_graph::area::Area;
use l123_graph::layout::{render_chrome, show_message};
use l123_graph::model::{FrameMask, GraphDef, GraphFeatures, GraphType, GraphValues, GridMask};
use ratatui::buffer::Buffer;
use ratatui::layout::Rect;

fn no_table() -> [Option<Vec<String>>; 6] {
    [None, None, None, None, None, None]
}

fn row(buf: &Buffer, y: u16) -> String {
    let mut s = String::new();
    for x in 0..buf.area.width {
        s.push_str(buf[(x, y)].symbol());
    }
    s
}

fn contains(buf: &Buffer, needle: &str) -> bool {
    (0..buf.area.height).any(|y| row(buf, y).contains(needle))
}

fn with_a(a: Vec<f64>) -> GraphValues<f64> {
    let mut vals = GraphValues::default();
    vals.data[0] = Some(a);
    vals
}

#[test]
fn empty_values_shows_placeholder() {
    let area = Rect::new(0, 0, 60, 10);
    let mut buf = Buffer::empty(area);
    let vals: GraphValues<f64> = GraphValues::default();
    let inner = render_chrome(&GraphDef::default(), &vals, &no_table(), Area::new(0, 0, 60, 10), &mut buf);
    assert!(inner.is_none());
    assert!(contains(&buf, "No graph ranges set"));
}

#[test]
fn tiny_area_is_safe() {
    let mut buf = Buffer::empty(Rect::new(0, 0, 4, 2));
    let vals = with_a(vec![1.0, 2.0, 3.0]);
    let def = GraphDef { graph_type: GraphType::Bar, ..Default::default() };
    let inner = render_chrome(&def, &vals, &no_table(), Area::new(0, 0, 4, 2), &mut buf);
    assert!(inner.is_none());
    for y in 0..2 {
        assert_eq!(row(&buf, y), "    ");
    }
}

#[test]
fn default_frame_has_four_corners_and_leaves_inner_area() {
    let mut buf = Buffer::empty(Rect::new(0, 0, 30, 12));
    let vals = with_a(vec![1.0]);
    let inner = render_chrome(&GraphDef::default(), &vals, &no_table(), Area::new(0, 0, 30, 12), &mut buf);
    assert_eq!(inner, Some(Area { x: 1, y: 1, width: 28, height: 10 }));
    assert_eq!(buf[(0, 0)].symbol(), "┌");
    assert_eq!(buf[(29, 0)].symbol(), "┐");
    assert_eq!(buf[(0, 11)].symbol(), "└");
    assert_eq!(buf[(29, 11)].symbol(), "┘");
    assert_eq!(buf[(5, 0)].symbol(), "─");
    assert_eq!(buf[(0, 5)].symbol(), "│");
    assert_eq!(buf[(5, 5)].symbol(), " ");
}

#[test]
fn frame_corner_continues_the_edge_that_is_on() {
    let mut buf = Buffer::empty(Rect::new(0, 0, 20, 8));
    let vals = with_a(vec![1.0]);
    let def = GraphDef {
        features: GraphFeatures {
            frame: FrameMask { left: false, right: true, top: true, bottom: false, y_axis: false },
            ..Default::default()
        },
        ..Default::default()
    };
    let inner = render_chrome(&def, &vals, &no_table(), Area::new(0, 0, 20, 8), &mut buf);
    assert_eq!(inner, Some(Area { x: 0, y: 1, width: 19, height: 7 }));
    assert_eq!(buf[(0, 0)].symbol(), "─");
    assert_eq!(buf[(19, 0)].symbol(), "┐");
    assert_eq!(buf[(0, 7)].symbol(), " ");
    assert_eq!(buf[(19, 7)].symbol(), "│");
}

#[test]
fn y_axis_line_sits_inside_the_left_edge() {
    let mut buf = Buffer::empty(Rect::new(0, 0, 20, 8));
    let vals = with_a(vec![1.0]);
    let mut def = GraphDef::default();
    def.features.frame.y_axis = true;
    let inner = render_chrome(&def, &vals, &no_table(), Area::new(0, 0, 20, 8), &mut buf);
    assert_eq!(inner, Some(Area { x: 2, y: 1, width: 17, height: 6 }));
    for y in 1..7 {
        assert_eq!(buf[(1, y)].symbol(), "│");
    }
    assert_eq!(buf[(1, 0)].symbol(), "─");
}

#[test]
fn titles_notes_and_legend_take_rows_outside_the_plot() {
    let mut buf = Buffer::empty(Rect::new(0, 0, 40, 16));
    let vals = with_a(vec![1.0]);
    let mut def = GraphDef::default();
    def.options.titles.first = Some("Sales".to_string());
    def.options.titles.x_axis = Some("Quarter".to_string());
    def.options.titles.note = Some("src".to_string());
    def.options.titles.other_note = Some("v2".to_string());
    def.options.legend[0] = Some("East".to_string());
    def.options.legend[2] = Some("West".to_string());
    let inner = render_chrome(&def, &vals, &no_table(), Area::new(0, 0, 40, 16), &mut buf);
    // First title on row 0, centred: (40 - 5) / 2 = 17.
    assert_eq!(&row(&buf, 0)[17..22], "Sales");
    // X-Axis title on the last row, centred: (40 - 7) / 2 = 16.
    assert_eq!(&row(&buf, 15)[16..23], "Quarter");
    // Note row just above it: Note at column 1, Other-Note ending one cell
    // before the right edge.
    let notes = row(&buf, 14);
    assert_eq!(&notes[1..4], "src");
    assert_eq!(&notes[37..39], "v2");
    // Legend row above the notes.
    assert_eq!(&row(&buf, 13)[1..17], "A: East  C: West");
    // The frame takes rows 1..13; inside it the plot.
    assert_eq!(inner, Some(Area { x: 1, y: 2, width: 38, height: 10 }));
}

#[test]
fn long_title_is_cut_to_the_width_less_two() {
    let mut buf = Buffer::empty(Rect::new(0, 0, 10, 8));
    let vals = with_a(vec![1.0]);
    let mut def = GraphDef::default();
    def.options.titles.first = Some("ABCDEFGHIJKLMNOP".to_string());
    render_chrome(&def, &vals, &no_table(), Area::new(0, 0, 10, 8), &mut buf);
    assert_eq!(row(&buf, 0), " ABCDEFGH ");
}

#[test]
fn axis_titles_run_down_the_side_columns() {
    let mut buf = Buffer::empty(Rect::new(0, 0, 20, 9));
    let vals = with_a(vec![1.0]);
    let mut def = GraphDef::default();
    def.options.titles.y_axis = Some("Yen".to_string());
    def.options.titles.two_y_axis = Some("%".to_string());
    let inner = render_chrome(&def, &vals, &no_table(), Area::new(0, 0, 20, 9), &mut buf);
    // Three characters centred in nine rows: rows 3, 4, 5.
    assert_eq!(buf[(0, 3)].symbol(), "Y");
    assert_eq!(buf[(0, 4)].symbol(), "e");
    assert_eq!(buf[(0, 5)].symbol(), "n");
    assert_eq!(buf[(19, 4)].symbol(), "%");
    // The frame sits between the two title columns.
    assert_eq!(buf[(1, 0)].symbol(), "┌");
    assert_eq!(buf[(18, 0)].symbol(), "┐");
    assert_eq!(inner, Some(Area { x: 2, y: 1, width: 16, height: 7 }));
}

#[test]
fn value_table_rows_sit_under_the_plot() {
    let mut buf = Buffer::empty(Rect::new(0, 0, 30, 12));
    let mut vals = with_a(vec![1.0, 2.5]);
    vals.data[1] = Some(vec![3.0]);
    let mut def = GraphDef::default();
    def.features.table = true;
    let table = [
        Some(vec!["1".to_string(), "2.50".to_string()]),
        Some(vec!["3".to_string()]),
        None,
        None,
        None,
        None,
    ];
    let inner = render_chrome(&def, &vals, &table, Area::new(0, 0, 30, 12), &mut buf);
    assert_eq!(row(&buf, 10), " A:        1   2.50           ");
    assert_eq!(row(&buf, 11), " B:        3                  ");
    assert_eq!(inner, Some(Area { x: 1, y: 1, width: 28, height: 8 }));
}

#[test]
fn grid_rows_and_columns_are_dotted() {
    let mut buf = Buffer::empty(Rect::new(0, 0, 22, 12));
    let vals = with_a(vec![1.0]);
    let mut def = GraphDef::default();
    def.options.grid = GridMask { horizontal: true, vertical: true };
    let inner = render_chrome(&def, &vals, &no_table(), Area::new(0, 0, 22, 12), &mut buf).unwrap();
    assert_eq!(inner, Area { x: 1, y: 1, width: 20, height: 10 });
    // inner height 10, nine rows above the baseline: rows 1 + 9*n/4.
    assert_eq!(buf[(3, 3)].symbol(), "┄");
    assert_eq!(buf[(3, 5)].symbol(), "┄");
    assert_eq!(buf[(3, 7)].symbol(), "┄");
    // Vertical lines at columns 1 + 20*n/4, not over the horizontal ones.
    assert_eq!(buf[(6, 2)].symbol(), "┊");
    assert_eq!(buf[(6, 3)].symbol(), "┄");
    assert_eq!(buf[(11, 9)].symbol(), "┊");
    assert_eq!(buf[(16, 4)].symbol(), "┊");
    // The baseline row of the plot is left alone.
    assert_eq!(buf[(6, 10)].symbol(), " ");
}

#[test]
fn show_message_centres_the_hint() {
    let mut buf = Buffer::empty(Rect::new(0, 0, 20, 5));
    show_message(Area::new(0, 0, 20, 5), "hello", &mut buf);
    assert_eq!(row(&buf, 2), "       hello        ");
}

#[test]
fn note_wins_over_other_note() {
    let mut buf = Buffer::empty(Rect::new(0, 0, 10, 6));
    let vals = with_a(vec![1.0]);
    let mut def = GraphDef::default();
    def.options.titles.note = Some("AAAAAAAA".to_string());
    def.options.titles.other_note = Some("BBBB".to_string());
    render_chrome(&def, &vals, &no_table(), Area::new(0, 0, 10, 6), &mut buf);
    assert_eq!(row(&buf, 5), " AAAAAAAA ");
    // With room to spare, Other-Note is cut to what fits after the Note.
    let mut buf = Buffer::empty(Rect::new(0, 0, 12, 6));
    def.options.titles.note = Some("AAAA".to_string());
    def.options.titles.other_note = Some("BBBBBBBB".to_string());
    render_chrome(&def, &vals, &no_table(), Area::new(0, 0, 12, 6), &mut buf);
    assert_eq!(row(&buf, 5), " AAAABBBBBB ");
}

#[test]
fn value_table_skipped_when_no_series_has_values() {
    let mut buf = Buffer::empty(Rect::new(0, 0, 20, 10));
    let vals = with_a(vec![]);
    let mut def = GraphDef::default();
    def.features.table = true;
    let table = [Some(vec![]), None, None, None, None, None];
    let inner = render_chrome(&def, &vals, &table, Area::new(0, 0, 20, 10), &mut buf);
    assert_eq!(inner, Some(Area { x: 1, y: 1, width: 18, height: 8 }));
    assert!(!contains(&buf, "A:"));
}

#[test]
fn value_table_long_value_runs_on_and_is_cut_at_the_edge() {
    let mut def = GraphDef::default();
    def.features.table = true;
    let vals = with_a(vec![1.0]);
    let render = |w: u16, values: &[&str]| -> String {
        let mut buf = Buffer::empty(Rect::new(0, 0, w, 12));
        let table = [Some(values.iter().map(|v| v.to_string()).collect()), None, None, None, None, None];
        render_chrome(&def, &vals, &table, Area::new(0, 0, w, 12), &mut buf);
        row(&buf, 11)
    };
    // Not cut at its column: the next value overwrites what runs on.
    assert_eq!(render(30, &["123456789", "5"]), " A:  1234567      5           ");
    assert_eq!(render(30, &["5", "123456789"]), " A:        5123456789         ");
    // Cut at the area's right edge.
    assert_eq!(render(20, &["1", "123456789"]), " A:        112345678");
}

fn all_cells(buf: &Buffer) -> Vec<String> {
    (0..buf.area.height).map(|y| row(buf, y)).collect()
}

#[test]
fn rendering_ignores_what_the_area_held_and_repeats_exactly() {
    let mut def = GraphDef::default();
    def.options.titles.first = Some("Sales".to_string());
    def.options.grid = GridMask { horizontal: true, vertical: true };
    let vals = with_a(vec![1.0]);
    let area = Area::new(2, 1, 24, 10);
    let mut b1 = Buffer::empty(Rect::new(0, 0, 30, 12));
    let mut b2 = Buffer::empty(Rect::new(0, 0, 30, 12));
    for y in 1..11 {
        for x in 2..26 {
            b2[(x, y)].set_symbol("?");
        }
    }
    render_chrome(&def, &vals, &no_table(), area, &mut b1);
    render_chrome(&def, &vals, &no_table(), area, &mut b2);
    assert_eq!(all_cells(&b1), all_cells(&b2));
    let once = all_cells(&b1);
    render_chrome(&def, &vals, &no_table(), area, &mut b1);
    assert_eq!(all_cells(&b1), once);
    // Nothing outside the area was touched.
    assert_eq!(row(&b1, 0), " ".repeat(30));
    assert_eq!(buf_col(&b1, 0), " ".repeat(12));
}

fn buf_col(buf: &Buffer, x: u16) -> String {
    (0..buf.area.height).map(|y| buf[(x, y)].symbol().to_string()).collect()
}

#[test]
fn placeholder_drawn_twice_is_drawn_once() {
    let vals: GraphValues<f64> = GraphValues::default();
    let mut buf = Buffer::empty(Rect::new(0, 0, 64, 10));
    render_chrome(&GraphDef::default(), &vals, &no_table(), Area::new(2, 0, 60, 10), &mut buf);
    let once = all_cells(&buf);
    render_chrome(&GraphDef::default(), &vals, &no_table(), Area::new(2, 0, 60, 10), &mut buf);
    assert_eq!(all_cells(&buf), once);
}
