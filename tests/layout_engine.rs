use r3bl_tui::geometry::{Direction, LayoutError, PercentSize, Position, Size};
use r3bl_tui::layout::{FlexBoxProps, Surface, SurfaceBounds};
use r3bl_tui::pipeline::{RenderEntry, RenderOp, ZOrder};
use r3bl_tui::plan::{lay_out, LayoutStep};
use r3bl_rs_utils_core::{Style, Stylesheet};
use r3bl_tui::style::get_styles;

fn bounds(col: u16, row: u16, width: u16, height: u16) -> SurfaceBounds {
    SurfaceBounds { origin: Position { col, row }, size: Size { width, height } }
}

fn props(id: u8, dir: Direction, w: i64, h: i64) -> FlexBoxProps {
    FlexBoxProps {
        id,
        dir,
        requested_size_percent: PercentSize::try_new(w, h).unwrap(),
        maybe_styles: None,
    }
}

fn started(width: u16, height: u16) -> Surface {
    let mut s = Surface::new(Stylesheet::new());
    s.surface_start(bounds(0, 0, width, height)).unwrap();
    s
}

fn text_entry(s: &str) -> RenderEntry {
    RenderEntry { z_order: ZOrder::Normal, op: RenderOp::PaintText(s.chars().collect()) }
}

#[test]
fn percent_size_rejects_out_of_range() {
    assert!(matches!(PercentSize::try_new(101, 50), Err(LayoutError::RangeError)));
    assert!(matches!(PercentSize::try_new(50, -1), Err(LayoutError::RangeError)));
    let p = PercentSize::try_new(0, 100).unwrap();
    assert_eq!(p.width(), 0);
    assert_eq!(p.height(), 100);
}

#[test]
fn two_siblings_fill_the_row_and_a_third_overflows() {
    let mut s = started(100, 20);
    s.box_start(props(1, Direction::Horizontal, 60, 100)).unwrap();
    let a = s.box_end().unwrap();
    assert_eq!(a.origin, Position { col: 0, row: 0 });
    assert_eq!(a.size, Size { width: 60, height: 20 });
    s.box_start(props(2, Direction::Horizontal, 40, 100)).unwrap();
    let b = s.box_end().unwrap();
    assert_eq!(b.origin, Position { col: 60, row: 0 });
    assert_eq!(b.size, Size { width: 40, height: 20 });
    let c = s.box_start(props(3, Direction::Horizontal, 10, 100));
    assert_eq!(c, Err(LayoutError::SizeOverflow));
    assert_eq!(s.depth(), 0);
}

#[test]
fn half_width_box_round_trip_halves_remaining_space() {
    let mut s = started(100, 20);
    let before = s.remaining_space(Direction::Horizontal).unwrap();
    assert_eq!(before, 100);
    s.box_start(props(7, Direction::Horizontal, 50, 100)).unwrap();
    s.box_end().unwrap();
    assert_eq!(s.remaining_space(Direction::Horizontal), Some(50));
    assert_eq!(s.remaining_space(Direction::Vertical), Some(20));
}

#[test]
fn siblings_within_one_hundred_percent_do_not_overlap() {
    let mut s = started(90, 10);
    let mut ends = Vec::new();
    for (id, pc) in [(1u8, 30i64), (2, 30), (3, 40)] {
        s.box_start(props(id, Direction::Horizontal, pc, 100)).unwrap();
        let b = s.box_end().unwrap();
        ends.push((b.origin.col, b.origin.col + b.size.width));
    }
    assert_eq!(ends, vec![(0, 27), (27, 54), (54, 90)]);
    assert_eq!(s.remaining_space(Direction::Horizontal), Some(0));
}

#[test]
fn first_sibling_past_one_hundred_percent_fails_and_earlier_stay_open() {
    let mut s = started(100, 10);
    s.box_start(props(1, Direction::Vertical, 100, 100)).unwrap();
    s.box_start(props(2, Direction::Horizontal, 50, 100)).unwrap();
    s.box_end().unwrap();
    s.box_start(props(3, Direction::Horizontal, 40, 100)).unwrap();
    s.box_end().unwrap();
    assert_eq!(s.box_start(props(4, Direction::Horizontal, 20, 100)), Err(LayoutError::SizeOverflow));
    assert_eq!(s.depth(), 1);
    assert_eq!(s.current_box().unwrap().id, 1);
    assert_eq!(s.remaining_space(Direction::Horizontal), Some(10));
}

#[test]
fn nested_boxes_take_percentages_of_their_parent() {
    let mut s = started(80, 40);
    s.box_start(props(1, Direction::Vertical, 50, 50)).unwrap();
    s.box_start(props(2, Direction::Vertical, 50, 25)).unwrap();
    let inner = s.current_box().unwrap();
    assert_eq!(inner.origin, Position { col: 0, row: 0 });
    assert_eq!(inner.size, Size { width: 20, height: 5 });
    s.box_end().unwrap();
    s.box_start(props(3, Direction::Vertical, 100, 50)).unwrap();
    assert_eq!(s.current_box().unwrap().origin, Position { col: 0, row: 5 });
    s.box_end().unwrap();
    s.box_end().unwrap();
    assert_eq!(s.remaining_space(Direction::Vertical), Some(20));
}

#[test]
fn box_end_on_empty_stack_fails_with_unbalanced_pop() {
    let mut s = started(10, 10);
    assert!(matches!(s.box_end(), Err(LayoutError::UnbalancedPop)));
    let mut fresh = Surface::new(Stylesheet::new());
    assert!(matches!(fresh.box_end(), Err(LayoutError::UnbalancedPop)));
}

#[test]
fn surface_end_with_open_box_fails_with_layout_unbalanced() {
    let mut s = started(10, 10);
    s.box_start(props(1, Direction::Horizontal, 100, 100)).unwrap();
    assert!(matches!(s.surface_end(), Err(LayoutError::LayoutUnbalanced)));
    s.box_end().unwrap();
    let p = s.surface_end().unwrap();
    assert_eq!(p.len(), 0);
    assert!(!s.is_started());
}

#[test]
fn surface_start_twice_or_out_of_range_fails() {
    let mut s = started(10, 10);
    assert_eq!(s.surface_start(bounds(0, 0, 5, 5)), Err(LayoutError::LayoutUnbalanced));
    let mut t = Surface::new(Stylesheet::new());
    assert_eq!(t.surface_start(bounds(65000, 0, 600, 5)), Err(LayoutError::RangeError));
    assert_eq!(t.surface_start(bounds(65000, 0, 535, 5)), Ok(()));
}

#[test]
fn box_start_outside_a_pass_fails() {
    let mut s = Surface::new(Stylesheet::new());
    assert_eq!(s.box_start(props(1, Direction::Horizontal, 10, 10)), Err(LayoutError::LayoutUnbalanced));
    assert!(matches!(s.surface_end(), Err(LayoutError::LayoutUnbalanced)));
}

#[test]
fn pipeline_keeps_entries_of_every_box_in_order() {
    let mut s = started(100, 20);
    s.add_entry(text_entry("root")).unwrap();
    s.box_start(props(1, Direction::Horizontal, 50, 100)).unwrap();
    s.add_entry(text_entry("a1")).unwrap();
    s.box_start(props(2, Direction::Vertical, 100, 50)).unwrap();
    s.add_entry(text_entry("inner")).unwrap();
    s.box_end().unwrap();
    s.add_entry(text_entry("a2")).unwrap();
    s.box_end().unwrap();
    s.box_start(props(3, Direction::Horizontal, 50, 100)).unwrap();
    s.add_entry(text_entry("b")).unwrap();
    s.box_end().unwrap();
    let p = s.surface_end().unwrap();
    let texts: Vec<String> = p
        .entries
        .iter()
        .map(|e| match &e.op {
            RenderOp::PaintText(v) => v.iter().collect(),
            _ => String::new(),
        })
        .collect();
    assert_eq!(texts, vec!["root", "a1", "inner", "a2", "b"]);
}

#[test]
fn lay_out_nested_plan_returns_all_painted_entries() {
    let steps = vec![
        LayoutStep::Open(props(1, Direction::Horizontal, 50, 100)),
        LayoutStep::Paint(text_entry("x")),
        LayoutStep::Open(props(2, Direction::Vertical, 100, 50)),
        LayoutStep::Paint(text_entry("y")),
        LayoutStep::Paint(text_entry("z")),
        LayoutStep::Close,
        LayoutStep::Close,
        LayoutStep::Open(props(3, Direction::Horizontal, 50, 100)),
        LayoutStep::Paint(text_entry("w")),
        LayoutStep::Close,
    ];
    let p = lay_out(Stylesheet::new(), bounds(0, 0, 40, 10), steps).unwrap();
    assert_eq!(p.len(), 4);
}

#[test]
fn lay_out_rejects_unbalanced_and_overflowing_plans() {
    let unclosed = vec![LayoutStep::Open(props(1, Direction::Horizontal, 50, 100))];
    assert!(matches!(lay_out(Stylesheet::new(), bounds(0, 0, 40, 10), unclosed), Err(LayoutError::LayoutUnbalanced)));
    let extra_close = vec![LayoutStep::Close];
    assert!(matches!(lay_out(Stylesheet::new(), bounds(0, 0, 40, 10), extra_close), Err(LayoutError::UnbalancedPop)));
    let overflow = vec![
        LayoutStep::Open(props(1, Direction::Horizontal, 70, 100)),
        LayoutStep::Close,
        LayoutStep::Open(props(2, Direction::Horizontal, 70, 100)),
        LayoutStep::Close,
    ];
    assert!(matches!(lay_out(Stylesheet::new(), bounds(0, 0, 40, 10), overflow), Err(LayoutError::SizeOverflow)));
    assert!(matches!(lay_out(Stylesheet::new(), bounds(65535, 0, 1, 1), vec![]), Err(LayoutError::RangeError)));
}

fn style(id: &str, bold: bool) -> Style {
    Style { id: id.to_string(), bold, ..Style::default() }
}

#[test]
fn stylesheet_resolves_tags_in_order() {
    let mut sheet = Stylesheet::new();
    sheet.add_style(style("title", true)).unwrap();
    sheet.add_style(style("body", false)).unwrap();
    sheet.add_style(style("title", false)).unwrap();
    assert!(sheet.add_style(style("", false)).is_err());
    let found = get_styles(&sheet, vec!["body", "missing", "title"]).unwrap();
    let ids: Vec<(String, bool)> = found.iter().map(|s| (s.id.clone(), s.bold)).collect();
    assert_eq!(ids, vec![("body".to_string(), false), ("title".to_string(), true)]);
    assert!(get_styles(&sheet, vec!["nothing"]).is_none());
    let s = Surface::new(sheet);
    assert_eq!(s.stylesheet().styles.len(), 3);
}

#[test]
fn pipeline_paints_layer_by_layer_keeping_production_order() {
    let mut p = r3bl_tui::pipeline::RenderPipeline::new();
    p.push(ZOrder::Glass, RenderOp::ClearScreen);
    p.push(ZOrder::Normal, RenderOp::ResetStyle);
    p.push(ZOrder::High, RenderOp::PaintCaret(Position { col: 1, row: 1 }));
    let mut more = r3bl_tui::pipeline::RenderPipeline::new();
    more.push(ZOrder::Normal, RenderOp::MoveCursor(Position { col: 0, row: 0 }));
    more.push(ZOrder::Glass, RenderOp::ResetStyle);
    p.join(more);
    assert_eq!(p.len(), 5);
    assert_eq!(p.layer_positions(ZOrder::Glass), vec![0, 4]);
    assert_eq!(p.paint_order(), vec![1, 3, 2, 0, 4]);
}

#[test]
fn half_width_box_on_odd_width_rounds_down() {
    let mut s = started(5, 3);
    s.box_start(props(1, Direction::Horizontal, 50, 100)).unwrap();
    assert_eq!(s.box_end().unwrap().size.width, 2);
    assert_eq!(s.remaining_space(Direction::Horizontal), Some(3));
}

#[test]
fn sibling_past_one_hundred_percent_fails_even_when_cells_round_down() {
    let mut s = started(10, 4);
    s.box_start(props(1, Direction::Horizontal, 55, 100)).unwrap();
    let a = s.box_end().unwrap();
    assert_eq!((a.origin.col, a.size.width), (0, 5));
    assert_eq!(s.box_start(props(2, Direction::Horizontal, 55, 100)), Err(LayoutError::SizeOverflow));
    s.box_start(props(3, Direction::Horizontal, 45, 100)).unwrap();
    let b = s.box_end().unwrap();
    assert_eq!((b.origin.col, b.size.width), (5, 5));
    assert_eq!(s.remaining_space(Direction::Horizontal), Some(0));
}

#[test]
fn siblings_cover_cells_by_running_percentage() {
    let mut s = started(10, 4);
    let mut spans = Vec::new();
    for id in 0..3u8 {
        s.box_start(props(id, Direction::Horizontal, 33, 100)).unwrap();
        let b = s.box_end().unwrap();
        spans.push((b.origin.col, b.size.width));
    }
    assert_eq!(spans, vec![(0, 3), (3, 3), (6, 3)]);
    assert_eq!(s.remaining_space(Direction::Horizontal), Some(1));
}
