use kex::tui::input::Direction;
use kex::tui::layout::{ranges_overlap, split_rect, PaneLayout, SplitDirection};
use kex::tui::screen::Rect;

fn area() -> Rect {
    Rect { x: 0, y: 0, width: 80, height: 24 }
}

fn share(whole: u16, ratio: u32) -> u16 {
    (whole as f32 * f32::from_bits(ratio)) as u16
}

fn nudge(delta: f32) -> impl Fn(u32, bool) -> u32 {
    move |ratio: u32, grow: bool| {
        let adjust = if grow { delta } else { -delta };
        (f32::from_bits(ratio) + adjust).clamp(0.1, 0.9).to_bits()
    }
}

#[test]
fn single_pane_covers_full_area() {
    let layout = PaneLayout::new("t1".into());
    let rects = layout.compute_rects(area(), &share);
    assert_eq!(rects.len(), 1);
    assert_eq!(rects[0].0, "t1");
    assert_eq!(rects[0].1, area());
}

#[test]
fn vertical_split_creates_left_right() {
    let mut layout = PaneLayout::new("t1".into());
    layout.split(SplitDirection::Vertical, "t2".into());
    let rects = layout.compute_rects(area(), &share);
    assert_eq!(rects.len(), 2);
    assert_eq!(rects[0].1.x, 0);
    assert_eq!(rects[0].1.width, 40);
    assert_eq!(rects[1].1.x, 40);
    assert_eq!(rects[1].1.width, 40);
}

#[test]
fn horizontal_split_creates_top_bottom() {
    let mut layout = PaneLayout::new("t1".into());
    layout.split(SplitDirection::Horizontal, "t2".into());
    let rects = layout.compute_rects(area(), &share);
    assert_eq!(rects.len(), 2);
    assert_eq!(rects[0].1.y, 0);
    assert_eq!(rects[0].1.height, 12);
    assert_eq!(rects[1].1.y, 12);
    assert_eq!(rects[1].1.height, 12);
}

#[test]
fn split_focuses_new_pane() {
    let mut layout = PaneLayout::new("t1".into());
    layout.split(SplitDirection::Vertical, "t2".into());
    assert_eq!(layout.focused_terminal(), "t2");
}

#[test]
fn nested_split_three_panes() {
    let mut layout = PaneLayout::new("t1".into());
    layout.split(SplitDirection::Vertical, "t2".into());
    layout.split(SplitDirection::Horizontal, "t3".into());
    let rects = layout.compute_rects(area(), &share);
    assert_eq!(rects.len(), 3);
}

#[test]
fn close_returns_to_sibling() {
    let mut layout = PaneLayout::new("t1".into());
    layout.split(SplitDirection::Vertical, "t2".into());
    let closed = layout.close_focused();
    assert_eq!(closed, Some("t2".into()));
    assert_eq!(layout.focused_terminal(), "t1");
    assert_eq!(layout.compute_rects(area(), &share).len(), 1);
}

#[test]
fn close_last_pane_returns_none() {
    let mut layout = PaneLayout::new("t1".into());
    assert_eq!(layout.close_focused(), None);
}

#[test]
fn navigate_left_right() {
    let mut layout = PaneLayout::new("t1".into());
    layout.split(SplitDirection::Vertical, "t2".into());
    assert_eq!(layout.focused_terminal(), "t2");
    layout.navigate(Direction::Left, area(), &share);
    assert_eq!(layout.focused_terminal(), "t1");
    layout.navigate(Direction::Right, area(), &share);
    assert_eq!(layout.focused_terminal(), "t2");
}

#[test]
fn navigate_at_boundary_stays() {
    let mut layout = PaneLayout::new("t1".into());
    layout.split(SplitDirection::Vertical, "t2".into());
    layout.navigate(Direction::Right, area(), &share);
    assert_eq!(layout.focused_terminal(), "t2");
}

#[test]
fn navigate_up_down() {
    let mut layout = PaneLayout::new("t1".into());
    layout.split(SplitDirection::Horizontal, "t2".into());
    assert_eq!(layout.focused_terminal(), "t2");
    layout.navigate(Direction::Up, area(), &share);
    assert_eq!(layout.focused_terminal(), "t1");
    layout.navigate(Direction::Down, area(), &share);
    assert_eq!(layout.focused_terminal(), "t2");
}

#[test]
fn resize_changes_ratio() {
    let mut layout = PaneLayout::new("t1".into());
    layout.split(SplitDirection::Vertical, "t2".into());
    layout.resize_focused(Direction::Right, &nudge(0.1));
    let rects = layout.compute_rects(area(), &share);
    assert!(rects[0].1.width < 40, "t1 should shrink");
    assert!(rects[1].1.width > 40, "t2 should grow");
}

#[test]
fn resize_clamps_ratio() {
    let mut layout = PaneLayout::new("t1".into());
    layout.split(SplitDirection::Vertical, "t2".into());
    for _ in 0..20 {
        layout.resize_focused(Direction::Left, &nudge(0.1));
    }
    let rects = layout.compute_rects(area(), &share);
    assert!(rects[0].1.width >= 8);
}

#[test]
fn resize_across_the_axis_changes_nothing() {
    let mut layout = PaneLayout::new("t1".into());
    layout.split(SplitDirection::Vertical, "t2".into());
    let before = layout.compute_rects(area(), &share);
    layout.resize_focused(Direction::Up, &nudge(0.1));
    assert_eq!(layout.compute_rects(area(), &share), before);
}

#[test]
fn panes_tile_a_nested_layout() {
    let mut layout = PaneLayout::new("t1".into());
    layout.split(SplitDirection::Vertical, "t2".into());
    layout.split(SplitDirection::Horizontal, "t3".into());
    layout.split(SplitDirection::Vertical, "t4".into());
    let rects = layout.compute_rects(Rect { x: 3, y: 5, width: 21, height: 9 }, &share);
    for col in 3..24 {
        for row in 5..14 {
            let owners = rects
                .iter()
                .filter(|(_, r)| {
                    r.x <= col && col < r.x + r.width && r.y <= row && row < r.y + r.height
                })
                .count();
            assert_eq!(owners, 1);
        }
    }
}

#[test]
fn close_undoes_a_split() {
    let mut layout = PaneLayout::new("t1".into());
    layout.split(SplitDirection::Vertical, "t2".into());
    let before = layout.compute_rects(area(), &share);
    layout.split(SplitDirection::Horizontal, "t3".into());
    assert_eq!(layout.close_focused(), Some("t3".into()));
    assert_eq!(layout.focused_terminal(), "t2");
    assert_eq!(layout.compute_rects(area(), &share), before);
}

#[test]
fn close_promotes_the_first_pane_of_the_sibling() {
    let mut layout = PaneLayout::new("t1".into());
    layout.split(SplitDirection::Vertical, "t2".into());
    layout.split(SplitDirection::Horizontal, "t3".into());
    layout.navigate(Direction::Left, area(), &share);
    assert_eq!(layout.focused_terminal(), "t1");
    assert_eq!(layout.close_focused(), Some("t1".into()));
    assert_eq!(layout.focused_terminal(), "t2");
    let ids: Vec<String> =
        layout.compute_rects(area(), &share).into_iter().map(|(id, _)| id).collect();
    assert_eq!(ids, vec!["t2".to_string(), "t3".to_string()]);
}

#[test]
fn navigate_takes_the_first_of_equally_near_panes() {
    let mut layout = PaneLayout::new("t1".into());
    layout.split(SplitDirection::Vertical, "t2".into());
    layout.split(SplitDirection::Horizontal, "t3".into());
    layout.navigate(Direction::Left, area(), &share);
    layout.navigate(Direction::Right, area(), &share);
    assert_eq!(layout.focused_terminal(), "t2");
}

#[test]
fn split_rect_gives_the_rest_to_the_second_half() {
    let whole = Rect { x: 2, y: 3, width: 10, height: 7 };
    let (a, b) = split_rect(whole, SplitDirection::Vertical, 4);
    assert_eq!(a, Rect { x: 2, y: 3, width: 4, height: 7 });
    assert_eq!(b, Rect { x: 6, y: 3, width: 6, height: 7 });
    let (a, b) = split_rect(whole, SplitDirection::Horizontal, 9);
    assert_eq!(a, Rect { x: 2, y: 3, width: 10, height: 9 });
    assert_eq!(b, Rect { x: 2, y: 12, width: 10, height: 0 });
}

#[test]
fn touching_ranges_do_not_overlap() {
    assert!(ranges_overlap(0, 5, 4, 1));
    assert!(!ranges_overlap(0, 5, 5, 1));
    assert!(!ranges_overlap(5, 1, 0, 5));
}

#[test]
fn two_panes_stay_within_bounds() {
    let mut layout = PaneLayout::new("t1".into());
    layout.split(SplitDirection::Vertical, "t2".into());
    let moves = [
        (Direction::Left, 0.3),
        (Direction::Left, 5.0),
        (Direction::Right, 0.05),
        (Direction::Up, 0.2),
        (Direction::Right, 100.0),
        (Direction::Left, -0.1),
    ];
    for (direction, delta) in moves {
        layout.resize_focused(direction, &nudge(delta));
        let rects = layout.compute_rects(area(), &share);
        assert!(8 <= rects[0].1.width && rects[0].1.width <= 72);
        assert_eq!(rects[0].1.width + rects[1].1.width, 80);
        assert_eq!(rects[0].1.height, 24);
    }
}

#[test]
fn resize_moves_the_focused_pane_as_told() {
    let mut layout = PaneLayout::new("t1".into());
    layout.split(SplitDirection::Vertical, "t2".into());
    layout.split(SplitDirection::Horizontal, "t3".into());
    layout.split(SplitDirection::Vertical, "t4".into());
    let width = |layout: &PaneLayout| layout.compute_rects(area(), &share)[3].1.width;
    let height = |layout: &PaneLayout| layout.compute_rects(area(), &share)[3].1.height;
    assert_eq!((width(&layout), height(&layout)), (20, 12));
    layout.resize_focused(Direction::Right, &nudge(0.1));
    assert!(width(&layout) > 20);
    assert_eq!(height(&layout), 12);
    layout.resize_focused(Direction::Left, &nudge(0.1));
    layout.resize_focused(Direction::Left, &nudge(0.1));
    assert!(width(&layout) < 20);
    layout.resize_focused(Direction::Up, &nudge(0.1));
    assert!(height(&layout) < 12);
    layout.resize_focused(Direction::Down, &nudge(0.2));
    assert!(height(&layout) > 12);
}

#[test]
fn pane_areas_add_up() {
    let mut layout = PaneLayout::new("t1".into());
    layout.split(SplitDirection::Vertical, "t2".into());
    layout.split(SplitDirection::Horizontal, "t3".into());
    layout.resize_focused(Direction::Down, &nudge(0.13));
    let whole = Rect { x: 1, y: 2, width: 31, height: 17 };
    let rects = layout.compute_rects(whole, &share);
    let sum: u32 = rects.iter().map(|(_, r)| r.width as u32 * r.height as u32).sum();
    assert_eq!(sum, 31 * 17);
    assert!(rects.iter().any(|(id, _)| id == layout.focused_terminal()));
}

#[test]
fn split_divides_one_pane_and_no_other() {
    let mut layout = PaneLayout::new("t1".into());
    layout.split(SplitDirection::Vertical, "t2".into());
    layout.split(SplitDirection::Horizontal, "t3".into());
    layout.navigate(Direction::Up, area(), &share);
    assert_eq!(layout.focused_terminal(), "t2");
    let before = layout.compute_rects(area(), &share);
    layout.split(SplitDirection::Vertical, "t4".into());
    let after = layout.compute_rects(area(), &share);
    assert_eq!(after[0], before[0]);
    assert_eq!(after[1], ("t2".into(), Rect { x: 40, y: 0, width: 20, height: 12 }));
    assert_eq!(after[2], ("t4".into(), Rect { x: 60, y: 0, width: 20, height: 12 }));
    assert_eq!(after[3], before[2]);
}
