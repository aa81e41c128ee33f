use kex::tui::screen::{Rect, Screen};

#[test]
fn areas_cover_full_screen() {
    let s = Screen::new(24, 80);
    let pane = s.pane_area();
    let bar = s.status_bar_area();
    assert_eq!(pane.y, 0);
    assert_eq!(pane.height + bar.height, 24);
    assert_eq!(bar.y, pane.height);
    assert_eq!(pane.width, 80);
    assert_eq!(bar.width, 80);
}

#[test]
fn resize_updates_areas() {
    let mut s = Screen::new(24, 80);
    s.resize(40, 120);
    let pane = s.pane_area();
    let bar = s.status_bar_area();
    assert_eq!(pane.height, 39);
    assert_eq!(bar.y, 39);
    assert_eq!(pane.width, 120);
}

#[test]
fn tiny_screen() {
    let s = Screen::new(1, 10);
    let pane = s.pane_area();
    let bar = s.status_bar_area();
    assert_eq!(pane.height, 0);
    assert_eq!(bar.height, 1);
}

#[test]
fn window_without_rows_keeps_a_bar() {
    let s = Screen::new(0, 10);
    assert_eq!(s.pane_area(), Rect { x: 0, y: 0, width: 10, height: 0 });
    assert_eq!(s.status_bar_area(), Rect { x: 0, y: 0, width: 10, height: 1 });
}

#[test]
fn screen_without_a_bar_is_all_pane() {
    let mut s = Screen::with_bar(24, 80, false);
    assert_eq!(s.pane_area(), Rect { x: 0, y: 0, width: 80, height: 24 });
    assert_eq!(s.status_bar_area().height, 0);
    s.resize(2, 10);
    assert_eq!(s.pane_area(), Rect { x: 0, y: 0, width: 10, height: 2 });
    assert_eq!(Screen::with_bar(24, 80, true).pane_area(), Screen::new(24, 80).pane_area());
}
