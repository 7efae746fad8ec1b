use codex_tui::history_scroll::{visible_window, HistoryScroll, ScrollDebounce, STICK_TO_BOTTOM};

#[test]
fn scrolling_sticks_to_bottom_until_scrolled_up() {
    let mut s = HistoryScroll::new();
    assert_eq!(s.position(), STICK_TO_BOTTOM);
    s.scroll(3);
    assert_eq!(s.position(), STICK_TO_BOTTOM);
    s.record_render(100, 10);
    s.scroll(-5);
    assert_eq!(s.position(), 85);
    s.scroll_down(2);
    assert_eq!(s.position(), 87);
    s.scroll(3);
    assert_eq!(s.position(), STICK_TO_BOTTOM);
    s.scroll_up(200);
    assert_eq!(s.position(), 0);
    assert_eq!(s.render_position(100, 10), 0);
    s.scroll_to_bottom();
    assert_eq!(s.render_position(100, 10), 90);
    assert_eq!(s.render_position(5, 10), 0);
}

#[test]
fn window_skips_and_cuts_cells() {
    // Cells of 3, 4 and 5 rows; position 2; 6 rows of viewport.
    assert_eq!(visible_window(&vec![3, 4, 5], 2, 6), vec![(0, 2, 1), (1, 0, 4), (2, 0, 1)]);
    assert_eq!(visible_window(&vec![3, 4, 5], 7, 10), vec![(2, 0, 5)]);
    assert_eq!(visible_window(&vec![3, 4], 0, 0), vec![]);
    assert_eq!(visible_window(&vec![3], 9, 4), vec![]);
}

#[test]
fn wheel_bursts_add_up() {
    use_debounce();
}

fn use_debounce() {
    let mut d = ScrollDebounce::new();
    assert!(d.on_wheel(true));
    assert!(!d.on_wheel(true));
    assert!(!d.on_wheel(false));
    assert!(!d.on_wheel(true));
    assert_eq!(d.on_timer(), Some(-2));
    assert_eq!(d.on_timer(), None);
    assert!(d.on_wheel(false));
    assert_eq!(d.on_timer(), Some(1));
}
