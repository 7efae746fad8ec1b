use codex_tui::insert_history::Rect;
use codex_tui::tui::ResumeAction;
use codex_tui::viewport::{offset, CursorUnavailable, FitPlan, PreparedResumeAction, Viewport};

fn rect(x: u16, y: u16, width: u16, height: u16) -> Rect {
    Rect { x, y, width, height }
}

#[test]
fn offset_moves_and_clamps() {
    assert_eq!(offset(rect(2, 5, 10, 3), 1, -2), rect(3, 3, 10, 3));
    assert_eq!(offset(rect(2, 5, 10, 3), -9, -10), rect(0, 0, 10, 3));
    assert_eq!(offset(rect(2, 5, 10, 3), 0, i32::MAX), rect(2, u16::MAX - 3, 10, 3));
}

#[test]
fn viewport_follows_cursor_after_resize() {
    let v = Viewport::new(rect(0, 10, 80, 5));
    // Same screen size: nothing moves, whatever the cursor.
    assert_eq!(v.pending_viewport_area((80, 24), (80, 24), None, 12), None);
    // Resized, cursor moved up by two rows.
    assert_eq!(v.pending_viewport_area((80, 20), (80, 24), Some(10), 12), Some(rect(0, 8, 80, 5)));
    // Resized, cursor on the same row.
    assert_eq!(v.pending_viewport_area((100, 24), (80, 24), Some(12), 12), None);
    // Resized, cursor unknown.
    assert_eq!(v.pending_viewport_area((100, 24), (80, 24), None, 12), None);
}

#[test]
fn fitting_keeps_a_viewport_that_fits() {
    let mut v = Viewport::new(rect(0, 10, 80, 5));
    let plan = v.fit_to_screen(5, 80, 24);
    assert_eq!(plan, FitPlan { scroll_up: None, clear: false });
    assert_eq!(v.area, rect(0, 10, 80, 5));
}

#[test]
fn fitting_scrolls_when_the_viewport_reaches_below_the_screen() {
    let mut v = Viewport::new(rect(0, 10, 80, 5));
    let plan = v.fit_to_screen(8, 80, 15);
    assert_eq!(plan, FitPlan { scroll_up: Some((10, 3)), clear: true });
    assert_eq!(v.area, rect(0, 7, 80, 8));
}

#[test]
fn fitting_never_exceeds_the_screen() {
    let mut v = Viewport::new(rect(0, 3, 40, 2));
    let plan = v.fit_to_screen(50, 60, 10);
    assert_eq!(v.area, rect(0, 0, 60, 10));
    assert_eq!(plan, FitPlan { scroll_up: Some((3, 3)), clear: true });
    // Fitting again changes nothing.
    let again = v.fit_to_screen(50, 60, 10);
    assert_eq!(again, FitPlan { scroll_up: None, clear: false });
    assert_eq!(v.area, rect(0, 0, 60, 10));
}

#[test]
fn alt_screen_saves_and_restores_the_inline_viewport() {
    let mut v = Viewport::new(rect(0, 18, 80, 6));
    v.enter_alt_screen(Some((80, 24)));
    assert!(v.alt_screen_active);
    assert_eq!(v.area, rect(0, 0, 80, 24));
    assert_eq!(v.alt_saved, Some(rect(0, 18, 80, 6)));
    v.leave_alt_screen();
    assert!(!v.alt_screen_active);
    assert_eq!(v.area, rect(0, 18, 80, 6));
    assert_eq!(v.alt_saved, None);
}

#[test]
fn alt_screen_without_size_keeps_the_viewport() {
    let mut v = Viewport::new(rect(0, 18, 80, 6));
    v.enter_alt_screen(None);
    assert!(v.alt_screen_active);
    assert_eq!(v.area, rect(0, 18, 80, 6));
    v.leave_alt_screen();
    assert_eq!(v.area, rect(0, 18, 80, 6));
}

#[test]
fn resume_realigns_inline_viewport_to_cursor() {
    let mut v = Viewport::new(rect(0, 18, 80, 6));
    let prepared = v.prepare_resume_action(ResumeAction::RealignInline, Some(7));
    assert_eq!(prepared, Ok(Some(PreparedResumeAction::RealignViewport(rect(0, 7, 0, 0)))));
    assert_eq!(
        v.prepare_resume_action(ResumeAction::RealignInline, None),
        Err(CursorUnavailable::CursorPosition)
    );
    let clear = v.apply_prepared_resume_action(PreparedResumeAction::RealignViewport(rect(0, 7, 0, 0)), Some((80, 24)));
    assert!(!clear);
    assert_eq!(v.area, rect(0, 7, 0, 0));
}

#[test]
fn resume_restores_the_alt_screen() {
    let mut v = Viewport::new(rect(0, 18, 80, 6));
    v.enter_alt_screen(Some((80, 24)));
    let prepared = v.prepare_resume_action(ResumeAction::RestoreAlt, Some(11));
    assert_eq!(prepared, Ok(Some(PreparedResumeAction::RestoreAltScreen)));
    assert_eq!(v.alt_saved, Some(rect(0, 11, 80, 6)));
    let clear = v.apply_prepared_resume_action(PreparedResumeAction::RestoreAltScreen, Some((100, 30)));
    assert!(clear);
    assert_eq!(v.area, rect(0, 0, 100, 30));
    v.leave_alt_screen();
    assert_eq!(v.area, rect(0, 11, 80, 6));
}

#[test]
fn resume_with_nothing_to_do() {
    let mut v = Viewport::new(rect(0, 18, 80, 6));
    assert_eq!(v.prepare_resume_action(ResumeAction::Nothing, Some(3)), Ok(None));
    assert_eq!(v.area, rect(0, 18, 80, 6));
}
