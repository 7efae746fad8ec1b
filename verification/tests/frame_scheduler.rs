use codex_tui::frame_scheduler::FrameScheduler;

#[test]
fn requests_coalesce_to_the_earliest_instant() {
    let mut s = FrameScheduler::new();
    assert_eq!(s.next_deadline(), None);
    assert!(!s.on_request(50, 10));
    assert!(!s.on_request(30, 10));
    assert!(!s.on_request(40, 10));
    assert_eq!(s.next_deadline(), Some(30));
    assert_eq!(s.sleep_target(1_000), 30);
    assert!(s.on_deadline());
    assert_eq!(s.next_deadline(), None);
    assert!(!s.on_deadline());
    assert_eq!(s.sleep_target(1_000), 1_000);
}

#[test]
fn request_for_a_reached_instant_draws_at_once() {
    let mut s = FrameScheduler::new();
    assert!(!s.on_request(100, 10));
    assert!(s.on_request(10, 10));
    assert_eq!(s.next_deadline(), None);
    assert!(s.on_request(5, 10));
    assert_eq!(s.next_deadline(), None);
}
