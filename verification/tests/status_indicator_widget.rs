use codex_tui::diff_render::StyledLine;
use codex_tui::insert_history::{Color, BOLD, DIM, ITALIC};
use codex_tui::status_indicator_widget::StatusIndicatorWidget;

fn text(l: &StyledLine) -> String {
    l.spans.iter().map(|s| s.content.as_str()).collect()
}

#[test]
fn working_header_and_height_without_queue() {
    let w = StatusIndicatorWidget::new();
    assert_eq!(w.header(), "Working");
    assert_eq!(w.desired_height(80), 2);
    assert!(w.queued_lines(80).is_empty());
    let tail = w.status_tail_spans(12);
    let t: String = tail.iter().map(|s| s.content.as_str()).collect();
    assert_eq!(t, " (12s • Esc to interrupt)");
    assert_eq!(tail[2].add_modifier, DIM | BOLD);
}

#[test]
fn queued_messages_are_listed_with_hint() {
    let mut w = StatusIndicatorWidget::new();
    w.set_queued_messages(vec!["first".to_string(), "second".to_string()]);
    let lines = w.queued_lines(80);
    assert_eq!(lines.iter().map(text).collect::<Vec<_>>(), vec![" ↳ first", " ↳ second", "   Alt+↑ edit"]);
    assert_eq!(lines[0].spans[0].add_modifier, DIM | ITALIC);
    assert_eq!(lines[2].spans[1].fg, Some(Color::Cyan));
    assert_eq!(w.desired_height(80), 1 + 2 + 1 + 1);
}

#[test]
fn long_messages_are_cut_to_three_rows() {
    let mut w = StatusIndicatorWidget::new();
    w.set_queued_messages(vec!["aaa bbb ccc ddd eee".to_string()]);
    // 7 columns: 4 of text after the arrow.
    let lines = w.queued_lines(7);
    assert_eq!(lines.iter().map(text).collect::<Vec<_>>(), vec![" ↳ aaa", "   bbb", "   ccc", "   …", "   Alt+↑ edit"]);
    assert_eq!(w.desired_height(7), 1 + 3 + 1 + 1 + 1);
    // Too narrow to wrap: one row per message.
    assert_eq!(w.desired_height(2), 3);
    w.update_header("Thinking".into());
    assert_eq!(w.header(), "Thinking");
}
