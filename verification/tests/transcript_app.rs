use codex_tui::diff_render::StyledLine;
use codex_tui::insert_history::{StyledSpan, BOLD, REVERSED};
use codex_tui::key::{KeyCode, KeyEvent, KeyEventKind, KeyModifiers};
use codex_tui::transcript_app::TranscriptApp;

fn line(t: &str) -> StyledLine {
    StyledLine {
        spans: vec![StyledSpan { content: t.into(), fg: None, bg: None, add_modifier: 0, sub_modifier: 0 }],
        fg: None,
    }
}

fn text(l: &StyledLine) -> String {
    l.spans.iter().map(|s| s.content.as_str()).collect()
}

#[test]
fn edit_prev_hint_is_visible() {
    let app = TranscriptApp::new(vec![line("hello")]);
    let s = app.hint_lines().iter().map(text).collect::<Vec<_>>().join("\n");
    assert!(s.contains("edit prev"), "expected 'edit prev' hint in overlay footer, got: {s:?}");
    assert!(!s.contains("edit message"));
}

#[test]
fn edit_message_hint_needs_a_nonempty_highlight() {
    let mut app = TranscriptApp::new(vec![line("a"), line("b")]);
    app.set_highlight_range(Some((1, 1)));
    assert!(!app.hint_lines().iter().map(text).any(|t| t.contains("edit message")));
    app.set_highlight_range(Some((0, 1)));
    assert!(app.hint_lines()[1].spans.iter().any(|s| s.content == " edit message"));
}

#[test]
fn keys_scroll_and_close() {
    let none = KeyModifiers::none();
    let mut app = TranscriptApp::with_title(vec![line("a")], "T".into());
    assert_eq!(app.scroll_offset(), 0);
    assert!(app.handle_key_event(KeyEvent::new(KeyCode::Down, none), 20));
    assert_eq!(app.scroll_offset(), 1);
    assert!(app.handle_key_event(KeyEvent::new(KeyCode::PageDown, none), 20));
    assert_eq!(app.scroll_offset(), 16);
    assert!(app.handle_key_event(KeyEvent::new(KeyCode::Char(' '), none), 20));
    assert_eq!(app.scroll_offset(), 31);
    assert!(app.handle_key_event(KeyEvent::new(KeyCode::PageUp, none), 3));
    assert_eq!(app.scroll_offset(), 31);
    assert!(app.handle_key_event(KeyEvent::new(KeyCode::Home, none), 20));
    assert_eq!(app.scroll_offset(), 0);
    assert!(app.handle_key_event(KeyEvent::new(KeyCode::Up, none), 20));
    assert_eq!(app.scroll_offset(), 0);
    assert!(app.handle_key_event(KeyEvent::new(KeyCode::End, none), 20));
    assert_eq!(app.scroll_offset(), usize::MAX);
    assert!(app.handle_key_event(KeyEvent::new(KeyCode::Down, none), 20));
    assert_eq!(app.scroll_offset(), usize::MAX);
    assert!(!app.handle_key_event(KeyEvent::new_with_kind(KeyCode::Char('q'), none, KeyEventKind::Release), 20));
    assert!(!app.handle_key_event(KeyEvent::new(KeyCode::Char('x'), none), 20));
    assert!(!app.handle_key_event(KeyEvent::new(KeyCode::Char('t'), none), 20));
    assert!(!app.is_done());
    assert!(app.handle_key_event(KeyEvent::new(KeyCode::Char('t'), KeyModifiers::control()), 20));
    assert!(app.is_done());
    let mut app = TranscriptApp::new(vec![]);
    assert!(app.handle_key_event(KeyEvent::new(KeyCode::Char('q'), none), 20));
    assert!(app.is_done());
    assert_eq!(app.title(), "T R A N S C R I P T");
}

#[test]
fn highlight_reverses_range_and_bolds_its_first_span() {
    let mut app = TranscriptApp::new(vec![line("a"), line("b"), line("c")]);
    app.set_highlight_range(Some((1, 10)));
    let ls = app.highlighted_lines();
    assert_eq!(ls[0].spans[0].add_modifier, 0);
    assert_eq!(ls[1].spans[0].add_modifier, REVERSED | BOLD);
    assert_eq!(ls[2].spans[0].add_modifier, REVERSED);
    app.insert_lines(vec![line("d")]);
    assert_eq!(app.highlighted_lines()[3].spans[0].add_modifier, REVERSED);
}

#[test]
fn clamp_scroll_keeps_the_page_full() {
    let mut app = TranscriptApp::new(vec![line("a")]);
    assert_eq!(app.clamp_scroll(30, 10), (20, 30));
    assert_eq!(app.scroll_offset(), 20);
    assert_eq!(app.clamp_scroll(5, 10), (0, 5));
    let mut app = TranscriptApp::with_title(vec![], "x".into());
    assert_eq!(app.clamp_scroll(30, 10), (0, 10));
}
