use codex_tui::diff_render::StyledLine;
use codex_tui::insert_history::Color;
use codex_tui::key::{KeyCode, KeyEvent, KeyModifiers};
use codex_tui::user_approval_widget::{ApprovalOp, ApprovalRequest, Mode, ReviewDecision, UserApprovalWidget};
use crossterm::event as ct;

fn text(l: &StyledLine) -> String {
    l.spans.iter().map(|s| s.content.as_str()).collect()
}

fn key(code: KeyCode) -> KeyEvent {
    KeyEvent::new(code, KeyModifiers::none())
}

fn raw_char(c: char) -> ct::Event {
    ct::Event::Key(ct::KeyEvent::new(ct::KeyCode::Char(c), ct::KeyModifiers::NONE))
}

fn exec_request() -> ApprovalRequest {
    ApprovalRequest::Exec {
        id: "call-1".into(),
        command: vec!["bash".into(), "-lc".into(), "git apply".into()],
        cwd: "/home/u/repo".into(),
        cwd_relative_to_home: Some("repo".into()),
        reason: Some("needs write".into()),
    }
}

#[test]
fn prompt_for_a_command() {
    let w = UserApprovalWidget::new(exec_request());
    let lines: Vec<String> = w.prompt_lines().iter().map(text).collect();
    assert_eq!(lines, vec!["Shell Command", "", "~/repo$ git apply", "", "needs write", "", "Allow command?", ""]);
}

#[test]
fn prompt_for_a_patch() {
    let w = UserApprovalWidget::new(ApprovalRequest::ApplyPatch {
        id: "p".into(),
        reason: None,
        grant_root: Some("/tmp".into()),
    });
    let lines: Vec<String> = w.prompt_lines().iter().map(text).collect();
    assert_eq!(
        lines,
        vec![
            "Apply patch",
            "",
            "This will grant write access to /tmp for the remainder of this session.",
            "",
            "Allow changes?",
            ""
        ]
    );
}

#[test]
fn options_wrap_and_enter_decides() {
    let mut w = UserApprovalWidget::new(exec_request());
    let ev = raw_char(' ');
    assert_eq!(w.handle_key_event(key(KeyCode::Up), &ev), None);
    assert_eq!(w.selected_option(), 4);
    let rows = w.response_lines();
    assert_eq!(text(&rows[4]), "  ▶ No, and stop for now (esc)");
    assert_eq!(rows[4].fg, Some(Color::Blue));
    assert_eq!(text(&rows[0]), "    Yes (y)");
    assert_eq!(w.handle_key_event(key(KeyCode::Down), &ev), None);
    assert_eq!(w.selected_option(), 0);
    assert_eq!(w.handle_key_event(key(KeyCode::Down), &ev), None);
    assert_eq!(
        w.handle_key_event(key(KeyCode::Enter), &ev),
        Some(ApprovalOp::ExecApproval { id: "call-1".into(), decision: ReviewDecision::ApprovedForSession })
    );
    assert!(w.is_complete());
}

#[test]
fn shortcut_keys_decide() {
    let ev = raw_char(' ');
    let patch = ApprovalRequest::ApplyPatch { id: "p".into(), reason: None, grant_root: None };
    let mut w = UserApprovalWidget::new(patch.clone());
    assert_eq!(
        w.handle_key_event(key(KeyCode::Char('y')), &ev),
        Some(ApprovalOp::PatchApproval { id: "p".into(), decision: ReviewDecision::Approved })
    );
    let mut w = UserApprovalWidget::new(patch.clone());
    assert_eq!(
        w.handle_key_event(key(KeyCode::Esc), &ev),
        Some(ApprovalOp::PatchApproval { id: "p".into(), decision: ReviewDecision::Abort })
    );
    let mut w = UserApprovalWidget::new(patch);
    assert_eq!(w.handle_key_event(key(KeyCode::Char('x')), &ev), None);
    assert!(!w.is_complete());
    assert_eq!(
        w.handle_key_event(key(KeyCode::Char('n')), &ev),
        Some(ApprovalOp::PatchApproval { id: "p".into(), decision: ReviewDecision::Denied })
    );
}

#[test]
fn feedback_line_takes_typing_and_denies() {
    let mut w = UserApprovalWidget::new(exec_request());
    let ev = raw_char(' ');
    assert_eq!(w.handle_key_event(key(KeyCode::Char('e')), &ev), None);
    assert_eq!(w.mode(), Mode::Input);
    assert_eq!(w.get_height(3), 3 + 2 + 2);
    for c in "hi".chars() {
        assert_eq!(w.handle_key_event(key(KeyCode::Char(c)), &raw_char(c)), None);
    }
    let rows: Vec<String> = w.response_lines().iter().map(text).collect();
    assert_eq!(rows, vec!["Give the model feedback on this command:", "hi"]);
    assert_eq!(
        w.handle_key_event(key(KeyCode::Enter), &ev),
        Some(ApprovalOp::ExecApproval { id: "call-1".into(), decision: ReviewDecision::Denied })
    );
}
