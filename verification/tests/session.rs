use codex_tui::chat_composer::TokenUsage;
use codex_tui::chatwidget::{add_token_usage, QueuedInputs, UserMessage};
use codex_tui::chat_composer_history::{ChatComposerHistory, HistoryEffect};
use codex_tui::chatwidget::{create_initial_user_message, extract_first_bold};
use codex_tui::get_git_diff::{GitDiffRun, GitDiffStep, GitOutcome};
use codex_tui::git_warning_screen::{GitWarningOutcome, GitWarningScreen};
use codex_tui::insert_history::Color;
use codex_tui::key::{KeyCode, KeyEvent, KeyModifiers};
use codex_tui::mouse_capture::{CaptureCommand, MouseCapture};
use codex_tui::shimmer::color_for_level;
use codex_tui::tui::{key_intent, resume_action_code, resume_action_from_code, take_resume_action, KeyIntent, ResumeAction};
use std::sync::atomic::{AtomicU8, Ordering};

#[test]
fn navigation_with_async_fetch() {
    let mut history = ChatComposerHistory::new();
    history.set_metadata(1, 3);
    assert!(history.should_handle_navigation("", 0));
    let (handled, effect) = history.navigate_up();
    assert!(handled);
    assert_eq!(effect, HistoryEffect::RequestEntry { log_id: 1, offset: 2 });
    assert_eq!(history.on_entry_response(1, 2, Some("latest".into())), Some("latest".to_string()));
    let (handled, effect) = history.navigate_up();
    assert!(handled);
    assert_eq!(effect, HistoryEffect::RequestEntry { log_id: 1, offset: 1 });
    assert_eq!(history.on_entry_response(1, 1, Some("older".into())), Some("older".to_string()));
}

#[test]
fn initial_message_needs_text_or_images() {
    assert!(create_initial_user_message(String::new(), vec![]).is_none());
    let m = create_initial_user_message("hi".to_string(), vec![]).unwrap();
    assert_eq!(m.text, "hi");
    let m = create_initial_user_message(String::new(), vec!["/tmp/a.png".to_string()]).unwrap();
    assert_eq!(m.image_paths, vec!["/tmp/a.png".to_string()]);
}

#[test]
fn first_bold_is_extracted_and_trimmed() {
    assert_eq!(extract_first_bold("**Planning** the work"), Some("Planning".to_string()));
    assert_eq!(extract_first_bold("x ** spaced ** y **z**"), Some("spaced".to_string()));
    assert_eq!(extract_first_bold("**   ** rest"), None);
    assert_eq!(extract_first_bold("**unclosed"), None);
    assert_eq!(extract_first_bold("no bold"), None);
}

#[test]
fn git_warning_keys() {
    let screen = GitWarningScreen::new();
    let k = |c| KeyEvent::new(c, KeyModifiers::none());
    assert_eq!(screen.handle_key_event(k(KeyCode::Char('y'))), GitWarningOutcome::Continue);
    assert_eq!(screen.handle_key_event(k(KeyCode::Char('Y'))), GitWarningOutcome::Continue);
    assert_eq!(screen.handle_key_event(k(KeyCode::Char('n'))), GitWarningOutcome::Quit);
    assert_eq!(screen.handle_key_event(k(KeyCode::Char('q'))), GitWarningOutcome::Quit);
    assert_eq!(screen.handle_key_event(k(KeyCode::Esc)), GitWarningOutcome::Quit);
    assert_eq!(screen.handle_key_event(k(KeyCode::Enter)), GitWarningOutcome::Pending);
}

#[test]
fn resume_action_is_taken_once() {
    let cell = AtomicU8::new(resume_action_code(ResumeAction::RestoreAlt));
    assert_eq!(take_resume_action(&cell), ResumeAction::RestoreAlt);
    assert_eq!(cell.load(Ordering::Relaxed), 0);
    assert_eq!(take_resume_action(&cell), ResumeAction::Nothing);
    assert_eq!(resume_action_from_code(1), ResumeAction::RealignInline);
    assert_eq!(resume_action_from_code(9), ResumeAction::Nothing);
}

#[test]
fn shimmer_levels_map_to_grays() {
    assert_eq!(color_for_level(0), Color::DarkGray);
    assert_eq!(color_for_level(127), Color::DarkGray);
    assert_eq!(color_for_level(128), Color::Gray);
    assert_eq!(color_for_level(191), Color::Gray);
    assert_eq!(color_for_level(192), Color::White);
}

#[test]
fn mouse_capture_writes_only_on_change() {
    let mut written: Vec<CaptureCommand> = Vec::new();
    let mut mc = MouseCapture::new_with_capture(false, |c: CaptureCommand| -> Result<(), ()> {
        written.push(c);
        Ok(())
    })
    .unwrap();
    assert!(!mc.is_active());
    mc.set_active(false, |_c: CaptureCommand| -> Result<(), ()> { panic!("no write expected") }).unwrap();
    mc.toggle(|c: CaptureCommand| -> Result<(), ()> {
        assert_eq!(c, CaptureCommand::Enable);
        Ok(())
    })
    .unwrap();
    assert!(mc.is_active());
    assert!(mc.disable(|_c: CaptureCommand| -> Result<(), ()> { Err(()) }).is_err());
    assert!(mc.is_active());
    assert!(written.is_empty());
    assert_eq!(mc.command_to_reach(true), None);
    assert_eq!(mc.command_to_reach(false), Some(CaptureCommand::Disable));
}

fn exited(code: i32, stdout: &str) -> GitOutcome {
    GitOutcome::Exited { success: code == 0, code: Some(code), stdout: stdout.to_string() }
}

#[test]
fn git_diff_outside_repo_is_empty() {
    let (mut run, step) = GitDiffRun::start("/dev/null".to_string());
    assert!(matches!(step, GitDiffStep::Run(ref a) if a == &vec!["rev-parse".to_string(), "--is-inside-work-tree".to_string()]));
    match run.on_outcome(exited(128, "")) {
        GitDiffStep::Done(Ok((inside, diff))) => {
            assert!(!inside);
            assert!(diff.is_empty());
        }
        other => panic!("unexpected {other:?}"),
    }
}

#[test]
fn git_diff_concatenates_tracked_and_untracked() {
    let (mut run, _) = GitDiffRun::start("/dev/null".to_string());
    assert!(matches!(run.on_outcome(exited(0, "true\n")), GitDiffStep::Run(_)));
    assert!(matches!(run.on_outcome(exited(1, "TRACKED\n")), GitDiffStep::Run(_)));
    match run.on_outcome(exited(0, " new.txt \n\nother.txt\n")) {
        GitDiffStep::Run(args) => assert_eq!(args, vec!["diff", "--color", "--no-index", "--", "/dev/null", "new.txt"]),
        other => panic!("unexpected {other:?}"),
    }
    // The first untracked file vanished: its error is ignored.
    assert!(matches!(
        run.on_outcome(GitOutcome::SpawnFailed { not_found: true, message: "gone".to_string() }),
        GitDiffStep::Run(_)
    ));
    match run.on_outcome(exited(1, "UNTRACKED\n")) {
        GitDiffStep::Done(Ok((inside, diff))) => {
            assert!(inside);
            assert_eq!(diff, "TRACKED\nUNTRACKED\n");
        }
        other => panic!("unexpected {other:?}"),
    }
}

#[test]
fn token_usage_is_added_count_by_count() {
    let a = TokenUsage { input_tokens: 10, cached_input_tokens: Some(2), output_tokens: 5, reasoning_output_tokens: None, total_tokens: 15 };
    let b = TokenUsage { input_tokens: 1, cached_input_tokens: None, output_tokens: 1, reasoning_output_tokens: Some(3), total_tokens: 2 };
    let s = add_token_usage(&a, &b);
    assert_eq!(s, TokenUsage { input_tokens: 11, cached_input_tokens: Some(2), output_tokens: 6, reasoning_output_tokens: Some(3), total_tokens: 17 });
}

#[test]
fn queued_inputs_are_sent_in_order() {
    let mut q = QueuedInputs::new();
    assert_eq!(q.on_submitted(UserMessage::from_text("now".into()), false).map(|m| m.text), Some("now".to_string()));
    assert!(q.on_submitted(UserMessage::from_text("first".into()), true).is_none());
    assert!(q.on_submitted(UserMessage::from_text("second".into()), true).is_none());
    assert!(q.on_submitted(UserMessage::from_text("third".into()), true).is_none());
    assert_eq!(q.texts(), vec!["first", "second", "third"]);
    assert!(q.next_to_send(true).is_none());
    let alt = KeyModifiers { shift: false, control: false, alt: true };
    assert!(q.take_for_edit(KeyEvent::new(KeyCode::Up, KeyModifiers::none())).is_none());
    assert_eq!(q.take_for_edit(KeyEvent::new(KeyCode::Up, alt)), Some("third".to_string()));
    assert_eq!(q.next_to_send(false).map(|m| m.text), Some("first".to_string()));
    assert_eq!(q.next_to_send(false).map(|m| m.text), Some("second".to_string()));
    assert!(q.next_to_send(false).is_none());
    assert_eq!(q.len(), 0);
}

#[test]
fn terminal_keys_paste_images_and_suspend() {
    use_key_intent();
}

fn use_key_intent() {
    let ctrl = KeyModifiers::control();
    assert_eq!(key_intent(KeyEvent::new(KeyCode::Char('v'), ctrl), false), KeyIntent::PasteImage);
    assert_eq!(key_intent(KeyEvent::new(KeyCode::Char('z'), ctrl), true), KeyIntent::Suspend(ResumeAction::RestoreAlt));
    assert_eq!(key_intent(KeyEvent::new(KeyCode::Char('z'), ctrl), false), KeyIntent::Suspend(ResumeAction::RealignInline));
    assert_eq!(key_intent(KeyEvent::new(KeyCode::Char('z'), KeyModifiers::none()), false), KeyIntent::Key);
}
