use codex_tui::diff_render::StyledLine;
use codex_tui::insert_history::Color;
use codex_tui::key::{KeyCode, KeyEvent, KeyEventKind, KeyModifiers};
use codex_tui::onboarding::{
    current_steps, is_onboarding_done, is_onboarding_quit_key, login_screen_exit_key, AuthAction, AuthMode,
    AuthModeWidget, GitWarningSelection, GitWarningWidget, SignInState, StepState,
};

fn text(l: &StyledLine) -> String {
    l.spans.iter().map(|s| s.content.as_str()).collect()
}

fn key(code: KeyCode) -> KeyEvent {
    KeyEvent::new(code, KeyModifiers::none())
}

#[test]
fn picker_moves_and_starts_login() {
    let mut w = AuthModeWidget::new();
    assert_eq!(w.handle_key_event(key(KeyCode::Char('j'))), AuthAction::Nothing);
    assert_eq!(w.highlighted_mode, AuthMode::ApiKey);
    assert_eq!(w.handle_key_event(key(KeyCode::Enter)), AuthAction::VerifyApiKey);
    w.on_api_key_checked(false);
    assert_eq!(w.sign_in_state, SignInState::EnvVarMissing);
    assert_eq!(w.get_step_state(), StepState::InProgress);
    assert_eq!(w.handle_key_event(key(KeyCode::Enter)), AuthAction::Nothing);
    assert_eq!(w.sign_in_state, SignInState::PickMode);
    assert_eq!(w.handle_key_event(key(KeyCode::Up)), AuthAction::Nothing);
    assert_eq!(w.handle_key_event(key(KeyCode::Enter)), AuthAction::StartChatGptLogin);
    w.on_login_server_started(Ok("https://auth".into()));
    assert_eq!(w.sign_in_state, SignInState::ChatGptContinueInBrowser { auth_url: "https://auth".into() });
    assert_eq!(w.handle_key_event(key(KeyCode::Esc)), AuthAction::CancelLogin);
    assert_eq!(w.sign_in_state, SignInState::PickMode);
    assert_eq!(w.handle_key_event(key(KeyCode::Char('1'))), AuthAction::StartChatGptLogin);
    w.on_login_server_started(Err("port in use".into()));
    assert_eq!(w.error.as_deref(), Some("port in use"));
    let lines = w.pick_mode_lines();
    assert_eq!(text(lines.last().unwrap()), "port in use");
    assert_eq!(lines.last().unwrap().spans[0].fg, Some(Color::Red));
    assert_eq!(w.handle_key_event(key(KeyCode::Char('2'))), AuthAction::VerifyApiKey);
    w.on_api_key_checked(true);
    assert_eq!(w.get_step_state(), StepState::Complete);
    assert_eq!(w.state_lines().iter().map(text).collect::<Vec<_>>(), vec!["✓ Using OPENAI_API_KEY"]);
}

#[test]
fn picker_rows() {
    let w = AuthModeWidget::new();
    let lines = w.pick_mode_lines();
    assert_eq!(
        lines.iter().map(text).collect::<Vec<_>>(),
        vec![
            "> Sign in with ChatGPT to use Codex as part of your paid plan",
            "  or connect an API key for usage-based billing",
            "",
            "> 1. Sign in with ChatGPT",
            "     Usage included with Plus, Pro, and Team plans",
            "  2. Provide your own API key",
            "     Pay for what you use",
            "",
            "  Press Enter to continue",
        ]
    );
    assert_eq!(lines[4].fg, Some(Color::Cyan));
    assert_eq!(lines[6].fg, None);
}

#[test]
fn browser_rows() {
    let lines = AuthModeWidget::continue_in_browser_lines("https://x");
    assert_eq!(lines.len(), 5);
    assert_eq!(text(&lines[2]), "  https://x");
    assert_eq!(AuthModeWidget::continue_in_browser_lines("").len(), 2);
}

#[test]
fn onboarding_steps() {
    assert_eq!(current_steps(&vec![StepState::Complete, StepState::Hidden, StepState::InProgress, StepState::InProgress]), vec![0, 2]);
    assert_eq!(current_steps(&vec![StepState::Hidden, StepState::Complete]), vec![1]);
    assert!(is_onboarding_done(false, &vec![StepState::Complete, StepState::Hidden]));
    assert!(!is_onboarding_done(false, &vec![StepState::Complete, StepState::InProgress]));
    assert!(is_onboarding_done(true, &vec![StepState::InProgress]));
    assert!(is_onboarding_quit_key(key(KeyCode::Char('q'))));
    assert!(is_onboarding_quit_key(KeyEvent::new(KeyCode::Char('d'), KeyModifiers::control())));
    assert!(!is_onboarding_quit_key(key(KeyCode::Char('d'))));
    assert!(!is_onboarding_quit_key(KeyEvent::new_with_kind(KeyCode::Char('q'), KeyModifiers::none(), KeyEventKind::Release)));
}

#[test]
fn git_warning_step() {
    use_git_warning();
}

fn use_git_warning() {
    let mut w = GitWarningWidget::new("/tmp/x".into());
    assert_eq!(w.get_step_state(true), StepState::Hidden);
    assert_eq!(w.get_step_state(false), StepState::InProgress);
    let lines = w.lines(Color::LightBlue);
    assert_eq!(
        lines.iter().map(text).collect::<Vec<_>>(),
        vec![
            "> You are running Codex in /tmp/x. This folder is not version controlled.",
            "",
            "  Do you want to continue?",
            "",
            "> 1. Yes",
            "  2. No",
            "",
            "  Press Enter to continue",
        ]
    );
    assert_eq!(lines[4].spans[1].fg, Some(Color::LightBlue));
    assert!(!w.handle_key_event(key(KeyCode::Char('j'))));
    assert_eq!(w.highlighted, GitWarningSelection::Exit);
    assert!(w.handle_key_event(key(KeyCode::Enter)));
    assert!(!w.handle_key_event(key(KeyCode::Char('1'))));
    assert_eq!(w.selection, Some(GitWarningSelection::Continue));
    assert_eq!(w.get_step_state(false), StepState::Complete);
    assert!(login_screen_exit_key(key(KeyCode::Char('q'))));
    assert!(!login_screen_exit_key(key(KeyCode::Char('x'))));
}
