use codex_tui::dispatch::{sandbox_and_approval, AskForApproval};
use codex_tui::history_cell::SandboxKind;
use codex_tui::dispatch::{
    command_action, diff_result_text, normalize_pasted, on_ctrl_c, route_key, should_show_login_screen, CommandAction,
    CtrlCAction, KeyRoute,
};
use codex_tui::key::{KeyCode, KeyEvent, KeyEventKind, KeyModifiers};
use codex_tui::slash_command::SlashCommand;

#[test]
fn commands_map_to_actions() {
    assert_eq!(command_action(SlashCommand::Mention), CommandAction::InsertText("@".into()));
    assert_eq!(command_action(SlashCommand::Quit), CommandAction::Exit);
    assert_eq!(command_action(SlashCommand::Logout), CommandAction::LogoutAndExit);
    assert_eq!(command_action(SlashCommand::Diff), CommandAction::ComputeDiff);
    assert_eq!(command_action(SlashCommand::Compact), CommandAction::Compact);
    assert_eq!(command_action(SlashCommand::Init), CommandAction::SubmitInitPrompt);
}

#[test]
fn keys_are_routed() {
    let ctrl = KeyModifiers::control();
    assert_eq!(route_key(KeyEvent::new(KeyCode::Char('c'), ctrl), false), KeyRoute::CtrlC);
    assert_eq!(route_key(KeyEvent::new(KeyCode::Char('d'), ctrl), true), KeyRoute::ExitRequest);
    assert_eq!(route_key(KeyEvent::new(KeyCode::Char('d'), ctrl), false), KeyRoute::ToWidget);
    assert_eq!(
        route_key(KeyEvent::new_with_kind(KeyCode::Char('a'), KeyModifiers::none(), KeyEventKind::Repeat), false),
        KeyRoute::ToWidget
    );
    assert_eq!(
        route_key(KeyEvent::new_with_kind(KeyCode::Char('c'), ctrl, KeyEventKind::Release), false),
        KeyRoute::Ignore
    );
}

#[test]
fn diff_results_are_described() {
    assert_eq!(diff_result_text(Ok((true, "D".into()))), "D");
    assert_eq!(diff_result_text(Ok((false, String::new()))), "`/diff` — _not inside a git repository_");
    assert_eq!(diff_result_text(Err("no git".into())), "Failed to compute diff: no git");
}

#[test]
fn pasted_carriage_returns_become_newlines() {
    assert_eq!(normalize_pasted("a\rb\r\nc"), "a\nb\n\nc");
}

#[test]
fn ctrl_c_escalates() {
    use_ctrl_c();
}

fn use_ctrl_c() {
    assert_eq!(on_ctrl_c(true, true, false), (CtrlCAction::HandledByModal, true));
    assert_eq!(on_ctrl_c(false, true, true), (CtrlCAction::InterruptTask, false));
    assert_eq!(on_ctrl_c(false, false, false), (CtrlCAction::ShowQuitHint, false));
    assert_eq!(on_ctrl_c(false, false, true), (CtrlCAction::Shutdown, true));
}

#[test]
fn login_screen_decision() {
    assert!(!should_show_login_screen(false, None));
    assert!(should_show_login_screen(true, Some(Ok(false))));
    assert!(!should_show_login_screen(true, Some(Ok(true))));
    assert!(should_show_login_screen(true, Some(Err("bad json".into()))));
}

#[test]
fn full_auto_and_bypass_set_the_session_policies() {
    assert_eq!(
        sandbox_and_approval(true, true, Some(SandboxKind::ReadOnly), Some(AskForApproval::Never)),
        (Some(SandboxKind::WorkspaceWrite), Some(AskForApproval::OnFailure))
    );
    assert_eq!(
        sandbox_and_approval(false, true, Some(SandboxKind::ReadOnly), None),
        (Some(SandboxKind::DangerFullAccess), Some(AskForApproval::Never))
    );
    assert_eq!(
        sandbox_and_approval(false, false, Some(SandboxKind::ReadOnly), Some(AskForApproval::OnRequest)),
        (Some(SandboxKind::ReadOnly), Some(AskForApproval::OnRequest))
    );
    assert_eq!(sandbox_and_approval(false, false, None, None), (None, None));
}
