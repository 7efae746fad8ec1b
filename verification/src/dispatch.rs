//! The application's decisions on input: what a slash command asks for,
//! where a key goes, and what a finished `/diff` shows.
use vstd::prelude::*;
use crate::key::{KeyCode, KeyEvent, KeyEventKind};
use crate::history_cell::SandboxKind;
use crate::slash_command::SlashCommand;
use crate::text::{chars_of, push_chars, string_from};

verus! {

/// What a slash command asks the application to do.
#[derive(Debug, Clone, PartialEq, Eq)]
pub enum CommandAction {
    /// Start a new chat.
    NewSession,
    /// Send the prompt that asks for an AGENTS.md file.
    SubmitInitPrompt,
    /// Forget the token usage and ask for the conversation to be compacted.
    Compact,
    OpenModelPopup,
    OpenApprovalsPopup,
    /// Leave the application.
    Exit,
    /// Log out, then leave.
    LogoutAndExit,
    /// Compute the Git diff and show it when it is ready.
    ComputeDiff,
    /// Insert this text into the composer.
    InsertText(String),
    ShowStatus,
    ShowMcpTools,
}

/// What each command asks for.
pub open spec fn command_action_matches(cmd: SlashCommand, a: CommandAction) -> bool {
    match cmd {
        SlashCommand::New => a == CommandAction::NewSession,
        SlashCommand::Init => a == CommandAction::SubmitInitPrompt,
        SlashCommand::Compact => a == CommandAction::Compact,
        SlashCommand::Model => a == CommandAction::OpenModelPopup,
        SlashCommand::Approvals => a == CommandAction::OpenApprovalsPopup,
        SlashCommand::Quit => a == CommandAction::Exit,
        SlashCommand::Logout => a == CommandAction::LogoutAndExit,
        SlashCommand::Diff => a == CommandAction::ComputeDiff,
        SlashCommand::Mention => a matches CommandAction::InsertText(t) && t@ == "@"@,
        SlashCommand::Status => a == CommandAction::ShowStatus,
        SlashCommand::Mcp => a == CommandAction::ShowMcpTools,
    }
}

/// What a slash command asks the application to do.
pub fn command_action(cmd: SlashCommand) -> (r: CommandAction)
    ensures
        command_action_matches(cmd, r),
{
    match cmd {
        SlashCommand::New => CommandAction::NewSession,
        SlashCommand::Init => CommandAction::SubmitInitPrompt,
        SlashCommand::Compact => CommandAction::Compact,
        SlashCommand::Model => CommandAction::OpenModelPopup,
        SlashCommand::Approvals => CommandAction::OpenApprovalsPopup,
        SlashCommand::Quit => CommandAction::Exit,
        SlashCommand::Logout => CommandAction::LogoutAndExit,
        SlashCommand::Diff => CommandAction::ComputeDiff,
        SlashCommand::Mention => CommandAction::InsertText(String::from_str("@")),
        SlashCommand::Status => CommandAction::ShowStatus,
        SlashCommand::Mcp => CommandAction::ShowMcpTools,
    }
}

/// Where the application sends a key.
#[derive(Debug, Clone, Copy, PartialEq, Eq, Structural)]
pub enum KeyRoute {
    /// Control-C: interrupt, or quit when pressed twice.
    CtrlC,
    /// Control-D on an empty composer: leave.
    ExitRequest,
    /// To the chat widget.
    ToWidget,
    /// Key releases are ignored.
    Ignore,
}

/// Where a key goes: Control-C and (on an empty composer) Control-D are the
/// application's when pressed; other presses and repeats go to the chat
/// widget; releases go nowhere.
pub open spec fn key_route(key: KeyEvent, composer_is_empty: bool) -> KeyRoute {
    let control_only = key.modifiers.control && !key.modifiers.shift && !key.modifiers.alt;
    let press = key.kind == KeyEventKind::Press;
    if press && control_only && key.code == KeyCode::Char('c') {
        KeyRoute::CtrlC
    } else if press && control_only && key.code == KeyCode::Char('d') && composer_is_empty {
        KeyRoute::ExitRequest
    } else if press || key.kind == KeyEventKind::Repeat {
        KeyRoute::ToWidget
    } else {
        KeyRoute::Ignore
    }
}

/// Where a key goes.
pub fn route_key(key: KeyEvent, composer_is_empty: bool) -> (r: KeyRoute)
    ensures
        r == key_route(key, composer_is_empty),
{
    let control_only = key.modifiers.control && !key.modifiers.shift && !key.modifiers.alt;
    let press = key.kind == KeyEventKind::Press;
    if press && control_only && key.code == KeyCode::Char('c') {
        KeyRoute::CtrlC
    } else if press && control_only && key.code == KeyCode::Char('d') && composer_is_empty {
        KeyRoute::ExitRequest
    } else if press || key.kind == KeyEventKind::Repeat {
        KeyRoute::ToWidget
    } else {
        KeyRoute::Ignore
    }
}

/// What a finished `/diff` shows: the diff inside a repository, a note
/// outside one, or the error.
pub open spec fn diff_result(r: Result<(bool, Seq<char>), Seq<char>>) -> Seq<char> {
    match r {
        Ok((inside, diff)) => if inside {
            diff
        } else {
            "`/diff` — _not inside a git repository_"@
        },
        Err(e) => "Failed to compute diff: "@ + e,
    }
}

/// What a finished `/diff` shows, given the diff computation's result (its
/// error as text).
pub fn diff_result_text(result: Result<(bool, String), String>) -> (r: String)
    ensures
        r@ == diff_result(
            match result {
                Ok((inside, diff)) => Ok((inside, diff@)),
                Err(e) => Err(e@),
            },
        ),
{
    match result {
        Ok((inside, diff)) => {
            if inside {
                diff
            } else {
                String::from_str("`/diff` — _not inside a git repository_")
            }
        },
        Err(e) => {
            let mut v = chars_of("Failed to compute diff: ");
            let c = chars_of(e.as_str());
            push_chars(&mut v, &c);
            string_from(&v)
        },
    }
}

/// Many terminals send a pasted newline as a carriage return: every `\r`
/// of a paste becomes `\n`.
pub open spec fn normalize_paste(s: Seq<char>) -> Seq<char> {
    s.map_values(|c: char| if c == '\r' { '\n' } else { c })
}

/// A paste with its carriage returns turned into newlines.
pub fn normalize_pasted(pasted: &str) -> (r: String)
    ensures
        r@ == normalize_paste(pasted@),
{
    let c = chars_of(pasted);
    let mut out: Vec<char> = Vec::new();
    let mut i: usize = 0;
    while i < c.len()
        invariant
            i <= c@.len(),
            out@ == normalize_paste(c@.take(i as int)),
        decreases c.len() - i,
    {
        let ch = if c[i] == '\r' {
            '\n'
        } else {
            c[i]
        };
        out.push(ch);
        proof {
            assert(normalize_paste(c@.take(i + 1)) =~= normalize_paste(c@.take(i as int)).push(ch));
        }
        i += 1;
    }
    proof {
        assert(c@.take(c@.len() as int) =~= c@);
    }
    string_from(&out)
}

/// What Control-C does in the chat.
#[derive(Debug, Clone, Copy, PartialEq, Eq, Structural)]
pub enum CtrlCAction {
    /// A modal took it (and the quit hint shows).
    HandledByModal,
    /// Interrupt the running task.
    InterruptTask,
    /// Shut the session down: the second press in a row.
    Shutdown,
    /// Show "Ctrl+C again to quit".
    ShowQuitHint,
}

/// Control-C goes to a modal first; otherwise it interrupts a running task,
/// or quits when the quit hint already shows, or shows the hint.
pub open spec fn ctrl_c_action(modal_handled: bool, task_running: bool, quit_hint_visible: bool) -> CtrlCAction {
    if modal_handled {
        CtrlCAction::HandledByModal
    } else if task_running {
        CtrlCAction::InterruptTask
    } else if quit_hint_visible {
        CtrlCAction::Shutdown
    } else {
        CtrlCAction::ShowQuitHint
    }
}

/// What Control-C does, and whether the press counts as handled (it does
/// for a modal and for the quitting press).
pub fn on_ctrl_c(modal_handled: bool, task_running: bool, quit_hint_visible: bool) -> (r: (CtrlCAction, bool))
    ensures
        r.0 == ctrl_c_action(modal_handled, task_running, quit_hint_visible),
        r.1 == (r.0 == CtrlCAction::HandledByModal || r.0 == CtrlCAction::Shutdown),
{
    if modal_handled {
        (CtrlCAction::HandledByModal, true)
    } else if task_running {
        (CtrlCAction::InterruptTask, false)
    } else if quit_hint_visible {
        (CtrlCAction::Shutdown, true)
    } else {
        (CtrlCAction::ShowQuitHint, false)
    }
}

/// With nothing running and no modal, Control-C pressed twice quits: the
/// first press shows the hint, and with the hint showing the second quits.
pub proof fn law_ctrl_c_twice_quits()
    ensures
        ctrl_c_action(false, false, false) == CtrlCAction::ShowQuitHint,
        ctrl_c_action(false, false, true) == CtrlCAction::Shutdown,
{
}

/// The login screen is shown when the model provider needs sign-in and
/// reading the saved credentials found none or failed.
pub open spec fn login_screen_needed(requires_auth: bool, auth: Option<Result<bool, Seq<char>>>) -> bool {
    requires_auth && match auth {
        Some(Ok(found)) => !found,
        _ => true,
    }
}

/// Whether to show the login screen, given whether the provider needs
/// sign-in and, when it does, what reading the saved credentials gave
/// (whether any were found, or the error).
pub fn should_show_login_screen(requires_auth: bool, auth: Option<Result<bool, String>>) -> (r: bool)
    ensures
        r == login_screen_needed(
            requires_auth,
            match auth {
                Some(Ok(f)) => Some(Ok(f)),
                Some(Err(e)) => Some(Err(e@)),
                None => None,
            },
        ),
{
    if requires_auth {
        match auth {
            Some(Ok(found)) => !found,
            _ => true,
        }
    } else {
        false
    }
}

/// When the agent asks the user before running a command.
#[derive(Debug, Clone, Copy, PartialEq, Eq, Structural)]
pub enum AskForApproval {
    /// Ask unless the command is known to be safe.
    UnlessTrusted,
    /// Ask only when a sandboxed command fails.
    OnFailure,
    /// Ask when the model requests it.
    OnRequest,
    /// Never ask.
    Never,
}

/// The sandbox and approval policy a session starts with: `--full-auto`
/// means a writable workspace and asking on failure; otherwise bypassing
/// approvals and sandbox means full access and never asking; otherwise the
/// policies given on the command line, if any.
pub open spec fn session_policies(
    full_auto: bool,
    dangerously_bypass_approvals_and_sandbox: bool,
    sandbox_mode: Option<SandboxKind>,
    approval_policy: Option<AskForApproval>,
) -> (Option<SandboxKind>, Option<AskForApproval>) {
    if full_auto {
        (Some(SandboxKind::WorkspaceWrite), Some(AskForApproval::OnFailure))
    } else if dangerously_bypass_approvals_and_sandbox {
        (Some(SandboxKind::DangerFullAccess), Some(AskForApproval::Never))
    } else {
        (sandbox_mode, approval_policy)
    }
}

/// The sandbox mode and approval policy to configure the session with.
pub fn sandbox_and_approval(
    full_auto: bool,
    dangerously_bypass_approvals_and_sandbox: bool,
    sandbox_mode: Option<SandboxKind>,
    approval_policy: Option<AskForApproval>,
) -> (r: (Option<SandboxKind>, Option<AskForApproval>))
    ensures
        r == session_policies(full_auto, dangerously_bypass_approvals_and_sandbox, sandbox_mode, approval_policy),
{
    if full_auto {
        (Some(SandboxKind::WorkspaceWrite), Some(AskForApproval::OnFailure))
    } else if dangerously_bypass_approvals_and_sandbox {
        (Some(SandboxKind::DangerFullAccess), Some(AskForApproval::Never))
    } else {
        (sandbox_mode, approval_policy)
    }
}

} // verus!
