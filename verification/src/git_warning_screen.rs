//! The warning shown when Codex starts outside a Git repository: it holds
//! all input until the user decides to continue or quit.
use vstd::prelude::*;
use crate::key::{KeyCode, KeyEvent};

verus! {

/// The warning text.
pub const NO_GIT_ERROR: &'static str = "We recommend running codex inside a git repository. This helps ensure that changes can be tracked and easily rolled back if necessary. Do you wish to proceed?";

/// What a key press on the warning screen decides.
#[derive(Debug, Clone, Copy, PartialEq, Eq, Structural)]
pub enum GitWarningOutcome {
    /// Continue to the chat.
    Continue,
    /// Quit the application.
    Quit,
    /// Stay on the warning screen.
    Pending,
}

/// The outcome of a key: `y`/`Y` continue, `n`, `q` and Esc quit, any
/// other key changes nothing.
pub open spec fn git_warning_outcome(code: KeyCode) -> GitWarningOutcome {
    match code {
        KeyCode::Char(c) => if c == 'y' || c == 'Y' {
            GitWarningOutcome::Continue
        } else if c == 'n' || c == 'q' {
            GitWarningOutcome::Quit
        } else {
            GitWarningOutcome::Pending
        },
        KeyCode::Esc => GitWarningOutcome::Quit,
        _ => GitWarningOutcome::Pending,
    }
}

pub struct GitWarningScreen;

impl GitWarningScreen {
    pub fn new() -> (r: Self) {
        GitWarningScreen
    }

    /// Decide what a key press means.
    pub fn handle_key_event(&self, key_event: KeyEvent) -> (r: GitWarningOutcome)
        ensures
            r == git_warning_outcome(key_event.code),
    {
        match key_event.code {
            KeyCode::Char(c) => {
                if c == 'y' || c == 'Y' {
                    GitWarningOutcome::Continue
                } else if c == 'n' || c == 'q' {
                    GitWarningOutcome::Quit
                } else {
                    GitWarningOutcome::Pending
                }
            },
            KeyCode::Esc => GitWarningOutcome::Quit,
            _ => GitWarningOutcome::Pending,
        }
    }
}

} // verus!
