//! What to do when the terminal session resumes after being suspended
//! (Ctrl+Z): the request is left in a shared cell by the input task and
//! taken by the drawing loop.
use std::sync::atomic::AtomicU8;
use std::sync::atomic::Ordering;
use vstd::prelude::*;
use crate::key::{KeyCode, KeyEvent, KeyEventKind};

verus! {

/// What the resumed session must restore.
#[derive(Debug, Clone, Copy, PartialEq, Eq, Structural)]
pub enum ResumeAction {
    Nothing,
    /// Realign the inline viewport to the cursor.
    RealignInline,
    /// Re-enter the alternate screen.
    RestoreAlt,
}

/// The code stored in the shared cell for an action.
pub open spec fn resume_code(a: ResumeAction) -> u8 {
    match a {
        ResumeAction::Nothing => 0,
        ResumeAction::RealignInline => 1,
        ResumeAction::RestoreAlt => 2,
    }
}

/// The action a stored code stands for; unknown codes mean none.
pub open spec fn resume_action_of(code: u8) -> ResumeAction {
    if code == 1 {
        ResumeAction::RealignInline
    } else if code == 2 {
        ResumeAction::RestoreAlt
    } else {
        ResumeAction::Nothing
    }
}

/// The code of an action.
pub fn resume_action_code(a: ResumeAction) -> (r: u8)
    ensures
        r == resume_code(a),
{
    match a {
        ResumeAction::Nothing => 0,
        ResumeAction::RealignInline => 1,
        ResumeAction::RestoreAlt => 2,
    }
}

/// Decode a stored code.
pub fn resume_action_from_code(code: u8) -> (r: ResumeAction)
    ensures
        r == resume_action_of(code),
{
    if code == 1 {
        ResumeAction::RealignInline
    } else if code == 2 {
        ResumeAction::RestoreAlt
    } else {
        ResumeAction::Nothing
    }
}

/// Decoding a stored action gives it back.
pub proof fn law_resume_code_round_trip(a: ResumeAction)
    ensures
        resume_action_of(resume_code(a)) == a,
{
}

/// Take the pending action, leaving none behind. The cell is shared with
/// the input task, so what it held is known only as the code decoded by
/// `resume_action_from_code`.
pub fn take_resume_action(pending: &AtomicU8) -> (r: ResumeAction) {
    let code = pending.swap(0, Ordering::Relaxed);
    resume_action_from_code(code)
}

/// What a key read from the terminal means before the widgets see it.
#[derive(Debug, Clone, Copy, PartialEq, Eq, Structural)]
pub enum KeyIntent {
    /// Control-V: attach an image from the clipboard, or, when there is
    /// none, pass the key on.
    PasteImage,
    /// Control-Z: suspend the process, then restore as the action says.
    Suspend(ResumeAction),
    /// Any other key, for the widgets.
    Key,
}

/// Control-V and Control-Z, pressed, are the terminal's: the first pastes
/// an image, the second suspends (to come back to the alternate screen
/// when it was showing, else to realign the inline viewport).
pub open spec fn key_intent_spec(key: KeyEvent, alt_screen_active: bool) -> KeyIntent {
    let ctrl_press = key.kind == KeyEventKind::Press && key.modifiers.control && !key.modifiers.shift
        && !key.modifiers.alt;
    if ctrl_press && key.code == KeyCode::Char('v') {
        KeyIntent::PasteImage
    } else if ctrl_press && key.code == KeyCode::Char('z') {
        KeyIntent::Suspend(
            if alt_screen_active {
                ResumeAction::RestoreAlt
            } else {
                ResumeAction::RealignInline
            },
        )
    } else {
        KeyIntent::Key
    }
}

/// What a key read from the terminal means.
pub fn key_intent(key: KeyEvent, alt_screen_active: bool) -> (r: KeyIntent)
    ensures
        r == key_intent_spec(key, alt_screen_active),
{
    let ctrl_press = key.kind == KeyEventKind::Press && key.modifiers.control && !key.modifiers.shift
        && !key.modifiers.alt;
    if ctrl_press && key.code == KeyCode::Char('v') {
        KeyIntent::PasteImage
    } else if ctrl_press && key.code == KeyCode::Char('z') {
        KeyIntent::Suspend(
            if alt_screen_active {
                ResumeAction::RestoreAlt
            } else {
                ResumeAction::RealignInline
            },
        )
    } else {
        KeyIntent::Key
    }
}

} // verus!
