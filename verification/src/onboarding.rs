//! The onboarding steps: signing in (ChatGPT or an API key), the warning
//! about a folder outside version control, and which steps show. Starting
//! the login server and reading the environment or the repository are the
//! caller's to do: a key asks for them, and their outcome is reported back.
use vstd::prelude::*;
use crate::diff_render::{blank_row, dimmed, line_view, lines_view, mk_span, raw, span_of, LineView, StyledLine};
use crate::history_cell::{blank_line, plain_line, raw_line};
use crate::insert_history::{spans_view, Color, StyledSpan, BOLD, DIM, UNDERLINED};
use crate::key::{KeyCode, KeyEvent};
use crate::text::{chars_of, push_chars};

verus! {

/// How the user signs in.
#[derive(Debug, Clone, Copy, PartialEq, Eq, Structural)]
pub enum AuthMode {
    ChatGPT,
    ApiKey,
}

/// Where the sign-in stands.
#[derive(Debug, Clone, PartialEq, Eq)]
pub enum SignInState {
    PickMode,
    /// The login server runs; the user finishes in the browser at this URL.
    ChatGptContinueInBrowser { auth_url: String },
    ChatGptSuccessMessage,
    ChatGptSuccess,
    EnvVarMissing,
    EnvVarFound,
}

/// Whether an onboarding step is shown, waits for the user, or is done.
#[derive(Debug, Clone, Copy, PartialEq, Eq, Structural)]
pub enum StepState {
    Hidden,
    InProgress,
    Complete,
}

/// What a key asks the caller to do.
#[derive(Debug, Clone, Copy, PartialEq, Eq, Structural)]
pub enum AuthAction {
    Nothing,
    /// Start the ChatGPT login server and report with
    /// `on_login_server_started`.
    StartChatGptLogin,
    /// Look for `OPENAI_API_KEY` and report with `on_api_key_checked`.
    VerifyApiKey,
    /// Shut the running login server down.
    CancelLogin,
}

/// The sign-in step.
pub struct AuthModeWidget {
    pub highlighted_mode: AuthMode,
    pub error: Option<String>,
    pub sign_in_state: SignInState,
}

/// What a key does: the highlighted mode, the state, whether the error is
/// cleared, and the action asked for. Up/`k` and Down/`j` move the
/// highlight; `1` and `2` pick a mode at once; Enter picks the highlighted
/// mode, leaves the missing-key note, or acknowledges the success message;
/// Esc cancels a sign-in in the browser.
pub open spec fn auth_key(mode: AuthMode, state: SignInState, key: KeyEvent) -> (AuthMode, SignInState, bool, AuthAction) {
    let start = (mode, state, true, AuthAction::StartChatGptLogin);
    let verify = (mode, state, false, AuthAction::VerifyApiKey);
    let nothing = (mode, state, false, AuthAction::Nothing);
    match key.code {
        KeyCode::Up => (AuthMode::ChatGPT, state, false, AuthAction::Nothing),
        KeyCode::Char('k') => (AuthMode::ChatGPT, state, false, AuthAction::Nothing),
        KeyCode::Down => (AuthMode::ApiKey, state, false, AuthAction::Nothing),
        KeyCode::Char('j') => (AuthMode::ApiKey, state, false, AuthAction::Nothing),
        KeyCode::Char('1') => start,
        KeyCode::Char('2') => verify,
        KeyCode::Enter => match state {
            SignInState::PickMode => if mode == AuthMode::ChatGPT {
                start
            } else {
                verify
            },
            SignInState::EnvVarMissing => (mode, SignInState::PickMode, false, AuthAction::Nothing),
            SignInState::ChatGptSuccessMessage => (mode, SignInState::ChatGptSuccess, false, AuthAction::Nothing),
            _ => nothing,
        },
        KeyCode::Esc => match state {
            SignInState::ChatGptContinueInBrowser { .. } => (
                mode,
                SignInState::PickMode,
                false,
                AuthAction::CancelLogin,
            ),
            _ => nothing,
        },
        _ => nothing,
    }
}

/// The state of the step: done once signed in or once the key is found.
pub open spec fn auth_step_state(s: SignInState) -> StepState {
    match s {
        SignInState::ChatGptSuccess => StepState::Complete,
        SignInState::EnvVarFound => StepState::Complete,
        _ => StepState::InProgress,
    }
}

/// The two rows of a mode to pick: "N. text" and its description, in cyan
/// when highlighted.
pub open spec fn mode_rows(n: char, text: Seq<char>, description: Seq<char>, selected: bool) -> Seq<LineView> {
    if selected {
        seq![
            plain_line(seq![span_of(seq!['>', ' ', n, '.', ' '], Some(Color::Cyan), DIM), span_of(text, Some(Color::Cyan), 0)]),
            LineView { spans: seq![dimmed(raw("     "@ + description))], fg: Some(Color::Cyan) },
        ]
    } else {
        seq![
            plain_line(seq![raw(seq![' ', ' ', n, '.', ' '] + text)]),
            plain_line(seq![dimmed(raw("     "@ + description))]),
        ]
    }
}

/// The rows of the mode picker, with the error of a failed sign-in under
/// it in red.
pub open spec fn pick_mode_rows(mode: AuthMode, error: Option<Seq<char>>) -> Seq<LineView> {
    seq![
        plain_line(seq![raw("> "@), span_of("Sign in with ChatGPT to use Codex as part of your paid plan"@, None, BOLD)]),
        plain_line(seq![raw("  "@), span_of("or connect an API key for usage-based billing"@, None, BOLD)]),
        blank_row(),
    ] + mode_rows(
        '1',
        "Sign in with ChatGPT"@,
        "Usage included with Plus, Pro, and Team plans"@,
        mode == AuthMode::ChatGPT,
    ) + mode_rows('2', "Provide your own API key"@, "Pay for what you use"@, mode == AuthMode::ApiKey) + seq![
        blank_row(),
        plain_line(seq![dimmed(raw("  Press Enter to continue"@))]),
    ] + match error {
        Some(e) => seq![blank_row(), plain_line(seq![span_of(e, Some(Color::Red), 0)])],
        None => Seq::empty(),
    }
}

/// The rows under the animated "Finish signing in via your browser": the
/// link to open when there is one, and how to cancel.
pub open spec fn continue_in_browser_rows(auth_url: Seq<char>) -> Seq<LineView> {
    seq![blank_row()] + (if auth_url.len() > 0 {
        seq![
            plain_line(seq![raw("  If the link doesn't open automatically, open the following link to authenticate:"@)]),
            plain_line(seq![raw("  "@), span_of(auth_url, Some(Color::Cyan), UNDERLINED)]),
            blank_row(),
        ]
    } else {
        Seq::empty()
    }) + seq![plain_line(seq![dimmed(raw("  Press Esc to cancel"@))])]
}

/// The rows of a note: one line in `fg`.
pub open spec fn note_row(text: Seq<char>, fg: Color) -> LineView {
    LineView { spans: seq![raw(text)], fg: Some(fg) }
}

/// The rows of the step in states other than the picker and the browser.
pub open spec fn state_rows(s: SignInState) -> Seq<LineView> {
    match s {
        SignInState::ChatGptSuccess => seq![note_row("✓ Signed in with your ChatGPT account"@, Color::Green)],
        SignInState::EnvVarFound => seq![note_row("✓ Using OPENAI_API_KEY"@, Color::Green)],
        SignInState::EnvVarMissing => seq![
            note_row("  To use Codex with the OpenAI API, set OPENAI_API_KEY in your environment"@, Color::Cyan),
            blank_row(),
            plain_line(seq![dimmed(raw("  Press Enter to return"@))]),
        ],
        _ => Seq::empty(),
    }
}

pub open spec fn opt_chars(o: Option<String>) -> Option<Seq<char>> {
    match o {
        Some(s) => Some(s@),
        None => None,
    }
}

fn mode_lines(n: char, text: &str, description: &str, selected: bool) -> (r: Vec<StyledLine>)
    ensures
        lines_view(r@) == mode_rows(n, text@, description@, selected),
{
    let mut desc = chars_of("     ");
    push_chars(&mut desc, &chars_of(description));
    let ghost dv = desc@;
    let mut out: Vec<StyledLine> = Vec::new();
    if selected {
        let mut head: Vec<char> = Vec::new();
        head.push('>');
        head.push(' ');
        head.push(n);
        head.push('.');
        head.push(' ');
        let ghost hv = head@;
        let mut s1: Vec<StyledSpan> = Vec::new();
        s1.push(mk_span(head, Some(Color::Cyan), DIM));
        s1.push(mk_span(chars_of(text), Some(Color::Cyan), 0));
        let mut s2: Vec<StyledSpan> = Vec::new();
        s2.push(crate::diff_render::dim_span(mk_span(desc, None, 0)));
        proof {
            assert(hv =~= seq!['>', ' ', n, '.', ' ']);
            assert(spans_view(s1@) =~= seq![span_of(hv, Some(Color::Cyan), DIM), span_of(text@, Some(Color::Cyan), 0)]);
            assert(spans_view(s2@) =~= seq![dimmed(raw(dv))]);
        }
        out.push(StyledLine { spans: s1, fg: None });
        out.push(StyledLine { spans: s2, fg: Some(Color::Cyan) });
    } else {
        let mut head: Vec<char> = Vec::new();
        head.push(' ');
        head.push(' ');
        head.push(n);
        head.push('.');
        head.push(' ');
        push_chars(&mut head, &chars_of(text));
        let ghost hv = head@;
        let mut s2: Vec<StyledSpan> = Vec::new();
        s2.push(crate::diff_render::dim_span(mk_span(desc, None, 0)));
        proof {
            assert(hv =~= seq![' ', ' ', n, '.', ' '] + text@);
            assert(spans_view(s2@) =~= seq![dimmed(raw(dv))]);
        }
        out.push(raw_line(head));
        out.push(StyledLine { spans: s2, fg: None });
    }
    proof {
        assert(lines_view(out@) =~= mode_rows(n, text@, description@, selected));
    }
    out
}

fn bold_line(prefix: &str, text: &str) -> (r: StyledLine)
    ensures
        line_view(r) == plain_line(seq![raw(prefix@), span_of(text@, None, BOLD)]),
{
    let mut s: Vec<StyledSpan> = Vec::new();
    s.push(mk_span(chars_of(prefix), None, 0));
    s.push(mk_span(chars_of(text), None, BOLD));
    proof {
        assert(spans_view(s@) =~= seq![raw(prefix@), span_of(text@, None, BOLD)]);
    }
    StyledLine { spans: s, fg: None }
}

fn dim_line(text: &str) -> (r: StyledLine)
    ensures
        line_view(r) == plain_line(seq![dimmed(raw(text@))]),
{
    let mut s: Vec<StyledSpan> = Vec::new();
    s.push(crate::diff_render::dim_span(mk_span(chars_of(text), None, 0)));
    proof {
        assert(spans_view(s@) =~= seq![dimmed(raw(text@))]);
    }
    StyledLine { spans: s, fg: None }
}

fn note_line(text: &str, fg: Color) -> (r: StyledLine)
    ensures
        line_view(r) == note_row(text@, fg),
{
    let mut s: Vec<StyledSpan> = Vec::new();
    s.push(mk_span(chars_of(text), None, 0));
    proof {
        assert(spans_view(s@) =~= seq![raw(text@)]);
    }
    StyledLine { spans: s, fg: Some(fg) }
}

impl AuthModeWidget {
    /// The step at the picker, ChatGPT highlighted.
    pub fn new() -> (r: Self)
        ensures
            r.highlighted_mode == AuthMode::ChatGPT,
            r.error is None,
            r.sign_in_state == SignInState::PickMode,
    {
        AuthModeWidget { highlighted_mode: AuthMode::ChatGPT, error: None, sign_in_state: SignInState::PickMode }
    }

    /// Act on a key; the action the caller owes.
    pub fn handle_key_event(&mut self, key: KeyEvent) -> (r: AuthAction)
        ensures
            ({
                let (mode, state, clears, action) = auth_key(
                    old(self).highlighted_mode,
                    old(self).sign_in_state,
                    key,
                );
                &&& final(self).highlighted_mode == mode
                &&& final(self).sign_in_state == state
                &&& final(self).error == if clears {
                    None
                } else {
                    old(self).error
                }
                &&& r == action
            }),
    {
        match key.code {
            KeyCode::Up | KeyCode::Char('k') => {
                self.highlighted_mode = AuthMode::ChatGPT;
                AuthAction::Nothing
            },
            KeyCode::Down | KeyCode::Char('j') => {
                self.highlighted_mode = AuthMode::ApiKey;
                AuthAction::Nothing
            },
            KeyCode::Char('1') => {
                self.error = None;
                AuthAction::StartChatGptLogin
            },
            KeyCode::Char('2') => AuthAction::VerifyApiKey,
            KeyCode::Enter => match self.sign_in_state {
                SignInState::PickMode => match self.highlighted_mode {
                    AuthMode::ChatGPT => {
                        self.error = None;
                        AuthAction::StartChatGptLogin
                    },
                    AuthMode::ApiKey => AuthAction::VerifyApiKey,
                },
                SignInState::EnvVarMissing => {
                    self.sign_in_state = SignInState::PickMode;
                    AuthAction::Nothing
                },
                SignInState::ChatGptSuccessMessage => {
                    self.sign_in_state = SignInState::ChatGptSuccess;
                    AuthAction::Nothing
                },
                _ => AuthAction::Nothing,
            },
            KeyCode::Esc => match self.sign_in_state {
                SignInState::ChatGptContinueInBrowser { .. } => {
                    self.sign_in_state = SignInState::PickMode;
                    AuthAction::CancelLogin
                },
                _ => AuthAction::Nothing,
            },
            _ => AuthAction::Nothing,
        }
    }

    /// The login server started (its authentication URL) or failed (the
    /// error, shown under the picker).
    pub fn on_login_server_started(&mut self, result: Result<String, String>)
        ensures
            final(self).highlighted_mode == old(self).highlighted_mode,
            match result {
                Ok(url) => final(self).sign_in_state == (SignInState::ChatGptContinueInBrowser { auth_url: url })
                    && final(self).error == old(self).error,
                Err(e) => final(self).sign_in_state == SignInState::PickMode && final(self).error == Some(e),
            },
    {
        match result {
            Ok(url) => {
                self.sign_in_state = SignInState::ChatGptContinueInBrowser { auth_url: url };
            },
            Err(e) => {
                self.sign_in_state = SignInState::PickMode;
                self.error = Some(e);
            },
        }
    }

    /// Whether `OPENAI_API_KEY` is set.
    pub fn on_api_key_checked(&mut self, present: bool)
        ensures
            final(self).highlighted_mode == old(self).highlighted_mode,
            final(self).error == old(self).error,
            final(self).sign_in_state == if present {
                SignInState::EnvVarFound
            } else {
                SignInState::EnvVarMissing
            },
    {
        if present {
            self.sign_in_state = SignInState::EnvVarFound;
        } else {
            self.sign_in_state = SignInState::EnvVarMissing;
        }
    }

    pub fn get_step_state(&self) -> (r: StepState)
        ensures
            r == auth_step_state(self.sign_in_state),
    {
        match self.sign_in_state {
            SignInState::ChatGptSuccess => StepState::Complete,
            SignInState::EnvVarFound => StepState::Complete,
            _ => StepState::InProgress,
        }
    }

    /// The rows of the mode picker.
    pub fn pick_mode_lines(&self) -> (r: Vec<StyledLine>)
        ensures
            lines_view(r@) == pick_mode_rows(self.highlighted_mode, opt_chars(self.error)),
    {
        let mut out: Vec<StyledLine> = Vec::new();
        out.push(bold_line("> ", "Sign in with ChatGPT to use Codex as part of your paid plan"));
        out.push(bold_line("  ", "or connect an API key for usage-based billing"));
        out.push(blank_line());
        let ghost h3 = lines_view(out@);
        proof {
            assert(h3 =~= seq![
                plain_line(seq![raw("> "@), span_of("Sign in with ChatGPT to use Codex as part of your paid plan"@, None, BOLD)]),
                plain_line(seq![raw("  "@), span_of("or connect an API key for usage-based billing"@, None, BOLD)]),
                blank_row(),
            ]);
        }
        crate::history_cell::push_lines(
            &mut out,
            mode_lines(
                '1',
                "Sign in with ChatGPT",
                "Usage included with Plus, Pro, and Team plans",
                self.highlighted_mode == AuthMode::ChatGPT,
            ),
        );
        crate::history_cell::push_lines(
            &mut out,
            mode_lines('2', "Provide your own API key", "Pay for what you use", self.highlighted_mode == AuthMode::ApiKey),
        );
        let ghost h7 = lines_view(out@);
        out.push(blank_line());
        out.push(dim_line("  Press Enter to continue"));
        let ghost body = lines_view(out@);
        proof {
            assert(h7 =~= h3 + mode_rows(
                '1',
                "Sign in with ChatGPT"@,
                "Usage included with Plus, Pro, and Team plans"@,
                self.highlighted_mode == AuthMode::ChatGPT,
            ) + mode_rows('2', "Provide your own API key"@, "Pay for what you use"@, self.highlighted_mode == AuthMode::ApiKey));
            assert(body =~= h7 + seq![blank_row(), plain_line(seq![dimmed(raw("  Press Enter to continue"@))])]);
        }
        match &self.error {
            Some(e) => {
                out.push(blank_line());
                let mut s: Vec<StyledSpan> = Vec::new();
                s.push(mk_span(chars_of(e.as_str()), Some(Color::Red), 0));
                proof {
                    assert(spans_view(s@) =~= seq![span_of(e@, Some(Color::Red), 0)]);
                }
                out.push(StyledLine { spans: s, fg: None });
            },
            None => {},
        }
        proof {
            assert(lines_view(out@) =~= pick_mode_rows(self.highlighted_mode, opt_chars(self.error)));
        }
        out
    }

    /// The rows under the animated header while signing in in the browser.
    pub fn continue_in_browser_lines(auth_url: &str) -> (r: Vec<StyledLine>)
        ensures
            lines_view(r@) == continue_in_browser_rows(auth_url@),
    {
        let mut out: Vec<StyledLine> = Vec::new();
        out.push(blank_line());
        if auth_url.unicode_len() > 0 {
            out.push(raw_line(chars_of("  If the link doesn't open automatically, open the following link to authenticate:")));
            let mut s: Vec<StyledSpan> = Vec::new();
            s.push(mk_span(chars_of("  "), None, 0));
            s.push(mk_span(chars_of(auth_url), Some(Color::Cyan), UNDERLINED));
            proof {
                assert(spans_view(s@) =~= seq![raw("  "@), span_of(auth_url@, Some(Color::Cyan), UNDERLINED)]);
            }
            out.push(StyledLine { spans: s, fg: None });
            out.push(blank_line());
        }
        out.push(dim_line("  Press Esc to cancel"));
        proof {
            assert(lines_view(out@) =~= continue_in_browser_rows(auth_url@));
        }
        out
    }

    /// The rows of the step once signed in, or after looking for the key.
    pub fn state_lines(&self) -> (r: Vec<StyledLine>)
        ensures
            lines_view(r@) == state_rows(self.sign_in_state),
    {
        let mut out: Vec<StyledLine> = Vec::new();
        match self.sign_in_state {
            SignInState::ChatGptSuccess => {
                out.push(note_line("✓ Signed in with your ChatGPT account", Color::Green));
            },
            SignInState::EnvVarFound => {
                out.push(note_line("✓ Using OPENAI_API_KEY", Color::Green));
            },
            SignInState::EnvVarMissing => {
                out.push(
                    note_line("  To use Codex with the OpenAI API, set OPENAI_API_KEY in your environment", Color::Cyan),
                );
                out.push(blank_line());
                out.push(dim_line("  Press Enter to return"));
            },
            _ => {},
        }
        proof {
            assert(lines_view(out@) =~= state_rows(self.sign_in_state));
        }
        out
    }
}

/// The steps shown: every step that is not hidden, up to and including the
/// first one still in progress.
pub open spec fn shown_steps(states: Seq<StepState>, from: int) -> Seq<int>
    decreases states.len() - from,
{
    if from < 0 || from >= states.len() {
        Seq::empty()
    } else if states[from] == StepState::Hidden {
        shown_steps(states, from + 1)
    } else if states[from] == StepState::InProgress {
        seq![from]
    } else {
        seq![from] + shown_steps(states, from + 1)
    }
}

/// The indices of the steps shown, in order.
pub fn current_steps(states: &Vec<StepState>) -> (r: Vec<usize>)
    ensures
        r@.map_values(|i: usize| i as int) == shown_steps(states@, 0),
{
    let mut out: Vec<usize> = Vec::new();
    let mut i: usize = 0;
    while i < states.len()
        invariant
            i <= states@.len(),
            out@.map_values(|k: usize| k as int) + shown_steps(states@, i as int) == shown_steps(states@, 0),
        decreases states.len() - i,
    {
        match states[i] {
            StepState::Hidden => {},
            StepState::Complete => {
                let ghost before = out@.map_values(|k: usize| k as int);
                out.push(i);
                proof {
                    assert(out@.map_values(|k: usize| k as int) =~= before.push(i as int));
                    assert(before + shown_steps(states@, i as int) =~= before.push(i as int) + shown_steps(
                        states@,
                        i + 1,
                    ));
                }
            },
            StepState::InProgress => {
                let ghost before = out@.map_values(|k: usize| k as int);
                out.push(i);
                proof {
                    assert(out@.map_values(|k: usize| k as int) =~= before.push(i as int));
                    assert(before + shown_steps(states@, i as int) =~= out@.map_values(|k: usize| k as int));
                }
                return out;
            },
        }
        i += 1;
    }
    proof {
        assert(out@.map_values(|k: usize| k as int) + shown_steps(states@, i as int) =~= out@.map_values(
            |k: usize| k as int,
        ));
    }
    out
}

/// Onboarding is over when the user quit or no step is in progress.
pub open spec fn onboarding_done(quit: bool, states: Seq<StepState>) -> bool {
    quit || !(exists|i: int| 0 <= i < states.len() && states[i] == StepState::InProgress)
}

pub fn is_onboarding_done(quit: bool, states: &Vec<StepState>) -> (r: bool)
    ensures
        r == onboarding_done(quit, states@),
{
    if quit {
        return true;
    }
    let mut i: usize = 0;
    while i < states.len()
        invariant
            !quit,
            i <= states@.len(),
            forall|k: int| 0 <= k < i ==> states@[k] != StepState::InProgress,
        decreases states.len() - i,
    {
        if states[i] == StepState::InProgress {
            proof {
                let k = i as int;
                assert(0 <= k < states@.len() && states@[k] == StepState::InProgress);
                assert(exists|j: int| 0 <= j < states@.len() && states@[j] == StepState::InProgress);
                assert(!onboarding_done(quit, states@));
            }
            return false;
        }
        i += 1;
    }
    true
}

/// Control-D, Control-C or `q`, pressed, end onboarding; other keys go to
/// the last step shown.
pub open spec fn onboarding_quit_key(key: KeyEvent) -> bool {
    let press = key.kind == crate::key::KeyEventKind::Press;
    let control_only = key.modifiers.control && !key.modifiers.shift && !key.modifiers.alt;
    press && (key.code == KeyCode::Char('q') || control_only && (key.code == KeyCode::Char('d') || key.code
        == KeyCode::Char('c')))
}

pub fn is_onboarding_quit_key(key: KeyEvent) -> (r: bool)
    ensures
        r == onboarding_quit_key(key),
{
    let press = key.kind == crate::key::KeyEventKind::Press;
    let control_only = key.modifiers.control && !key.modifiers.shift && !key.modifiers.alt;
    press && (key.code == KeyCode::Char('q') || control_only && (key.code == KeyCode::Char('d') || key.code
        == KeyCode::Char('c')))
}

/// The answer to the warning about a folder outside version control.
#[derive(Debug, Clone, Copy, PartialEq, Eq, Structural)]
pub enum GitWarningSelection {
    Continue,
    Exit,
}

/// The warning step shown when the folder is not a Git repository.
pub struct GitWarningWidget {
    pub cwd: String,
    pub selection: Option<GitWarningSelection>,
    pub highlighted: GitWarningSelection,
}

/// What a key does to the warning: the highlighted answer, the answer
/// given, and whether leaving was asked for. Up/`k` and Down/`j` move the
/// highlight; `1` continues and `2` leaves; Enter takes the highlighted one.
pub open spec fn git_warning_key(
    highlighted: GitWarningSelection,
    selection: Option<GitWarningSelection>,
    key: KeyEvent,
) -> (GitWarningSelection, Option<GitWarningSelection>, bool) {
    let cont = (highlighted, Some(GitWarningSelection::Continue), false);
    let quit = (GitWarningSelection::Exit, selection, true);
    match key.code {
        KeyCode::Up => (GitWarningSelection::Continue, selection, false),
        KeyCode::Char('k') => (GitWarningSelection::Continue, selection, false),
        KeyCode::Down => (GitWarningSelection::Exit, selection, false),
        KeyCode::Char('j') => (GitWarningSelection::Exit, selection, false),
        KeyCode::Char('1') => cont,
        KeyCode::Char('2') => quit,
        KeyCode::Enter => if highlighted == GitWarningSelection::Continue {
            cont
        } else {
            quit
        },
        _ => (highlighted, selection, false),
    }
}

/// The warning is hidden inside a repository, done once answered.
pub open spec fn git_warning_state(is_git_repo: bool, selection: Option<GitWarningSelection>) -> StepState {
    if is_git_repo {
        StepState::Hidden
    } else if selection is Some {
        StepState::Complete
    } else {
        StepState::InProgress
    }
}

/// The rows of one answer: "N. text", in `color` when highlighted.
pub open spec fn warning_option_row(n: char, text: Seq<char>, selected: bool, color: Color) -> LineView {
    if selected {
        plain_line(seq![span_of(seq!['>', ' ', n, '.', ' '], Some(color), DIM), span_of(text, Some(color), 0)])
    } else {
        plain_line(seq![raw(seq![' ', ' ', n, '.', ' '] + text)])
    }
}

/// The rows of the warning; the highlighted answer is drawn in `color`.
pub open spec fn git_warning_rows(cwd: Seq<char>, highlighted: GitWarningSelection, color: Color) -> Seq<LineView> {
    seq![
        plain_line(
            seq![
                raw("> "@),
                raw("You are running Codex in "@),
                span_of(cwd, None, BOLD),
                raw(". This folder is not version controlled."@),
            ],
        ),
        blank_row(),
        plain_line(seq![raw("  Do you want to continue?"@)]),
        blank_row(),
        warning_option_row('1', "Yes"@, highlighted == GitWarningSelection::Continue, color),
        warning_option_row('2', "No"@, highlighted == GitWarningSelection::Exit, color),
        blank_row(),
        plain_line(seq![dimmed(raw("  Press Enter to continue"@))]),
    ]
}

fn warning_option_line(n: char, text: &str, selected: bool, color: Color) -> (r: StyledLine)
    ensures
        line_view(r) == warning_option_row(n, text@, selected, color),
{
    let mut head: Vec<char> = Vec::new();
    if selected {
        head.push('>');
    } else {
        head.push(' ');
    }
    head.push(' ');
    head.push(n);
    head.push('.');
    head.push(' ');
    let mut spans: Vec<StyledSpan> = Vec::new();
    if selected {
        let ghost hv = head@;
        spans.push(mk_span(head, Some(color), DIM));
        spans.push(mk_span(chars_of(text), Some(color), 0));
        proof {
            assert(hv =~= seq!['>', ' ', n, '.', ' ']);
            assert(spans_view(spans@) =~= warning_option_row(n, text@, selected, color).spans);
        }
    } else {
        push_chars(&mut head, &chars_of(text));
        let ghost hv = head@;
        spans.push(mk_span(head, None, 0));
        proof {
            assert(hv =~= seq![' ', ' ', n, '.', ' '] + text@);
            assert(spans_view(spans@) =~= warning_option_row(n, text@, selected, color).spans);
        }
    }
    StyledLine { spans, fg: None }
}

impl GitWarningWidget {
    /// The warning for `cwd`, "Continue" highlighted.
    pub fn new(cwd: String) -> (r: Self)
        ensures
            r.cwd == cwd,
            r.selection is None,
            r.highlighted == GitWarningSelection::Continue,
    {
        GitWarningWidget { cwd, selection: None, highlighted: GitWarningSelection::Continue }
    }

    /// Act on a key; whether the user asked to leave.
    pub fn handle_key_event(&mut self, key: KeyEvent) -> (exit: bool)
        ensures
            (final(self).highlighted, final(self).selection, exit) == git_warning_key(
                old(self).highlighted,
                old(self).selection,
                key,
            ),
            final(self).cwd == old(self).cwd,
    {
        match key.code {
            KeyCode::Up | KeyCode::Char('k') => {
                self.highlighted = GitWarningSelection::Continue;
                false
            },
            KeyCode::Down | KeyCode::Char('j') => {
                self.highlighted = GitWarningSelection::Exit;
                false
            },
            KeyCode::Char('1') => {
                self.selection = Some(GitWarningSelection::Continue);
                false
            },
            KeyCode::Char('2') => {
                self.highlighted = GitWarningSelection::Exit;
                true
            },
            KeyCode::Enter => match self.highlighted {
                GitWarningSelection::Continue => {
                    self.selection = Some(GitWarningSelection::Continue);
                    false
                },
                GitWarningSelection::Exit => {
                    self.highlighted = GitWarningSelection::Exit;
                    true
                },
            },
            _ => false,
        }
    }

    /// The state of the step, given whether the folder is a repository.
    pub fn get_step_state(&self, is_git_repo: bool) -> (r: StepState)
        ensures
            r == git_warning_state(is_git_repo, self.selection),
    {
        if is_git_repo {
            StepState::Hidden
        } else {
            match self.selection {
                Some(_) => StepState::Complete,
                None => StepState::InProgress,
            }
        }
    }

    /// The rows of the warning; the highlighted answer in `color`.
    pub fn lines(&self, color: Color) -> (r: Vec<StyledLine>)
        ensures
            lines_view(r@) == git_warning_rows(self.cwd@, self.highlighted, color),
    {
        let mut out: Vec<StyledLine> = Vec::new();
        let mut s: Vec<StyledSpan> = Vec::new();
        s.push(mk_span(chars_of("> "), None, 0));
        s.push(mk_span(chars_of("You are running Codex in "), None, 0));
        s.push(mk_span(chars_of(self.cwd.as_str()), None, BOLD));
        s.push(mk_span(chars_of(". This folder is not version controlled."), None, 0));
        proof {
            assert(spans_view(s@) =~= git_warning_rows(self.cwd@, self.highlighted, color)[0].spans);
        }
        out.push(StyledLine { spans: s, fg: None });
        out.push(blank_line());
        out.push(raw_line(chars_of("  Do you want to continue?")));
        out.push(blank_line());
        out.push(warning_option_line('1', "Yes", self.highlighted == GitWarningSelection::Continue, color));
        out.push(warning_option_line('2', "No", self.highlighted == GitWarningSelection::Exit, color));
        out.push(blank_line());
        out.push(dim_line("  Press Enter to continue"));
        proof {
            assert(lines_view(out@) =~= git_warning_rows(self.cwd@, self.highlighted, color));
        }
        out
    }
}

/// The login screen leaves on `q`.
pub fn login_screen_exit_key(key: KeyEvent) -> (r: bool)
    ensures
        r == (key.code == KeyCode::Char('q')),
{
    key.code == KeyCode::Char('q')
}

} // verus!
