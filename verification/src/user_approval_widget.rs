//! A modal that asks the user to approve or deny a command or a patch that
//! the agent wants to run, driven by the keyboard: a list of options, or a
//! line of feedback typed into a `tui_input::Input`.
use vstd::prelude::*;
use crate::diff_render::{blank_row, line_view, lines_view, raw, span_of, LineView, StyledLine};
use crate::history_cell::{blank_line, command_display, plain_line, raw_line, styled_line};
use crate::insert_history::{spans_view, Color, StyledSpan, BOLD, DIM, ITALIC};
use crate::key::{KeyCode, KeyEvent};
use crate::text::{chars_of, push_chars, string_from};

verus! {

#[verifier::external_type_specification]
#[verifier::external_body]
pub struct ExInput(tui_input::Input);

#[verifier::external_type_specification]
#[verifier::external_body]
pub struct ExEvent(crossterm::event::Event);

/// The text held by an input line.
pub uninterp spec fn input_value(i: tui_input::Input) -> Seq<char>;

/// `Input::default()`: an input line holding no text (its derived
/// `Default` starts from an empty `String`).
#[verifier::external_body]
fn new_input() -> (r: tui_input::Input)
    ensures
        input_value(r) == Seq::<char>::empty(),
{
    tui_input::Input::default()
}

/// `EventHandler::handle_event` of tui-input's crossterm backend: edits the
/// line as its key bindings say. What the edit is, is not stated here.
#[verifier::external_body]
fn input_handle_event(input: &mut tui_input::Input, event: &crossterm::event::Event) {
    tui_input::backend::crossterm::EventHandler::handle_event(input, event);
}

/// `Input::value`: the text of the line.
#[verifier::external_body]
fn input_text(input: &tui_input::Input) -> (r: String)
    ensures
        r@ == input_value(*input),
{
    input.value().to_string()
}

/// What the user decided.
#[derive(Debug, Clone, Copy, PartialEq, Eq, Structural)]
pub enum ReviewDecision {
    Approved,
    ApprovedForSession,
    Denied,
    Abort,
}

/// A request of the agent that needs the user's approval.
#[derive(Debug, Clone, PartialEq, Eq)]
pub enum ApprovalRequest {
    Exec {
        id: String,
        command: Vec<String>,
        cwd: String,
        /// The working directory relative to the home directory, when it
        /// lies there.
        cwd_relative_to_home: Option<String>,
        reason: Option<String>,
    },
    ApplyPatch { id: String, reason: Option<String>, grant_root: Option<String> },
}

/// The answer sent to the agent.
#[derive(Debug, Clone, PartialEq, Eq)]
pub enum ApprovalOp {
    ExecApproval { id: String, decision: ReviewDecision },
    PatchApproval { id: String, decision: ReviewDecision },
}

/// Whether the list of options or the feedback line has the keyboard.
#[derive(Debug, Clone, Copy, PartialEq, Eq, Structural)]
pub enum Mode {
    Select,
    Input,
}

/// Number of options in the list.
pub const OPTION_COUNT: usize = 5;

/// Rows the border takes, above and below.
pub const BORDER_LINES: u16 = 2;

/// The label of option `i`.
pub open spec fn option_label(i: int) -> Seq<char> {
    if i == 0 {
        "Yes (y)"@
    } else if i == 1 {
        "Yes, always approve this exact command for this session (a)"@
    } else if i == 2 {
        "Edit or give feedback (e)"@
    } else if i == 3 {
        "No, and keep going (n)"@
    } else {
        "No, and stop for now (esc)"@
    }
}

/// The decision of option `i`; the third option opens the feedback line
/// instead.
pub open spec fn option_decision(i: int) -> Option<ReviewDecision> {
    if i == 0 {
        Some(ReviewDecision::Approved)
    } else if i == 1 {
        Some(ReviewDecision::ApprovedForSession)
    } else if i == 2 {
        None
    } else if i == 3 {
        Some(ReviewDecision::Denied)
    } else {
        Some(ReviewDecision::Abort)
    }
}

/// What a key does in the list: the new selection and mode, and the
/// decision sent, if any. Up and Down move the selection round the list;
/// `y`, `a`, `n` and Esc decide at once, `e` opens the feedback line, Enter
/// takes the selected option.
pub open spec fn select_key(selected: usize, key: KeyEvent) -> (usize, Mode, Option<ReviewDecision>) {
    match key.code {
        KeyCode::Up => (
            if selected == 0 {
                (OPTION_COUNT - 1) as usize
            } else {
                (selected - 1) as usize
            },
            Mode::Select,
            None,
        ),
        KeyCode::Down => (((selected + 1) % OPTION_COUNT as int) as usize, Mode::Select, None),
        KeyCode::Char('y') => (selected, Mode::Select, Some(ReviewDecision::Approved)),
        KeyCode::Char('a') => (selected, Mode::Select, Some(ReviewDecision::ApprovedForSession)),
        KeyCode::Char('n') => (selected, Mode::Select, Some(ReviewDecision::Denied)),
        KeyCode::Char('e') => (selected, Mode::Input, None),
        KeyCode::Enter => if option_decision(selected as int) is None {
            (selected, Mode::Input, None)
        } else {
            (selected, Mode::Select, option_decision(selected as int))
        },
        KeyCode::Esc => (selected, Mode::Select, Some(ReviewDecision::Abort)),
        _ => (selected, Mode::Select, None),
    }
}

/// The decision a key sends from the feedback line: Enter and Esc both
/// deny (the feedback itself is not sent); other keys edit the line.
pub open spec fn input_key_decision(key: KeyEvent) -> Option<ReviewDecision> {
    match key.code {
        KeyCode::Enter => Some(ReviewDecision::Denied),
        KeyCode::Esc => Some(ReviewDecision::Denied),
        _ => None,
    }
}

pub open spec fn opt_chars(o: Option<String>) -> Option<Seq<char>> {
    match o {
        Some(s) => Some(s@),
        None => None,
    }
}

/// The rows of a reason, when there is one: the reason in italics and a
/// blank row.
pub open spec fn reason_rows(reason: Option<Seq<char>>) -> Seq<LineView> {
    match reason {
        Some(r) => seq![plain_line(seq![span_of(r, None, ITALIC)]), blank_row()],
        None => Seq::empty(),
    }
}

/// The prompt above the options.
pub open spec fn prompt_rows(req: ApprovalRequest) -> Seq<LineView> {
    match req {
        ApprovalRequest::Exec { command, cwd, cwd_relative_to_home, reason, .. } => {
            let cmd = command_display(command@.map_values(|w: String| w@));
            let cwd_str = match cwd_relative_to_home {
                Some(rel) => "~/"@ + rel@,
                None => cwd@,
            };
            seq![
                plain_line(seq![span_of("Shell Command"@, None, BOLD)]),
                blank_row(),
                plain_line(seq![span_of(cwd_str + "$"@, None, DIM), raw(" "@ + cmd)]),
                blank_row(),
            ] + reason_rows(opt_chars(reason)) + seq![plain_line(seq![raw("Allow command?"@)]), blank_row()]
        },
        ApprovalRequest::ApplyPatch { reason, grant_root, .. } => seq![
            plain_line(seq![span_of("Apply patch"@, None, BOLD)]),
            blank_row(),
        ] + reason_rows(opt_chars(reason)) + match grant_root {
            Some(root) => seq![
                plain_line(
                    seq![raw("This will grant write access to "@ + root@ + " for the remainder of this session."@)],
                ),
                blank_row(),
            ],
            None => Seq::empty(),
        } + seq![plain_line(seq![raw("Allow changes?"@)]), blank_row()],
    }
}

/// The id of the request the answer is for.
pub open spec fn request_id(req: ApprovalRequest) -> Seq<char> {
    match req {
        ApprovalRequest::Exec { id, .. } => id@,
        ApprovalRequest::ApplyPatch { id, .. } => id@,
    }
}

/// Whether `op` answers `req` with `d`.
pub open spec fn answers(op: ApprovalOp, req: ApprovalRequest, d: ReviewDecision) -> bool {
    match req {
        ApprovalRequest::Exec { id, .. } => op matches ApprovalOp::ExecApproval { id: i, decision } && i@ == id@
            && decision == d,
        ApprovalRequest::ApplyPatch { id, .. } => op matches ApprovalOp::PatchApproval { id: i, decision }
            && i@ == id@ && decision == d,
    }
}

/// The rows under the prompt: the options with the selected one marked in
/// blue, or the feedback line.
pub open spec fn response_rows(mode: Mode, selected: usize, input: Seq<char>) -> Seq<LineView> {
    match mode {
        Mode::Select => Seq::new(
            OPTION_COUNT as nat,
            |i: int|
                if i == selected {
                    LineView { spans: seq![raw("  ▶ "@ + option_label(i))], fg: Some(Color::Blue) }
                } else {
                    LineView { spans: seq![raw("    "@ + option_label(i))], fg: None }
                },
        ),
        Mode::Input => seq![plain_line(seq![raw("Give the model feedback on this command:"@)]), plain_line(seq![raw(input)])],
    }
}

/// The approval modal.
pub struct UserApprovalWidget {
    approval_request: ApprovalRequest,
    selected_option: usize,
    input: tui_input::Input,
    mode: Mode,
    done: bool,
}

/// Abstract state of the modal.
pub struct ApprovalView {
    pub request: ApprovalRequest,
    pub selected: usize,
    pub input: Seq<char>,
    pub mode: Mode,
    pub done: bool,
}

fn label_of(i: usize) -> (r: &'static str)
    ensures
        r@ == option_label(i as int),
{
    if i == 0 {
        "Yes (y)"
    } else if i == 1 {
        "Yes, always approve this exact command for this session (a)"
    } else if i == 2 {
        "Edit or give feedback (e)"
    } else if i == 3 {
        "No, and keep going (n)"
    } else {
        "No, and stop for now (esc)"
    }
}

fn decision_of(i: usize) -> (r: Option<ReviewDecision>)
    ensures
        r == option_decision(i as int),
{
    if i == 0 {
        Some(ReviewDecision::Approved)
    } else if i == 1 {
        Some(ReviewDecision::ApprovedForSession)
    } else if i == 2 {
        None
    } else if i == 3 {
        Some(ReviewDecision::Denied)
    } else {
        Some(ReviewDecision::Abort)
    }
}

fn reason_lines(reason: &Option<String>) -> (r: Vec<StyledLine>)
    ensures
        lines_view(r@) == reason_rows(opt_chars(*reason)),
{
    let mut out: Vec<StyledLine> = Vec::new();
    match reason {
        Some(x) => {
            out.push(styled_line(x.as_str(), None, ITALIC));
            out.push(blank_line());
        },
        None => {},
    }
    proof {
        assert(lines_view(out@) =~= reason_rows(opt_chars(*reason)));
    }
    out
}

fn text_two(a: &str, b: &str) -> (r: Vec<char>)
    ensures
        r@ == a@ + b@,
{
    let mut v = chars_of(a);
    push_chars(&mut v, &chars_of(b));
    v
}

fn text_then(a: &str, b: &str, c: &str) -> (r: Vec<char>)
    ensures
        r@ == a@ + b@ + c@,
{
    let mut v = chars_of(a);
    push_chars(&mut v, &chars_of(b));
    push_chars(&mut v, &chars_of(c));
    v
}

impl UserApprovalWidget {
    pub closed spec fn view(&self) -> ApprovalView {
        ApprovalView {
            request: self.approval_request,
            selected: self.selected_option,
            input: input_value(self.input),
            mode: self.mode,
            done: self.done,
        }
    }

    pub closed spec fn wf(&self) -> bool {
        self.selected_option < OPTION_COUNT
    }

    /// A modal for `request`, with the first option selected.
    pub fn new(approval_request: ApprovalRequest) -> (r: Self)
        ensures
            r.wf(),
            r.view() == (ApprovalView {
                request: approval_request,
                selected: 0,
                input: Seq::empty(),
                mode: Mode::Select,
                done: false,
            }),
    {
        UserApprovalWidget { approval_request, selected_option: 0, input: new_input(), mode: Mode::Select, done: false }
    }

    /// Whether the user has decided, so the modal can go.
    pub fn is_complete(&self) -> (r: bool)
        ensures
            r == self.view().done,
    {
        self.done
    }

    pub fn mode(&self) -> (r: Mode)
        ensures
            r == self.view().mode,
    {
        self.mode
    }

    pub fn selected_option(&self) -> (r: usize)
        ensures
            r == self.view().selected,
    {
        self.selected_option
    }

    fn answer(&mut self, decision: ReviewDecision) -> (r: ApprovalOp)
        requires
            old(self).wf(),
        ensures
            final(self).wf(),
            answers(r, old(self).view().request, decision),
            final(self).view() == (ApprovalView { done: true, ..old(self).view() }),
    {
        self.done = true;
        match &self.approval_request {
            ApprovalRequest::Exec { id, .. } => ApprovalOp::ExecApproval { id: id.clone(), decision },
            ApprovalRequest::ApplyPatch { id, .. } => ApprovalOp::PatchApproval { id: id.clone(), decision },
        }
    }

    /// Act on a key (`event` is the same key as the terminal reported it,
    /// handed to the feedback line); the answer for the agent once the user
    /// has decided.
    pub fn handle_key_event(&mut self, key: KeyEvent, event: &crossterm::event::Event) -> (r: Option<ApprovalOp>)
        requires
            old(self).wf(),
        ensures
            final(self).wf(),
            final(self).view().request == old(self).view().request,
            old(self).view().mode == Mode::Select ==> {
                let (sel, mode, d) = select_key(old(self).view().selected, key);
                &&& final(self).view().selected == sel
                &&& final(self).view().mode == mode
                &&& final(self).view().input == old(self).view().input
                &&& match d {
                    Some(dec) => final(self).view().done && (r matches Some(op) && answers(
                        op,
                        old(self).view().request,
                        dec,
                    )),
                    None => r is None && final(self).view().done == old(self).view().done,
                }
            },
            old(self).view().mode == Mode::Input ==> {
                &&& final(self).view().selected == old(self).view().selected
                &&& final(self).view().mode == Mode::Input
                &&& match input_key_decision(key) {
                    Some(dec) => final(self).view().done && final(self).view().input == old(self).view().input
                        && (r matches Some(op) && answers(op, old(self).view().request, dec)),
                    None => r is None && final(self).view().done == old(self).view().done,
                }
            },
    {
        match self.mode {
            Mode::Select => match key.code {
                KeyCode::Up => {
                    if self.selected_option == 0 {
                        self.selected_option = OPTION_COUNT - 1;
                    } else {
                        self.selected_option = self.selected_option - 1;
                    }
                    None
                },
                KeyCode::Down => {
                    self.selected_option = (self.selected_option + 1) % OPTION_COUNT;
                    None
                },
                KeyCode::Char('y') => Some(self.answer(ReviewDecision::Approved)),
                KeyCode::Char('a') => Some(self.answer(ReviewDecision::ApprovedForSession)),
                KeyCode::Char('n') => Some(self.answer(ReviewDecision::Denied)),
                KeyCode::Char('e') => {
                    self.mode = Mode::Input;
                    None
                },
                KeyCode::Enter => {
                    match decision_of(self.selected_option) {
                        None => {
                            self.mode = Mode::Input;
                            None
                        },
                        Some(d) => Some(self.answer(d)),
                    }
                },
                KeyCode::Esc => Some(self.answer(ReviewDecision::Abort)),
                _ => None,
            },
            Mode::Input => match key.code {
                KeyCode::Enter => Some(self.answer(ReviewDecision::Denied)),
                KeyCode::Esc => Some(self.answer(ReviewDecision::Denied)),
                _ => {
                    input_handle_event(&mut self.input, event);
                    None
                },
            },
        }
    }

    /// The prompt above the options.
    pub fn prompt_lines(&self) -> (r: Vec<StyledLine>)
        ensures
            lines_view(r@) == prompt_rows(self.view().request),
    {
        let mut out: Vec<StyledLine> = Vec::new();
        match &self.approval_request {
            ApprovalRequest::Exec { command, cwd, cwd_relative_to_home, reason, .. } => {
                let cmd = crate::exec_command::strip_bash_lc_and_escape(command.as_slice());
                let ghost ws = command@.map_values(|w: String| w@);
                proof {
                    if crate::exec_command::is_bash_lc(ws) {
                        assert(ws[2] == command@[2]@);
                    }
                    assert(cmd@ == command_display(ws));
                }
                let cwd_str = match cwd_relative_to_home {
                    Some(rel) => text_two("~/", rel.as_str()),
                    None => chars_of(cwd.as_str()),
                };
                out.push(styled_line("Shell Command", None, BOLD));
                out.push(blank_line());
                let mut spans: Vec<StyledSpan> = Vec::new();
                let mut c = cwd_str;
                c.push('$');
                let ghost cv = c@;
                spans.push(crate::diff_render::mk_span(c, None, DIM));
                spans.push(crate::diff_render::mk_span(text_two(" ", cmd.as_str()), None, 0));
                proof {
                    reveal_strlit("$");
                    assert(spans_view(spans@) =~= seq![span_of(cv, None, DIM), raw(" "@ + cmd@)]);
                }
                out.push(StyledLine { spans, fg: None });
                out.push(blank_line());
                let ghost head = lines_view(out@);
                proof {
                    let cs = match cwd_relative_to_home {
                        Some(rel) => "~/"@ + rel@,
                        None => cwd@,
                    };
                    assert(cv =~= cs + "$"@);
                    assert(head =~= seq![
                        plain_line(seq![span_of("Shell Command"@, None, BOLD)]),
                        blank_row(),
                        plain_line(seq![span_of(cs + "$"@, None, DIM), raw(" "@ + command_display(ws))]),
                        blank_row(),
                    ]);
                }
                crate::history_cell::push_lines(&mut out, reason_lines(reason));
                let ghost with_reason = lines_view(out@);
                proof {
                    assert(with_reason =~= head + reason_rows(opt_chars(*reason)));
                }
                out.push(raw_line(chars_of("Allow command?")));
                out.push(blank_line());
                proof {
                    assert(lines_view(out@) =~= with_reason + seq![plain_line(seq![raw("Allow command?"@)]), blank_row()]);
                    let cs = match cwd_relative_to_home {
                        Some(rel) => "~/"@ + rel@,
                        None => cwd@,
                    };
                    assert(prompt_rows(self.approval_request) =~= seq![
                        plain_line(seq![span_of("Shell Command"@, None, BOLD)]),
                        blank_row(),
                        plain_line(seq![span_of(cs + "$"@, None, DIM), raw(" "@ + command_display(ws))]),
                        blank_row(),
                    ] + reason_rows(opt_chars(*reason)) + seq![plain_line(seq![raw("Allow command?"@)]), blank_row()]);
                    assert(lines_view(out@) =~= prompt_rows(self.approval_request));
                }
            },
            ApprovalRequest::ApplyPatch { reason, grant_root, .. } => {
                out.push(styled_line("Apply patch", None, BOLD));
                out.push(blank_line());
                let ghost head = lines_view(out@);
                proof {
                    assert(head =~= seq![plain_line(seq![span_of("Apply patch"@, None, BOLD)]), blank_row()]);
                }
                crate::history_cell::push_lines(&mut out, reason_lines(reason));
                let ghost mid = lines_view(out@);
                let ghost grant = match grant_root {
                    Some(root) => seq![
                        plain_line(
                            seq![raw("This will grant write access to "@ + root@ + " for the remainder of this session."@)],
                        ),
                        blank_row(),
                    ],
                    None => Seq::<LineView>::empty(),
                };
                match grant_root {
                    Some(root) => {
                        out.push(
                            raw_line(
                                text_then(
                                    "This will grant write access to ",
                                    root.as_str(),
                                    " for the remainder of this session.",
                                ),
                            ),
                        );
                        out.push(blank_line());
                    },
                    None => {},
                }
                proof {
                    assert(lines_view(out@) =~= mid + grant);
                }
                let ghost g = lines_view(out@);
                out.push(raw_line(chars_of("Allow changes?")));
                out.push(blank_line());
                proof {
                    assert(lines_view(out@) =~= g + seq![plain_line(seq![raw("Allow changes?"@)]), blank_row()]);
                    assert(prompt_rows(self.approval_request) =~= head + reason_rows(opt_chars(*reason)) + grant + seq![
                        plain_line(seq![raw("Allow changes?"@)]),
                        blank_row(),
                    ]);
                    assert(lines_view(out@) =~= prompt_rows(self.approval_request));
                }
            },
        }
        out
    }

    /// The rows under the prompt.
    pub fn response_lines(&self) -> (r: Vec<StyledLine>)
        requires
            self.wf(),
        ensures
            lines_view(r@) == response_rows(self.view().mode, self.view().selected, self.view().input),
    {
        let mut out: Vec<StyledLine> = Vec::new();
        match self.mode {
            Mode::Select => {
                let mut i: usize = 0;
                while i < OPTION_COUNT
                    invariant
                        i <= OPTION_COUNT,
                        self.selected_option < OPTION_COUNT,
                        lines_view(out@) == response_rows(Mode::Select, self.selected_option, Seq::empty()).take(
                            i as int,
                        ),
                    decreases OPTION_COUNT - i,
                {
                    let on = i == self.selected_option;
                    let v = if on {
                        text_two("  ▶ ", label_of(i))
                    } else {
                        text_two("    ", label_of(i))
                    };
                    let ghost vv = v@;
                    let mut spans: Vec<StyledSpan> = Vec::new();
                    spans.push(crate::diff_render::mk_span(v, None, 0));
                    let fg = if on {
                        Some(Color::Blue)
                    } else {
                        None
                    };
                    let ghost before = lines_view(out@);
                    let line = StyledLine { spans, fg };
                    proof {
                        let rows = response_rows(Mode::Select, self.selected_option, Seq::empty());
                        assert(vv =~= (if on {
                            "  ▶ "@
                        } else {
                            "    "@
                        }) + option_label(i as int));
                        assert(spans_view(line.spans@) =~= rows[i as int].spans);
                        assert(line_view(line) == rows[i as int]);
                    }
                    out.push(line);
                    proof {
                        let rows = response_rows(Mode::Select, self.selected_option, Seq::empty());
                        assert(lines_view(out@) =~= before.push(rows[i as int]));
                        assert(rows.take(i + 1) =~= rows.take(i as int).push(rows[i as int]));
                    }
                    i += 1;
                }
                proof {
                    assert(response_rows(Mode::Select, self.selected_option, Seq::empty()) =~= response_rows(
                        Mode::Select,
                        self.selected_option,
                        input_value(self.input),
                    ));
                }
            },
            Mode::Input => {
                out.push(raw_line(chars_of("Give the model feedback on this command:")));
                let t = input_text(&self.input);
                out.push(raw_line(chars_of(t.as_str())));
                proof {
                    assert(lines_view(out@) =~= response_rows(Mode::Input, self.selected_option, input_value(self.input)));
                }
            },
        }
        out
    }

    /// The modal's height for a prompt of `prompt_height` rows: the prompt,
    /// the options (or the feedback prompt and line) and the border.
    pub fn get_height(&self, prompt_height: u16) -> (r: u16)
        requires
            prompt_height + OPTION_COUNT + BORDER_LINES <= u16::MAX,
        ensures
            r == prompt_height + (if self.view().mode == Mode::Select {
                OPTION_COUNT as int
            } else {
                2
            }) + BORDER_LINES,
    {
        match self.mode {
            Mode::Select => prompt_height + 5 + BORDER_LINES,
            Mode::Input => prompt_height + 2 + BORDER_LINES,
        }
    }
}

/// Moving down then up through the options returns to the option one
/// started from (the list wraps round at both ends).
pub proof fn law_options_wrap_round(selected: usize, down: KeyEvent, up: KeyEvent)
    requires
        selected < OPTION_COUNT,
        down.code == KeyCode::Down,
        up.code == KeyCode::Up,
    ensures
        select_key(select_key(selected, down).0, up).0 == selected,
        select_key(selected, down).0 < OPTION_COUNT,
{
}

/// Esc stops the agent from the list, and only denies from the feedback
/// line; neither leaves the modal undecided.
pub proof fn law_escape_decides(selected: usize, key: KeyEvent)
    requires
        key.code == KeyCode::Esc,
    ensures
        select_key(selected, key).2 == Some(ReviewDecision::Abort),
        input_key_decision(key) == Some(ReviewDecision::Denied),
{
}

/// Enter on an option does what the key named in its label does: "Yes (y)"
/// approves once like `y`, the session-wide option approves for the
/// session like `a`, the feedback option opens the feedback line like `e`,
/// "No, and keep going (n)" denies like `n`, and "No, and stop for now
/// (esc)" aborts like Esc; and those keys decide so from any selection.
pub proof fn law_enter_matches_option_key(
    selected: usize,
    enter: KeyEvent,
    y: KeyEvent,
    a: KeyEvent,
    e: KeyEvent,
    n: KeyEvent,
    esc: KeyEvent,
)
    requires
        enter.code == KeyCode::Enter,
        y.code == KeyCode::Char('y'),
        a.code == KeyCode::Char('a'),
        e.code == KeyCode::Char('e'),
        n.code == KeyCode::Char('n'),
        esc.code == KeyCode::Esc,
    ensures
        select_key(0, enter).2 == select_key(0, y).2,
        select_key(1, enter).2 == select_key(1, a).2,
        select_key(2, enter).1 == select_key(2, e).1,
        select_key(2, enter).2 == select_key(2, e).2,
        select_key(3, enter).2 == select_key(3, n).2,
        select_key(4, enter).2 == select_key(4, esc).2,
        select_key(selected, y).2 == Some(ReviewDecision::Approved),
        select_key(selected, a).2 == Some(ReviewDecision::ApprovedForSession),
        select_key(selected, n).2 == Some(ReviewDecision::Denied),
        select_key(selected, e).1 == Mode::Input,
{
}

} // verus!
