//! The lines that stand for events in the conversation transcript: command
//! output cut to its head and tail, patch results, plan updates and the
//! status summary.
use vstd::prelude::*;
use crate::diff_render::{
    blank_row, dim_span, dimmed, line_view, lines_view, mk_span, push_str, raw, raw_span, span_of,
    LineView, StyledLine,
};
use crate::insert_history::{spans_view, Color, SpanView, StyledSpan, BOLD, CROSSED_OUT, DIM, ITALIC};
use crate::text::{
    bounds_within, chars_of, decimal, line_bounds, lines, push_decimal, spans_of, string_from, trim,
    trim_bounds,
};

verus! {

/// The outcome of a finished command.
#[derive(Debug, Clone, PartialEq, Eq)]
pub struct CommandOutput {
    pub exit_code: i32,
    pub stdout: String,
    pub stderr: String,
}

/// Lines of output shown at each end before the middle is elided.
pub const TOOL_CALL_MAX_LINES: usize = 5;

/// A line without a style of its own.
pub open spec fn plain_line(spans: Seq<SpanView>) -> LineView {
    LineView { spans, fg: None }
}

/// The text of a command's output that is shown: its standard output when
/// it succeeded, else its standard error; nothing without output, or when
/// only failures are shown and it succeeded.
pub open spec fn shown_output(output: Option<&CommandOutput>, only_err: bool) -> Option<Seq<char>> {
    match output {
        None => None,
        Some(o) => if only_err && o.exit_code == 0 {
            None
        } else if o.exit_code == 0 {
            Some(o.stdout@)
        } else {
            Some(o.stderr@)
        },
    }
}

/// A dimmed output row: its prefix, then the line.
pub open spec fn output_row(prefix: Seq<char>, line: Seq<char>) -> LineView {
    plain_line(seq![dimmed(raw(prefix)), dimmed(raw(line))])
}

/// The prefix of head row `i`: the elbow on the first row when asked for.
pub open spec fn head_prefix(i: int, include_angle_pipe: bool) -> Seq<char> {
    if i == 0 && include_angle_pipe {
        "  └ "@
    } else {
        "    "@
    }
}

/// The row that stands for `omitted` elided lines.
pub open spec fn ellipsis_row(omitted: nat) -> LineView {
    plain_line(seq![raw("… +"@ + decimal(omitted) + " lines"@)])
}

/// The rows of output lines `ls`: all of them when there are at most
/// twice the limit; else the first and last `TOOL_CALL_MAX_LINES` with a
/// row counting the elided ones between.
pub open spec fn output_rows(ls: Seq<Seq<char>>, include_angle_pipe: bool) -> Seq<LineView> {
    let total = ls.len() as int;
    let limit = TOOL_CALL_MAX_LINES as int;
    let head_end = if total < limit {
        total
    } else {
        limit
    };
    let elide = total > 2 * limit;
    let tail_start = if elide {
        total - limit
    } else {
        head_end
    };
    Seq::new(head_end as nat, |i: int| output_row(head_prefix(i, include_angle_pipe), ls[i])) + (if elide {
        seq![ellipsis_row((total - 2 * limit) as nat)]
    } else {
        Seq::empty()
    }) + Seq::new((total - tail_start) as nat, |j: int| output_row("    "@, ls[tail_start + j]))
}

/// The rows of a command's output.
pub open spec fn output_lines_spec(output: Option<&CommandOutput>, only_err: bool, include_angle_pipe: bool) -> Seq<
    LineView,
> {
    match shown_output(output, only_err) {
        None => Seq::empty(),
        Some(t) => output_rows(lines(t), include_angle_pipe),
    }
}

pub(crate) fn chars_span(s: &[char], a: usize, b: usize) -> (r: StyledSpan)
    requires
        a <= b <= s@.len(),
    ensures
        crate::insert_history::span_view(r) == raw(s@.subrange(a as int, b as int)),
{
    StyledSpan { content: string_from(&s[a..b]), fg: None, bg: None, add_modifier: 0, sub_modifier: 0 }
}

fn output_row_of(prefix: &str, s: &[char], a: usize, b: usize) -> (r: StyledLine)
    requires
        a <= b <= s@.len(),
    ensures
        line_view(r) == output_row(prefix@, s@.subrange(a as int, b as int)),
{
    let mut spans: Vec<StyledSpan> = Vec::new();
    spans.push(dim_span(raw_span(prefix)));
    spans.push(dim_span(chars_span(s, a, b)));
    proof {
        assert(spans_view(spans@) =~= seq![
            dimmed(raw(prefix@)),
            dimmed(raw(s@.subrange(a as int, b as int))),
        ]);
    }
    StyledLine { spans, fg: None }
}

/// A line of one unstyled span.
pub(crate) fn raw_line(v: Vec<char>) -> (r: StyledLine)
    ensures
        line_view(r) == plain_line(seq![raw(v@)]),
{
    let mut spans: Vec<StyledSpan> = Vec::new();
    spans.push(mk_span(v, None, 0));
    proof {
        assert(spans_view(spans@) =~= seq![raw(v@)]);
    }
    StyledLine { spans, fg: None }
}

/// A line of one span with `fg` and modifiers `add`.
pub(crate) fn styled_line(text: &str, fg: Option<Color>, add: u16) -> (r: StyledLine)
    ensures
        line_view(r) == plain_line(seq![span_of(text@, fg, add)]),
{
    let mut spans: Vec<StyledSpan> = Vec::new();
    spans.push(mk_span(chars_of(text), fg, add));
    proof {
        assert(spans_view(spans@) =~= seq![span_of(text@, fg, add)]);
    }
    StyledLine { spans, fg: None }
}

/// The empty line.
pub(crate) fn blank_line() -> (r: StyledLine)
    ensures
        line_view(r) == blank_row(),
{
    let v: Vec<char> = Vec::new();
    proof {
        assert(v@ =~= Seq::<char>::empty());
    }
    raw_line(v)
}

/// "<pre><n><post>" as characters.
pub(crate) fn count_text(pre: &str, n: usize, post: &str) -> (r: Vec<char>)
    ensures
        r@ == pre@ + decimal(n as nat) + post@,
{
    let mut c: Vec<char> = Vec::new();
    push_str(&mut c, pre);
    push_decimal(&mut c, n as u64);
    push_str(&mut c, post);
    proof {
        assert(c@ =~= pre@ + decimal(n as nat) + post@);
    }
    c
}

fn output_rows_of(s: &[char], bounds: &Vec<(usize, usize)>, include_angle_pipe: bool) -> (r: Vec<StyledLine>)
    requires
        bounds_within(bounds@, s@.len() as int),
    ensures
        lines_view(r@) == output_rows(spans_of(s@, bounds@), include_angle_pipe),
{
    let ghost ls = spans_of(s@, bounds@);
    let total = bounds.len();
    let limit = TOOL_CALL_MAX_LINES;
    let head_end = if total < limit {
        total
    } else {
        limit
    };
    let mut out: Vec<StyledLine> = Vec::new();
    let mut i: usize = 0;
    while i < head_end
        invariant
            bounds_within(bounds@, s@.len() as int),
            ls == spans_of(s@, bounds@),
            total == bounds@.len(),
            head_end <= total,
            i <= head_end,
            lines_view(out@) == Seq::new(
                i as nat,
                |k: int| output_row(head_prefix(k, include_angle_pipe), ls[k]),
            ),
        decreases head_end - i,
    {
        let (a, b) = bounds[i];
        let prefix = if i == 0 && include_angle_pipe {
            "  └ "
        } else {
            "    "
        };
        let row = output_row_of(prefix, s, a, b);
        let ghost before = lines_view(out@);
        out.push(row);
        proof {
            assert(ls[i as int] == s@.subrange(a as int, b as int));
            assert(lines_view(out@) =~= before.push(line_view(row)));
            assert(lines_view(out@) =~= Seq::new(
                (i + 1) as nat,
                |k: int| output_row(head_prefix(k, include_angle_pipe), ls[k]),
            ));
        }
        i += 1;
    }
    let ghost head = lines_view(out@);
    let elide = total > 2 * limit;
    if elide {
        out.push(raw_line(count_text("… +", total - 2 * limit, " lines")));
    }
    let ghost mid = lines_view(out@);
    proof {
        assert(mid =~= head + (if elide {
            seq![ellipsis_row((total - 2 * limit) as nat)]
        } else {
            Seq::empty()
        }));
    }
    let tail_start = if elide {
        total - limit
    } else {
        head_end
    };
    let mut j: usize = tail_start;
    while j < total
        invariant
            bounds_within(bounds@, s@.len() as int),
            ls == spans_of(s@, bounds@),
            total == bounds@.len(),
            tail_start <= j <= total,
            lines_view(out@) == mid + Seq::new(
                (j - tail_start) as nat,
                |k: int| output_row("    "@, ls[tail_start + k]),
            ),
        decreases total - j,
    {
        let (a, b) = bounds[j];
        let row = output_row_of("    ", s, a, b);
        let ghost before = lines_view(out@);
        out.push(row);
        proof {
            assert(ls[j as int] == s@.subrange(a as int, b as int));
            assert(lines_view(out@) =~= before.push(line_view(row)));
            assert(lines_view(out@) =~= mid + Seq::new(
                (j + 1 - tail_start) as nat,
                |k: int| output_row("    "@, ls[tail_start + k]),
            ));
        }
        j += 1;
    }
    proof {
        assert(lines_view(out@) =~= output_rows(ls, include_angle_pipe));
    }
    out
}

/// The rows of a command's output: the lines of its standard output when it
/// succeeded, else of its standard error, cut to their head and tail.
pub fn output_lines(output: Option<&CommandOutput>, only_err: bool, include_angle_pipe: bool) -> (r: Vec<
    StyledLine,
>)
    ensures
        lines_view(r@) == output_lines_spec(output, only_err, include_angle_pipe),
{
    let src: &str = match output {
        None => {
            return Vec::new();
        },
        Some(o) => {
            if only_err && o.exit_code == 0 {
                return Vec::new();
            } else if o.exit_code == 0 {
                o.stdout.as_str()
            } else {
                o.stderr.as_str()
            }
        },
    };
    let s = chars_of(src);
    let bounds = line_bounds(&s);
    output_rows_of(&s, &bounds, include_angle_pipe)
}

/// Whether `t` holds more than white space.
fn has_content(t: &[char]) -> (b: bool)
    ensures
        b == (trim(t@).len() > 0),
{
    let (a, b) = trim_bounds(t, 0, t.len());
    proof {
        assert(t@.subrange(0, t@.len() as int) =~= t@);
    }
    a < b
}

/// The rows after a patch failed to apply: the title, the error output cut
/// to its head and tail when it holds more than white space, a blank row.
pub open spec fn patch_failure_rows(stderr: Seq<char>) -> Seq<LineView> {
    seq![plain_line(seq![span_of("✘ Failed to apply patch"@, Some(Color::Magenta), BOLD)])] + (if trim(
        stderr,
    ).len() > 0 {
        output_rows(lines(stderr), true)
    } else {
        Seq::empty()
    }) + seq![blank_row()]
}

/// The rows after a patch was applied: the title; when the output holds more
/// than white space, its first `TOOL_CALL_MAX_LINES` lines dimmed and a count
/// of the others; a blank row.
pub open spec fn patch_success_rows(stdout: Seq<char>) -> Seq<LineView> {
    let ls = lines(stdout);
    let k = if ls.len() < TOOL_CALL_MAX_LINES {
        ls.len()
    } else {
        TOOL_CALL_MAX_LINES as nat
    };
    let remaining = (ls.len() - k) as nat;
    seq![plain_line(seq![span_of("✓ Applied patch"@, Some(Color::Magenta), BOLD)])] + (if trim(stdout).len()
        > 0 {
        Seq::new(k, |i: int| plain_line(seq![dimmed(raw(head_prefix(i, true) + ls[i]))])) + (if remaining > 0 {
            seq![blank_row(), plain_line(seq![dimmed(raw("... +"@ + decimal(remaining) + " lines"@))])]
        } else {
            Seq::empty()
        })
    } else {
        Seq::empty()
    }) + seq![blank_row()]
}

pub(crate) fn push_lines(out: &mut Vec<StyledLine>, more: Vec<StyledLine>)
    ensures
        lines_view(final(out)@) == lines_view(old(out)@) + lines_view(more@),
{
    let mut more = more;
    let ghost m = more@;
    out.append(&mut more);
    proof {
        assert(lines_view(out@) =~= lines_view(old(out)@) + lines_view(m));
    }
}

/// The lines after a patch failed to apply.
pub fn new_patch_apply_failure(stderr: String) -> (r: Vec<StyledLine>)
    ensures
        lines_view(r@) == patch_failure_rows(stderr@),
{
    let mut lines_out: Vec<StyledLine> = Vec::new();
    lines_out.push(styled_line("✘ Failed to apply patch", Some(Color::Magenta), BOLD));
    let ghost title = lines_view(lines_out@);
    proof {
        assert(title =~= seq![plain_line(seq![span_of("✘ Failed to apply patch"@, Some(Color::Magenta), BOLD)])]);
    }
    let t = chars_of(stderr.as_str());
    let show = has_content(&t);
    let ghost err = stderr@;
    if show {
        let o = CommandOutput { exit_code: 1, stdout: String::new(), stderr };
        let body = output_lines(Some(&o), true, true);
        proof {
            assert(shown_output(Some(&o), true) == Some(err));
        }
        push_lines(&mut lines_out, body);
    }
    let ghost mid = lines_view(lines_out@);
    proof {
        assert(mid =~= title + (if trim(err).len() > 0 {
            output_rows(lines(err), true)
        } else {
            Seq::empty()
        }));
    }
    lines_out.push(blank_line());
    proof {
        assert(lines_view(lines_out@) =~= mid.push(blank_row()));
        assert(lines_view(lines_out@) =~= patch_failure_rows(err));
    }
    lines_out
}

/// The lines after a patch was applied.
pub fn new_patch_apply_success(stdout: String) -> (r: Vec<StyledLine>)
    ensures
        lines_view(r@) == patch_success_rows(stdout@),
{
    let mut out: Vec<StyledLine> = Vec::new();
    out.push(styled_line("✓ Applied patch", Some(Color::Magenta), BOLD));
    let ghost title = lines_view(out@);
    proof {
        assert(title =~= seq![plain_line(seq![span_of("✓ Applied patch"@, Some(Color::Magenta), BOLD)])]);
    }
    let s = chars_of(stdout.as_str());
    let ghost ls = lines(stdout@);
    if has_content(&s) {
        let bounds = line_bounds(&s);
        let total = bounds.len();
        let k = if total < TOOL_CALL_MAX_LINES {
            total
        } else {
            TOOL_CALL_MAX_LINES
        };
        let mut i: usize = 0;
        while i < k
            invariant
                bounds_within(bounds@, s@.len() as int),
                spans_of(s@, bounds@) == ls,
                total == bounds@.len(),
                k <= total,
                i <= k,
                lines_view(out@) == title + Seq::new(
                    i as nat,
                    |j: int| plain_line(seq![dimmed(raw(head_prefix(j, true) + ls[j]))]),
                ),
            decreases k - i,
        {
            let (a, b) = bounds[i];
            let mut c: Vec<char> = Vec::new();
            if i == 0 {
                push_str(&mut c, "  └ ");
            } else {
                push_str(&mut c, "    ");
            }
            let mut j = a;
            while j < b
                invariant
                    a <= j <= b <= s@.len(),
                    c@ == head_prefix(i as int, true) + s@.subrange(a as int, j as int),
                decreases b - j,
            {
                c.push(s[j]);
                proof {
                    assert(s@.subrange(a as int, j + 1) =~= s@.subrange(a as int, j as int).push(s@[j as int]));
                }
                j += 1;
            }
            let mut spans: Vec<StyledSpan> = Vec::new();
            let ghost cv = c@;
            spans.push(dim_span(mk_span(c, None, 0)));
            let ghost before = lines_view(out@);
            out.push(StyledLine { spans, fg: None });
            proof {
                assert(spans_view(spans@) =~= seq![dimmed(raw(cv))]);
                assert(ls[i as int] == s@.subrange(a as int, b as int));
                assert(s@.subrange(a as int, b as int) == spans_of(s@, bounds@)[i as int]);
                assert(lines_view(out@) =~= before.push(plain_line(seq![dimmed(raw(head_prefix(i as int, true) + ls[i as int]))])));
                assert(lines_view(out@) =~= title + Seq::new(
                    (i + 1) as nat,
                    |j: int| plain_line(seq![dimmed(raw(head_prefix(j, true) + ls[j]))]),
                ));
            }
            i += 1;
        }
        let remaining = total - k;
        let ghost body = lines_view(out@);
        if remaining > 0 {
            out.push(blank_line());
            let mut spans: Vec<StyledSpan> = Vec::new();
            let c = count_text("... +", remaining, " lines");
            let ghost cv = c@;
            spans.push(dim_span(mk_span(c, None, 0)));
            out.push(StyledLine { spans, fg: None });
            proof {
                assert(spans_view(spans@) =~= seq![dimmed(raw(cv))]);
                assert(lines_view(out@) =~= body + seq![
                    blank_row(),
                    plain_line(seq![dimmed(raw("... +"@ + decimal(remaining as nat) + " lines"@))]),
                ]);
            }
        }
        proof {
            assert(ls.len() == total);
            assert(lines_view(out@) =~= title + (Seq::new(
                k as nat,
                |j: int| plain_line(seq![dimmed(raw(head_prefix(j, true) + ls[j]))]),
            ) + (if remaining > 0 {
                seq![blank_row(), plain_line(seq![dimmed(raw("... +"@ + decimal(remaining as nat) + " lines"@))])]
            } else {
                Seq::empty()
            })));
        }
    }
    let ghost mid = lines_view(out@);
    out.push(blank_line());
    proof {
        assert(lines_view(out@) =~= mid.push(blank_row()));
        assert(lines_view(out@) =~= patch_success_rows(stdout@));
    }
    out
}

/// The state of a step of a plan.
#[derive(Debug, Clone, Copy, PartialEq, Eq, Structural)]
pub enum StepStatus {
    Pending,
    InProgress,
    Completed,
}

/// A step of a plan.
#[derive(Debug, Clone, PartialEq, Eq)]
pub struct PlanItemArg {
    pub step: String,
    pub status: StepStatus,
}

/// A plan sent by the model, with an optional explanation.
#[derive(Debug, Clone, PartialEq, Eq)]
pub struct UpdatePlanArgs {
    pub explanation: Option<String>,
    pub plan: Vec<PlanItemArg>,
}

/// Cells of the progress bar.
pub const PLAN_BAR_WIDTH: usize = 10;

/// The number of completed steps.
pub open spec fn completed_count(plan: Seq<PlanItemArg>) -> nat
    decreases plan.len(),
{
    if plan.len() == 0 {
        0
    } else {
        completed_count(plan.drop_last()) + (if plan.last().status == StepStatus::Completed {
            1nat
        } else {
            0nat
        })
    }
}

/// Filled cells of the progress bar: the completed share of its width,
/// rounded to nearest.
pub open spec fn bar_filled(completed: nat, total: nat) -> nat {
    if total > 0 {
        ((completed * PLAN_BAR_WIDTH + total / 2) as int / total as int) as nat
    } else {
        0
    }
}

/// `n` copies of `c`.
pub open spec fn repeat_char(c: char, n: nat) -> Seq<char> {
    Seq::new(n, |i: int| c)
}

/// The header of a plan: title, progress bar and "<completed>/<total>".
pub open spec fn plan_header(completed: nat, total: nat) -> Seq<SpanView> {
    let filled = bar_filled(completed, total);
    let empty = if filled < PLAN_BAR_WIDTH {
        (PLAN_BAR_WIDTH - filled) as nat
    } else {
        0
    };
    seq![raw("📋"@), span_of(" Update plan"@, Some(Color::Magenta), BOLD), raw(" ["@)] + (if filled > 0 {
        seq![span_of(repeat_char('█', filled), Some(Color::Green), 0)]
    } else {
        Seq::empty()
    }) + (if empty > 0 {
        seq![span_of(repeat_char('░', empty), None, DIM)]
    } else {
        Seq::empty()
    }) + seq![raw("] "@), raw(decimal(completed) + "/"@ + decimal(total))]
}

/// The note rows of a plan: when the explanation holds more than white
/// space, a "note" row and each line of the trimmed explanation, dimmed.
pub open spec fn note_rows(explanation: Option<Seq<char>>) -> Seq<LineView> {
    match explanation {
        Some(e) => if trim(e).len() > 0 {
            seq![plain_line(seq![span_of("note"@, None, DIM | ITALIC)])] + lines(trim(e)).map_values(
                |l: Seq<char>| plain_line(seq![dimmed(raw(l))]),
            )
        } else {
            Seq::empty()
        },
        None => Seq::empty(),
    }
}

/// The row of step `idx`: a check box and the step, styled by its state.
pub open spec fn step_row(idx: int, item: PlanItemArg) -> LineView {
    let (box_span, text_span) = match item.status {
        StepStatus::Completed => (
            span_of("✔"@, Some(Color::Green), 0),
            span_of(item.step@, None, CROSSED_OUT | DIM),
        ),
        StepStatus::InProgress => (raw("□"@), span_of(item.step@, Some(Color::Blue), BOLD)),
        StepStatus::Pending => (raw("□"@), span_of(item.step@, None, DIM)),
    };
    plain_line(seq![raw(head_prefix(idx, true)), box_span, raw(" "@), text_span])
}

/// The rows of a plan update.
pub open spec fn plan_rows(explanation: Option<Seq<char>>, plan: Seq<PlanItemArg>) -> Seq<LineView> {
    seq![plain_line(plan_header(completed_count(plan), plan.len()))] + note_rows(explanation) + (if plan.len()
        == 0 {
        seq![plain_line(seq![span_of("(no steps provided)"@, None, DIM | ITALIC)])]
    } else {
        Seq::new(plan.len(), |i: int| step_row(i, plan[i]))
    }) + seq![blank_row()]
}

pub open spec fn opt_view(o: Option<String>) -> Option<Seq<char>> {
    match o {
        Some(s) => Some(s@),
        None => None,
    }
}

fn count_completed(plan: &Vec<PlanItemArg>) -> (r: usize)
    ensures
        r == completed_count(plan@),
{
    let mut n: usize = 0;
    let mut i: usize = 0;
    while i < plan.len()
        invariant
            i <= plan@.len(),
            n == completed_count(plan@.take(i as int)),
            n <= i,
        decreases plan.len() - i,
    {
        proof {
            assert(plan@.take(i + 1).drop_last() =~= plan@.take(i as int));
        }
        if plan[i].status == StepStatus::Completed {
            n += 1;
        }
        i += 1;
    }
    proof {
        assert(plan@.take(plan@.len() as int) =~= plan@);
    }
    n
}

fn repeat_vec(c: char, n: usize) -> (r: Vec<char>)
    ensures
        r@ == repeat_char(c, n as nat),
{
    let mut v: Vec<char> = Vec::new();
    let mut i: usize = 0;
    while i < n
        invariant
            i <= n,
            v@ == repeat_char(c, i as nat),
        decreases n - i,
    {
        v.push(c);
        proof {
            assert(v@ =~= repeat_char(c, (i + 1) as nat));
        }
        i += 1;
    }
    v
}

fn plan_header_line(completed: usize, total: usize) -> (r: StyledLine)
    requires
        completed * PLAN_BAR_WIDTH + total / 2 <= usize::MAX,
    ensures
        line_view(r) == plain_line(plan_header(completed as nat, total as nat)),
{
    let width = PLAN_BAR_WIDTH;
    let filled = if total > 0 {
        (completed * width + total / 2) / total
    } else {
        0
    };
    let empty = width.saturating_sub(filled);
    let mut spans: Vec<StyledSpan> = Vec::new();
    spans.push(raw_span("📋"));
    spans.push(mk_span(chars_of(" Update plan"), Some(Color::Magenta), BOLD));
    spans.push(raw_span(" ["));
    let ghost start = spans_view(spans@);
    if filled > 0 {
        spans.push(mk_span(repeat_vec('█', filled), Some(Color::Green), 0));
    }
    let ghost after_filled = spans_view(spans@);
    if empty > 0 {
        spans.push(mk_span(repeat_vec('░', empty), None, DIM));
    }
    let ghost after_empty = spans_view(spans@);
    spans.push(raw_span("] "));
    let mut c: Vec<char> = Vec::new();
    push_decimal(&mut c, completed as u64);
    c.push('/');
    push_decimal(&mut c, total as u64);
    let ghost cv = c@;
    spans.push(mk_span(c, None, 0));
    proof {
        reveal_strlit("/");
        assert(cv =~= decimal(completed as nat) + "/"@ + decimal(total as nat));
        assert(start =~= seq![raw("📋"@), span_of(" Update plan"@, Some(Color::Magenta), BOLD), raw(" ["@)]);
        assert(spans_view(spans@) =~= plan_header(completed as nat, total as nat));
    }
    StyledLine { spans, fg: None }
}

fn step_line(idx: usize, item: PlanItemArg) -> (r: StyledLine)
    ensures
        line_view(r) == step_row(idx as int, item),
{
    let ghost it = item;
    let (box_span, text_span) = match item.status {
        StepStatus::Completed => (
            mk_span(chars_of("✔"), Some(Color::Green), 0),
            mk_span(chars_of(item.step.as_str()), None, CROSSED_OUT | DIM),
        ),
        StepStatus::InProgress => (raw_span("□"), mk_span(chars_of(item.step.as_str()), Some(Color::Blue), BOLD)),
        StepStatus::Pending => (raw_span("□"), mk_span(chars_of(item.step.as_str()), None, DIM)),
    };
    let mut spans: Vec<StyledSpan> = Vec::new();
    if idx == 0 {
        spans.push(raw_span("  └ "));
    } else {
        spans.push(raw_span("    "));
    }
    spans.push(box_span);
    spans.push(raw_span(" "));
    spans.push(text_span);
    proof {
        assert(spans_view(spans@) =~= step_row(idx as int, it).spans);
    }
    StyledLine { spans, fg: None }
}

/// The lines of a plan update: a header with a progress bar, the
/// explanation when there is one, each step with its check box.
pub fn new_plan_update(update: UpdatePlanArgs) -> (r: Vec<StyledLine>)
    requires
        completed_count(update.plan@) * PLAN_BAR_WIDTH + update.plan@.len() / 2 <= usize::MAX,
    ensures
        lines_view(r@) == plan_rows(opt_view(update.explanation), update.plan@),
{
    let UpdatePlanArgs { explanation, plan } = update;
    let ghost expl = opt_view(explanation);
    let ghost items = plan@;
    let total = plan.len();
    let completed = count_completed(&plan);
    let mut out: Vec<StyledLine> = Vec::new();
    out.push(plan_header_line(completed, total));
    let ghost head = lines_view(out@);
    proof {
        assert(head =~= seq![plain_line(plan_header(completed_count(items), items.len()))]);
    }
    match explanation {
        Some(e) => {
            let t = chars_of(e.as_str());
            let (a, b) = trim_bounds(&t, 0, t.len());
            proof {
                assert(t@.subrange(0, t@.len() as int) =~= t@);
            }
            if a < b {
                out.push(styled_line("note", None, DIM | ITALIC));
                let mut tt: Vec<char> = Vec::new();
                let mut k = a;
                while k < b
                    invariant
                        a <= k <= b <= t@.len(),
                        tt@ == t@.subrange(a as int, k as int),
                    decreases b - k,
                {
                    tt.push(t[k]);
                    proof {
                        assert(t@.subrange(a as int, k + 1) =~= t@.subrange(a as int, k as int).push(t@[k as int]));
                    }
                    k += 1;
                }
                let bounds = line_bounds(&tt);
                let ghost ls = lines(tt@);
                let ghost pre = lines_view(out@);
                let mut i: usize = 0;
                while i < bounds.len()
                    invariant
                        bounds_within(bounds@, tt@.len() as int),
                        spans_of(tt@, bounds@) == ls,
                        i <= bounds@.len(),
                        lines_view(out@) == pre + ls.take(i as int).map_values(
                            |l: Seq<char>| plain_line(seq![dimmed(raw(l))]),
                        ),
                    decreases bounds.len() - i,
                {
                    let (x, y) = bounds[i];
                    let mut spans: Vec<StyledSpan> = Vec::new();
                    spans.push(dim_span(chars_span(&tt, x, y)));
                    let ghost before = lines_view(out@);
                    out.push(StyledLine { spans, fg: None });
                    proof {
                        assert(ls[i as int] == tt@.subrange(x as int, y as int));
                        assert(spans_view(spans@) =~= seq![dimmed(raw(ls[i as int]))]);
                        assert(ls.take(i + 1) =~= ls.take(i as int).push(ls[i as int]));
                        assert(lines_view(out@) =~= before.push(plain_line(seq![dimmed(raw(ls[i as int]))])));
                        assert(lines_view(out@) =~= pre + ls.take(i + 1).map_values(
                            |l: Seq<char>| plain_line(seq![dimmed(raw(l))]),
                        ));
                    }
                    i += 1;
                }
                proof {
                    assert(ls.take(bounds@.len() as int) =~= ls);
                    assert(lines_view(out@) =~= head + note_rows(expl));
                }
            } else {
                proof {
                    assert(lines_view(out@) =~= head + note_rows(expl));
                }
            }
        },
        None => {
            proof {
                assert(lines_view(out@) =~= head + note_rows(expl));
            }
        },
    }
    let ghost with_note = lines_view(out@);
    if total == 0 {
        out.push(styled_line("(no steps provided)", None, DIM | ITALIC));
    } else {
        let mut plan = plan;
        let mut rest: Vec<PlanItemArg> = Vec::new();
        // Steps are taken from the back so each moves out once.
        while plan.len() > 0
            invariant
                plan@.len() + rest@.len() == items.len(),
                lines_view(out@) == with_note,
                forall|j: int| 0 <= j < plan@.len() ==> plan@[j] == items[j],
                forall|j: int| 0 <= j < rest@.len() ==> rest@[j] == items[items.len() - 1 - j],
            decreases plan.len(),
        {
            let x = plan.pop().unwrap();
            rest.push(x);
        }
        let mut idx: usize = 0;
        while rest.len() > 0
            invariant
                idx + rest@.len() == items.len(),
                items.len() == total,
                forall|j: int| 0 <= j < rest@.len() ==> rest@[j] == items[items.len() - 1 - j],
                lines_view(out@) == with_note + Seq::new(idx as nat, |i: int| step_row(i, items[i])),
            decreases rest.len(),
        {
            proof {
                assert(rest@[rest@.len() - 1] == items[idx as int]);
            }
            let x = rest.pop().unwrap();
            proof {
                assert(x == items[idx as int]);
            }
            let ghost before = lines_view(out@);
            out.push(step_line(idx, x));
            proof {
                assert(lines_view(out@) =~= before.push(step_row(idx as int, items[idx as int])));
                assert(lines_view(out@) =~= with_note + Seq::new((idx + 1) as nat, |i: int| step_row(i, items[i])));
            }
            idx += 1;
        }
    }
    let ghost body = lines_view(out@);
    out.push(blank_line());
    proof {
        assert(lines_view(out@) =~= body.push(blank_row()));
        assert(lines_view(out@) =~= plan_rows(expl, items));
    }
    out
}

/// The uppercase mapping of a character (one or more characters), as
/// `char::to_uppercase` yields it.
pub uninterp spec fn uppercase_of(c: char) -> Seq<char>;

/// `char::to_uppercase`, collected: claimed to equal `uppercase_of(c)`, a
/// function of `c` alone (std's Unicode case tables).
#[verifier::external_body]
fn char_to_uppercase(c: char) -> (r: String)
    ensures
        r@ == uppercase_of(c),
{
    c.to_uppercase().collect::<String>()
}

/// The first character in uppercase, the rest in ASCII lowercase.
pub open spec fn title_case_spec(s: Seq<char>) -> Seq<char> {
    if s.len() == 0 {
        Seq::empty()
    } else {
        uppercase_of(s[0]) + crate::text::ascii_lower(s.drop_first())
    }
}

/// The first character in uppercase, the rest in ASCII lowercase.
pub fn title_case(s: &str) -> (r: String)
    ensures
        r@ == title_case_spec(s@),
{
    let c = chars_of(s);
    if c.len() == 0 {
        return String::new();
    }
    let first = char_to_uppercase(c[0]);
    let mut out = chars_of(first.as_str());
    let mut rest: Vec<char> = Vec::new();
    let mut i: usize = 1;
    while i < c.len()
        invariant
            1 <= i <= c@.len(),
            rest@ == c@.subrange(1, i as int),
        decreases c.len() - i,
    {
        rest.push(c[i]);
        proof {
            assert(c@.subrange(1, i + 1) =~= c@.subrange(1, i as int).push(c@[i as int]));
        }
        i += 1;
    }
    let lower = crate::text::to_ascii_lower(&rest);
    crate::text::push_chars(&mut out, &lower);
    proof {
        assert(c@.drop_first() =~= c@.subrange(1, c@.len() as int));
    }
    string_from(&out)
}

/// The name shown for a model provider: "OpenAI" for any ASCII casing of
/// "openai", else the id in title case.
pub open spec fn provider_display(id: Seq<char>) -> Seq<char> {
    if crate::text::ascii_lower(id) == "openai"@ {
        "OpenAI"@
    } else {
        title_case_spec(id)
    }
}

/// The name shown for a model provider.
pub fn pretty_provider_name(id: &str) -> (r: String)
    ensures
        r@ == provider_display(id@),
{
    let c = chars_of(id);
    let lower = crate::text::to_ascii_lower(&c);
    let target = chars_of("openai");
    if crate::text::chars_eq(&lower, &target) {
        String::from_str("OpenAI")
    } else {
        title_case(id)
    }
}

/// A directory as shown to the user: "~/<rel>" when it lies below the home
/// directory at `rel`, "~" when it is the home directory, else as given.
pub open spec fn home_display(rel: Option<Seq<char>>, cwd: Seq<char>) -> Seq<char> {
    match rel {
        Some(r) => if r.len() > 0 {
            "~/"@ + r
        } else {
            "~"@
        },
        None => cwd,
    }
}

/// A directory as shown to the user, given its path relative to the home
/// directory when it lies there.
pub fn home_relative_display(rel: Option<&str>, cwd: &str) -> (r: String)
    ensures
        r@ == home_display(
            match rel {
                Some(x) => Some(x@),
                None => None,
            },
            cwd@,
        ),
{
    match rel {
        Some(x) => {
            let c = chars_of(x);
            if c.len() > 0 {
                let mut v: Vec<char> = Vec::new();
                push_str(&mut v, "~/");
                crate::text::push_chars(&mut v, &c);
                string_from(&v)
            } else {
                String::from_str("~")
            }
        },
        None => String::from_str(cwd),
    }
}

/// The sandbox commands of a session run in.
#[derive(Debug, Clone, Copy, PartialEq, Eq, Structural)]
pub enum SandboxKind {
    DangerFullAccess,
    ReadOnly,
    WorkspaceWrite,
}

/// What the status summary shows of a ChatGPT sign-in.
#[derive(Debug, Clone, PartialEq, Eq)]
pub struct AccountInfo {
    pub email: Option<String>,
    pub openai_api_key: Option<String>,
    pub plan_type: Option<String>,
}

/// Token counts shown in the status summary.
#[derive(Debug, Clone, Copy, PartialEq, Eq, Structural)]
pub struct StatusUsage {
    pub non_cached_input: u64,
    pub cached_input_tokens: Option<u64>,
    pub output_tokens: u64,
    pub blended_total: u64,
}

/// The configuration the status summary shows.
#[derive(Debug, Clone, PartialEq, Eq)]
pub struct StatusConfig {
    pub cwd: String,
    /// The working directory relative to the home directory, when it lies
    /// there.
    pub cwd_relative_to_home: Option<String>,
    pub model: String,
    pub model_provider_id: String,
    pub sandbox: SandboxKind,
    /// The configuration summary as (key, value) pairs.
    pub config_entries: Vec<(String, String)>,
}

/// The value of the first entry with key `k`, or nothing.
pub open spec fn lookup_entry(entries: Seq<(String, String)>, k: Seq<char>) -> Seq<char>
    decreases entries.len(),
{
    if entries.len() == 0 {
        Seq::empty()
    } else if entries[0].0@ == k {
        entries[0].1@
    } else {
        lookup_entry(entries.drop_first(), k)
    }
}

fn lookup(entries: &Vec<(String, String)>, k: &str) -> (r: Vec<char>)
    ensures
        r@ == lookup_entry(entries@, k@),
{
    let mut i: usize = 0;
    proof {
        assert(entries@.skip(0) =~= entries@);
    }
    while i < entries.len()
        invariant
            i <= entries@.len(),
            lookup_entry(entries@.skip(i as int), k@) == lookup_entry(entries@, k@),
        decreases entries.len() - i,
    {
        proof {
            assert(entries@.skip(i as int).drop_first() =~= entries@.skip(i + 1));
        }
        if crate::text::str_eq(entries[i].0.as_str(), k) {
            return chars_of(entries[i].1.as_str());
        }
        i += 1;
    }
    Vec::new()
}

/// A line of a label and its value.
pub open spec fn label_row(label: Seq<char>, value: Seq<char>) -> LineView {
    plain_line(seq![raw(label), raw(value)])
}

/// A section heading: an icon and a bold title.
pub open spec fn heading_row(icon: Seq<char>, title: Seq<char>) -> LineView {
    plain_line(seq![raw(icon), span_of(title, None, BOLD)])
}

pub open spec fn sandbox_name(k: SandboxKind) -> Seq<char> {
    match k {
        SandboxKind::DangerFullAccess => "danger-full-access"@,
        SandboxKind::ReadOnly => "read-only"@,
        SandboxKind::WorkspaceWrite => "workspace-write"@,
    }
}

/// The workspace section: path, approval mode, sandbox, and the session
/// id when there is one.
pub open spec fn workspace_rows(c: StatusConfig, session_id: Option<Seq<char>>) -> Seq<LineView> {
    seq![
        heading_row("📂 "@, "Workspace"@),
        label_row("  • Path: "@, home_display(opt_view(c.cwd_relative_to_home), c.cwd@)),
        label_row("  • Approval Mode: "@, lookup_entry(c.config_entries@, "approval"@)),
        label_row("  • Sandbox: "@, sandbox_name(c.sandbox)),
    ] + match session_id {
        Some(id) => seq![label_row("  • Session ID: "@, id)],
        None => Seq::empty(),
    } + seq![blank_row()]
}

/// The account section, shown when signed in with ChatGPT.
pub open spec fn account_rows(a: Option<AccountInfo>) -> Seq<LineView> {
    match a {
        None => Seq::empty(),
        Some(info) => seq![
            heading_row("👤 "@, "Account"@),
            plain_line(seq![raw("  • Signed in with ChatGPT"@)]),
        ] + match info.email {
            Some(e) => seq![label_row("  • Login: "@, e@)],
            None => Seq::empty(),
        } + (match info.openai_api_key {
            Some(k) if k@.len() > 0 => seq![plain_line(seq![raw("  • Using API key. Run codex login to use ChatGPT plan"@)])],
            _ => seq![label_row(
                "  • Plan: "@,
                match info.plan_type {
                    Some(p) => title_case_spec(p@),
                    None => "Unknown"@,
                },
            )],
        }) + seq![blank_row()],
    }
}

/// The model section: name, provider, and the reasoning settings that the
/// configuration summary holds.
pub open spec fn model_rows(c: StatusConfig) -> Seq<LineView> {
    let reff = lookup_entry(c.config_entries@, "reasoning effort"@);
    let rsum = lookup_entry(c.config_entries@, "reasoning summaries"@);
    seq![
        heading_row("🧠 "@, "Model"@),
        label_row("  • Name: "@, c.model@),
        label_row("  • Provider: "@, provider_display(c.model_provider_id@)),
    ] + (if reff.len() > 0 {
        seq![label_row("  • Reasoning Effort: "@, title_case_spec(reff))]
    } else {
        Seq::empty()
    }) + (if rsum.len() > 0 {
        seq![label_row("  • Reasoning Summaries: "@, title_case_spec(rsum))]
    } else {
        Seq::empty()
    }) + seq![blank_row()]
}

/// The token usage section.
pub open spec fn usage_rows(u: StatusUsage) -> Seq<LineView> {
    let cached = match u.cached_input_tokens {
        Some(c) => if c > 0 {
            seq![raw(" (+ "@ + decimal(c as nat) + " cached)"@)]
        } else {
            Seq::empty()
        },
        None => Seq::empty(),
    };
    seq![
        heading_row("📊 "@, "Token Usage"@),
        plain_line(seq![raw("  • Input: "@), raw(decimal(u.non_cached_input as nat))] + cached),
        label_row("  • Output: "@, decimal(u.output_tokens as nat)),
        label_row("  • Total: "@, decimal(u.blended_total as nat)),
        blank_row(),
    ]
}

/// The lines of the status summary.
pub open spec fn status_rows(
    c: StatusConfig,
    account: Option<AccountInfo>,
    usage: StatusUsage,
    session_id: Option<Seq<char>>,
) -> Seq<LineView> {
    seq![plain_line(seq![span_of("/status"@, Some(Color::Magenta), 0)])] + workspace_rows(c, session_id)
        + account_rows(account) + model_rows(c) + usage_rows(usage)
}

fn label_line(label: &str, value: Vec<char>) -> (r: StyledLine)
    ensures
        line_view(r) == label_row(label@, value@),
{
    let mut spans: Vec<StyledSpan> = Vec::new();
    spans.push(raw_span(label));
    spans.push(mk_span(value, None, 0));
    proof {
        assert(spans_view(spans@) =~= seq![raw(label@), raw(value@)]);
    }
    StyledLine { spans, fg: None }
}

fn heading_line(icon: &str, title: &str) -> (r: StyledLine)
    ensures
        line_view(r) == heading_row(icon@, title@),
{
    let mut spans: Vec<StyledSpan> = Vec::new();
    spans.push(raw_span(icon));
    spans.push(mk_span(chars_of(title), None, BOLD));
    proof {
        assert(spans_view(spans@) =~= seq![raw(icon@), span_of(title@, None, BOLD)]);
    }
    StyledLine { spans, fg: None }
}

fn decimal_chars(n: u64) -> (r: Vec<char>)
    ensures
        r@ == decimal(n as nat),
{
    let mut c: Vec<char> = Vec::new();
    push_decimal(&mut c, n);
    proof {
        assert(c@ =~= decimal(n as nat));
    }
    c
}

fn workspace_lines(c: &StatusConfig, session_id: Option<String>) -> (r: Vec<StyledLine>)
    ensures
        lines_view(r@) == workspace_rows(*c, opt_view(session_id)),
{
    let mut out: Vec<StyledLine> = Vec::new();
    out.push(heading_line("📂 ", "Workspace"));
    let rel: Option<&str> = match &c.cwd_relative_to_home {
        Some(x) => Some(x.as_str()),
        None => None,
    };
    let cwd = home_relative_display(rel, c.cwd.as_str());
    out.push(label_line("  • Path: ", chars_of(cwd.as_str())));
    out.push(label_line("  • Approval Mode: ", lookup(&c.config_entries, "approval")));
    let name = match c.sandbox {
        SandboxKind::DangerFullAccess => "danger-full-access",
        SandboxKind::ReadOnly => "read-only",
        SandboxKind::WorkspaceWrite => "workspace-write",
    };
    out.push(label_line("  • Sandbox: ", chars_of(name)));
    let ghost first = lines_view(out@);
    let ghost sid = opt_view(session_id);
    match session_id {
        Some(id) => {
            out.push(label_line("  • Session ID: ", chars_of(id.as_str())));
        },
        None => {},
    }
    let ghost mid = lines_view(out@);
    out.push(blank_line());
    proof {
        assert(lines_view(out@) =~= mid.push(blank_row()));
        assert(lines_view(out@) =~= workspace_rows(*c, sid));
    }
    out
}

fn account_lines(account: Option<AccountInfo>) -> (r: Vec<StyledLine>)
    ensures
        lines_view(r@) == account_rows(account),
{
    let ghost acc = account;
    let mut out: Vec<StyledLine> = Vec::new();
    match account {
        None => {
            proof {
                assert(lines_view(out@) =~= account_rows(acc));
            }
        },
        Some(info) => {
            out.push(heading_line("👤 ", "Account"));
            out.push(raw_line(chars_of("  • Signed in with ChatGPT")));
            let ghost head = lines_view(out@);
            match &info.email {
                Some(e) => {
                    out.push(label_line("  • Login: ", chars_of(e.as_str())));
                },
                None => {},
            }
            let ghost with_login = lines_view(out@);
            let uses_key = match &info.openai_api_key {
                Some(k) => k.as_str().unicode_len() > 0,
                None => false,
            };
            if uses_key {
                out.push(raw_line(chars_of("  • Using API key. Run codex login to use ChatGPT plan")));
            } else {
                let plan = match &info.plan_type {
                    Some(p) => title_case(p.as_str()),
                    None => String::from_str("Unknown"),
                };
                out.push(label_line("  • Plan: ", chars_of(plan.as_str())));
            }
            let ghost body = lines_view(out@);
            out.push(blank_line());
            proof {
                assert(lines_view(out@) =~= body.push(blank_row()));
                assert(lines_view(out@) =~= account_rows(acc));
            }
        },
    }
    out
}

fn model_lines(c: &StatusConfig) -> (r: Vec<StyledLine>)
    ensures
        lines_view(r@) == model_rows(*c),
{
    let mut out: Vec<StyledLine> = Vec::new();
    out.push(heading_line("🧠 ", "Model"));
    out.push(label_line("  • Name: ", chars_of(c.model.as_str())));
    let provider = pretty_provider_name(c.model_provider_id.as_str());
    out.push(label_line("  • Provider: ", chars_of(provider.as_str())));
    let ghost head = lines_view(out@);
    let reff = lookup(&c.config_entries, "reasoning effort");
    if reff.len() > 0 {
        let t = title_case(string_from(&reff).as_str());
        out.push(label_line("  • Reasoning Effort: ", chars_of(t.as_str())));
    }
    let ghost with_effort = lines_view(out@);
    let rsum = lookup(&c.config_entries, "reasoning summaries");
    if rsum.len() > 0 {
        let t = title_case(string_from(&rsum).as_str());
        out.push(label_line("  • Reasoning Summaries: ", chars_of(t.as_str())));
    }
    let ghost body = lines_view(out@);
    out.push(blank_line());
    proof {
        assert(lines_view(out@) =~= body.push(blank_row()));
        assert(lines_view(out@) =~= model_rows(*c));
    }
    out
}

fn usage_lines(u: &StatusUsage) -> (r: Vec<StyledLine>)
    ensures
        lines_view(r@) == usage_rows(*u),
{
    let mut out: Vec<StyledLine> = Vec::new();
    out.push(heading_line("📊 ", "Token Usage"));
    let mut spans: Vec<StyledSpan> = Vec::new();
    spans.push(raw_span("  • Input: "));
    spans.push(mk_span(decimal_chars(u.non_cached_input), None, 0));
    let ghost two = spans_view(spans@);
    match u.cached_input_tokens {
        Some(cached) => {
            if cached > 0 {
                let mut t: Vec<char> = Vec::new();
                push_str(&mut t, " (+ ");
                push_decimal(&mut t, cached);
                push_str(&mut t, " cached)");
                spans.push(mk_span(t, None, 0));
            }
        },
        None => {},
    }
    proof {
        assert(spans_view(spans@) =~= seq![raw("  • Input: "@), raw(decimal(u.non_cached_input as nat))] + match u.cached_input_tokens {
            Some(c) => if c > 0 {
                seq![raw(" (+ "@ + decimal(c as nat) + " cached)"@)]
            } else {
                Seq::empty()
            },
            None => Seq::empty(),
        });
    }
    out.push(StyledLine { spans, fg: None });
    out.push(label_line("  • Output: ", decimal_chars(u.output_tokens)));
    out.push(label_line("  • Total: ", decimal_chars(u.blended_total)));
    out.push(blank_line());
    proof {
        assert(lines_view(out@) =~= usage_rows(*u));
    }
    out
}

/// The lines of the status summary: workspace, account (when signed in with
/// ChatGPT), model, and token usage.
pub fn new_status_output(
    config: &StatusConfig,
    account: Option<AccountInfo>,
    usage: &StatusUsage,
    session_id: Option<String>,
) -> (r: Vec<StyledLine>)
    ensures
        lines_view(r@) == status_rows(*config, account, *usage, opt_view(session_id)),
{
    let mut out: Vec<StyledLine> = Vec::new();
    out.push(styled_line("/status", Some(Color::Magenta), 0));
    push_lines(&mut out, workspace_lines(config, session_id));
    push_lines(&mut out, account_lines(account));
    push_lines(&mut out, model_lines(config));
    push_lines(&mut out, usage_lines(usage));
    out
}

/// One row per line of `text`, each a single span of `style`.
pub open spec fn text_rows(text: Seq<char>, fg: Option<Color>, add: u16) -> Seq<LineView> {
    lines(text).map_values(|l: Seq<char>| plain_line(seq![span_of(l, fg, add)]))
}

fn text_lines(text: &str, fg: Option<Color>, add: u16) -> (r: Vec<StyledLine>)
    ensures
        lines_view(r@) == text_rows(text@, fg, add),
{
    let s = chars_of(text);
    let bounds = line_bounds(&s);
    let ghost ls = lines(text@);
    let mut out: Vec<StyledLine> = Vec::new();
    let mut i: usize = 0;
    while i < bounds.len()
        invariant
            bounds_within(bounds@, s@.len() as int),
            spans_of(s@, bounds@) == ls,
            i <= bounds@.len(),
            lines_view(out@) == ls.take(i as int).map_values(
                |l: Seq<char>| plain_line(seq![span_of(l, fg, add)]),
            ),
        decreases bounds.len() - i,
    {
        let (a, b) = bounds[i];
        let mut spans: Vec<StyledSpan> = Vec::new();
        spans.push(StyledSpan { content: string_from(&s[a..b]), fg, bg: None, add_modifier: add, sub_modifier: 0 });
        let ghost before = lines_view(out@);
        out.push(StyledLine { spans, fg: None });
        proof {
            assert(ls[i as int] == s@.subrange(a as int, b as int));
            assert(spans_view(spans@) =~= seq![span_of(ls[i as int], fg, add)]);
            assert(ls.take(i + 1) =~= ls.take(i as int).push(ls[i as int]));
            assert(lines_view(out@) =~= before.push(plain_line(seq![span_of(ls[i as int], fg, add)])));
            assert(lines_view(out@) =~= ls.take(i + 1).map_values(
                |l: Seq<char>| plain_line(seq![span_of(l, fg, add)]),
            ));
        }
        i += 1;
    }
    proof {
        assert(ls.take(bounds@.len() as int) =~= ls);
    }
    out
}

/// The rows of a message the user sent: a "user" title, its lines, a blank
/// row.
pub open spec fn user_prompt_rows(message: Seq<char>) -> Seq<LineView> {
    seq![plain_line(seq![span_of("user"@, Some(Color::Cyan), BOLD)])] + text_rows(message, None, 0) + seq![
        blank_row(),
    ]
}

/// The lines of a message the user sent.
pub fn new_user_prompt(message: String) -> (r: Vec<StyledLine>)
    ensures
        lines_view(r@) == user_prompt_rows(message@),
{
    let mut out: Vec<StyledLine> = Vec::new();
    out.push(styled_line("user", Some(Color::Cyan), BOLD));
    push_lines(&mut out, text_lines(message.as_str(), None, 0));
    let ghost body = lines_view(out@);
    out.push(blank_line());
    proof {
        assert(lines_view(out@) =~= body.push(blank_row()));
        assert(lines_view(out@) =~= user_prompt_rows(message@));
    }
    out
}

/// The rows of an error: a red hand and the message, a blank row.
pub open spec fn error_rows(message: Seq<char>) -> Seq<LineView> {
    seq![plain_line(seq![span_of("🖐 "@, Some(Color::Red), BOLD), raw(message)]), blank_row()]
}

/// The lines of an error.
pub fn new_error_event(message: String) -> (r: Vec<StyledLine>)
    ensures
        lines_view(r@) == error_rows(message@),
{
    let mut spans: Vec<StyledSpan> = Vec::new();
    spans.push(mk_span(chars_of("🖐 "), Some(Color::Red), BOLD));
    spans.push(mk_span(chars_of(message.as_str()), None, 0));
    let mut out: Vec<StyledLine> = Vec::new();
    proof {
        assert(spans_view(spans@) =~= seq![span_of("🖐 "@, Some(Color::Red), BOLD), raw(message@)]);
    }
    out.push(StyledLine { spans, fg: None });
    out.push(blank_line());
    proof {
        assert(lines_view(out@) =~= error_rows(message@));
    }
    out
}

/// The rows of a background event: a dimmed "event" title, its lines
/// dimmed, a blank row.
pub open spec fn background_event_rows(message: Seq<char>) -> Seq<LineView> {
    seq![plain_line(seq![span_of("event"@, None, DIM)])] + text_rows(message, None, DIM) + seq![blank_row()]
}

/// The lines of a background event.
pub fn new_background_event(message: String) -> (r: Vec<StyledLine>)
    ensures
        lines_view(r@) == background_event_rows(message@),
{
    let mut out: Vec<StyledLine> = Vec::new();
    out.push(styled_line("event", None, DIM));
    push_lines(&mut out, text_lines(message.as_str(), None, DIM));
    let ghost body = lines_view(out@);
    out.push(blank_line());
    proof {
        assert(lines_view(out@) =~= body.push(blank_row()));
        assert(lines_view(out@) =~= background_event_rows(message@));
    }
    out
}

/// The rows of a `/diff`: the title, then the diff's lines, or a note that
/// nothing changed when it holds only white space; a blank row.
pub open spec fn diff_output_rows(message: Seq<char>) -> Seq<LineView> {
    seq![plain_line(seq![span_of("/diff"@, Some(Color::Magenta), 0)])] + (if trim(message).len() == 0 {
        seq![plain_line(seq![span_of("No changes detected."@, None, ITALIC)])]
    } else {
        text_rows(message, None, 0)
    }) + seq![blank_row()]
}

/// The lines of a `/diff`.
pub fn new_diff_output(message: String) -> (r: Vec<StyledLine>)
    ensures
        lines_view(r@) == diff_output_rows(message@),
{
    let mut out: Vec<StyledLine> = Vec::new();
    out.push(styled_line("/diff", Some(Color::Magenta), 0));
    let t = chars_of(message.as_str());
    if has_content(&t) {
        push_lines(&mut out, text_lines(message.as_str(), None, 0));
    } else {
        out.push(styled_line("No changes detected.", None, ITALIC));
    }
    let ghost body = lines_view(out@);
    out.push(blank_line());
    proof {
        assert(lines_view(out@) =~= body.push(blank_row()));
        assert(lines_view(out@) =~= diff_output_rows(message@));
    }
    out
}

/// The rows of `/prompts`: example prompts to start from.
pub open spec fn prompts_rows() -> Seq<LineView> {
    seq![
        plain_line(seq![span_of("/prompts"@, Some(Color::Magenta), 0)]),
        blank_row(),
        plain_line(seq![raw(" 1. Explain this codebase"@)]),
        plain_line(seq![raw(" 2. Summarize recent commits"@)]),
        plain_line(seq![raw(" 3. Implement {feature}"@)]),
        plain_line(seq![raw(" 4. Find and fix a bug in @filename"@)]),
        plain_line(seq![raw(" 5. Write tests for @filename"@)]),
        plain_line(seq![raw(" 6. Improve documentation in @filename"@)]),
        blank_row(),
    ]
}

/// The lines of `/prompts`.
pub fn new_prompts_output() -> (r: Vec<StyledLine>)
    ensures
        lines_view(r@) == prompts_rows(),
{
    let mut out: Vec<StyledLine> = Vec::new();
    out.push(styled_line("/prompts", Some(Color::Magenta), 0));
    out.push(blank_line());
    out.push(raw_line(chars_of(" 1. Explain this codebase")));
    out.push(raw_line(chars_of(" 2. Summarize recent commits")));
    out.push(raw_line(chars_of(" 3. Implement {feature}")));
    out.push(raw_line(chars_of(" 4. Find and fix a bug in @filename")));
    out.push(raw_line(chars_of(" 5. Write tests for @filename")));
    out.push(raw_line(chars_of(" 6. Improve documentation in @filename")));
    out.push(blank_line());
    proof {
        assert(lines_view(out@) =~= prompts_rows());
    }
    out
}

/// A command as shown: the script of a `bash -lc` invocation, else the
/// words quoted for a shell (joined with spaces when one cannot be quoted).
pub open spec fn command_display(ws: Seq<Seq<char>>) -> Seq<char> {
    if crate::exec_command::is_bash_lc(ws) {
        ws[2]
    } else if crate::exec_command::any_word_has_nul(ws) {
        crate::exec_command::join_with_spaces(ws)
    } else {
        crate::exec_command::shlex_joined(ws)
    }
}

/// The dimmed " • <n>s" after a running command's title, when its start is
/// known.
pub open spec fn duration_spans(elapsed_secs: Option<u64>) -> Seq<SpanView> {
    match elapsed_secs {
        Some(d) => seq![span_of(" • "@ + decimal(d as nat) + "s"@, None, DIM)],
        None => Seq::empty(),
    }
}

/// The rows of a command: "⚡ Running" with the time it has run and the
/// first line of the command, its other lines, then its output (standard
/// output on success, else standard error) cut to its head and tail.
pub open spec fn exec_generic_rows(
    command: Seq<Seq<char>>,
    output: Option<&CommandOutput>,
    elapsed_secs: Option<u64>,
) -> Seq<LineView> {
    let ls = lines(command_display(command));
    let title = seq![span_of("⚡ Running"@, Some(Color::Magenta), 0)] + duration_spans(elapsed_secs);
    (if ls.len() > 0 {
        seq![plain_line(title + seq![raw(" "@), raw(ls[0])])] + ls.drop_first().map_values(
            |l: Seq<char>| plain_line(seq![raw(l)]),
        )
    } else {
        seq![plain_line(title)]
    }) + output_lines_spec(output, false, true)
}

/// The lines of a command, running (no output yet) or finished.
pub fn new_exec_command_generic(
    command: &Vec<String>,
    output: Option<&CommandOutput>,
    elapsed_secs: Option<u64>,
) -> (r: Vec<StyledLine>)
    ensures
        lines_view(r@) == exec_generic_rows(command@.map_values(|w: String| w@), output, elapsed_secs),
{
    let escaped = crate::exec_command::strip_bash_lc_and_escape(command.as_slice());
    let ghost ws = command@.map_values(|w: String| w@);
    proof {
        if crate::exec_command::is_bash_lc(ws) {
            assert(ws[2] == command@[2]@);
        }
        assert(escaped@ == command_display(ws));
    }
    let s = chars_of(escaped.as_str());
    let bounds = line_bounds(&s);
    let ghost ls = lines(escaped@);
    let mut spans: Vec<StyledSpan> = Vec::new();
    spans.push(mk_span(chars_of("⚡ Running"), Some(Color::Magenta), 0));
    match elapsed_secs {
        Some(d) => {
            let mut t: Vec<char> = Vec::new();
            push_str(&mut t, " • ");
            push_decimal(&mut t, d);
            push_str(&mut t, "s");
            spans.push(mk_span(t, None, DIM));
        },
        None => {},
    }
    let ghost title = spans_view(spans@);
    proof {
        assert(title =~= seq![span_of("⚡ Running"@, Some(Color::Magenta), 0)] + duration_spans(elapsed_secs));
    }
    let mut out: Vec<StyledLine> = Vec::new();
    if bounds.len() > 0 {
        let (a, b) = bounds[0];
        spans.push(raw_span(" "));
        spans.push(chars_span(&s, a, b));
        proof {
            assert(ls[0] == s@.subrange(a as int, b as int));
            assert(spans_view(spans@) =~= title + seq![raw(" "@), raw(ls[0])]);
        }
        out.push(StyledLine { spans, fg: None });
        let mut i: usize = 1;
        while i < bounds.len()
            invariant
                bounds_within(bounds@, s@.len() as int),
                spans_of(s@, bounds@) == ls,
                1 <= i <= bounds@.len(),
                lines_view(out@) == seq![plain_line(title + seq![raw(" "@), raw(ls[0])])] + ls.subrange(
                    1,
                    i as int,
                ).map_values(|l: Seq<char>| plain_line(seq![raw(l)])),
            decreases bounds.len() - i,
        {
            let (x, y) = bounds[i];
            let mut sp: Vec<StyledSpan> = Vec::new();
            sp.push(chars_span(&s, x, y));
            let ghost before = lines_view(out@);
            out.push(StyledLine { spans: sp, fg: None });
            proof {
                assert(ls[i as int] == s@.subrange(x as int, y as int));
                assert(spans_view(sp@) =~= seq![raw(ls[i as int])]);
                assert(ls.subrange(1, i + 1) =~= ls.subrange(1, i as int).push(ls[i as int]));
                assert(lines_view(out@) =~= before.push(plain_line(seq![raw(ls[i as int])])));
                assert(lines_view(out@) =~= seq![plain_line(title + seq![raw(" "@), raw(ls[0])])]
                    + ls.subrange(1, i + 1).map_values(|l: Seq<char>| plain_line(seq![raw(l)])));
            }
            i += 1;
        }
        proof {
            assert(ls.subrange(1, bounds@.len() as int) =~= ls.drop_first());
        }
    } else {
        out.push(StyledLine { spans, fg: None });
        proof {
            assert(lines_view(out@) =~= seq![plain_line(title)]);
        }
    }
    let ghost head = lines_view(out@);
    push_lines(&mut out, output_lines(output, false, true));
    proof {
        assert(lines_view(out@) =~= exec_generic_rows(ws, output, elapsed_secs));
    }
    out
}

proof fn lemma_completed_at_most_len(plan: Seq<PlanItemArg>)
    ensures
        completed_count(plan) <= plan.len(),
    decreases plan.len(),
{
    if plan.len() > 0 {
        lemma_completed_at_most_len(plan.drop_last());
    }
}

/// The progress bar of a plan never overflows its width: its filled and
/// empty cells make exactly `PLAN_BAR_WIDTH`, all filled when every step is
/// completed and none when no step is.
pub proof fn law_plan_bar_fits(plan: Seq<PlanItemArg>)
    ensures
        bar_filled(completed_count(plan), plan.len()) <= PLAN_BAR_WIDTH,
        plan.len() > 0 && completed_count(plan) == plan.len() ==> bar_filled(completed_count(plan), plan.len())
            == PLAN_BAR_WIDTH,
        completed_count(plan) == 0 ==> bar_filled(completed_count(plan), plan.len()) == 0,
{
    lemma_completed_at_most_len(plan);
    let c = completed_count(plan) as int;
    let t = plan.len() as int;
    if t > 0 {
        assert((c * 10 + t / 2) / t <= 10) by (nonlinear_arith)
            requires
                0 <= c <= t,
                t > 0,
        {
            assert(c * 10 + t / 2 < 11 * t);
        }
        if c == t {
            assert((t * 10 + t / 2) / t == 10) by (nonlinear_arith)
                requires
                    t > 0,
            {
                assert(t * 10 <= t * 10 + t / 2 < t * 11);
            }
        }
        if c == 0 {
            assert((t / 2) / t == 0) by (nonlinear_arith)
                requires
                    t > 0,
            ;
        }
    }
}

/// The bytes of standard base64 text (with padding), or `None` when it is
/// not valid base64.
pub uninterp spec fn base64_standard(s: Seq<char>) -> Option<Seq<u8>>;

/// `base64::engine::general_purpose::STANDARD.decode`: claimed to equal
/// `base64_standard(data)`, a function of the text alone.
#[verifier::external_body]
fn decode_base64(data: &str) -> (r: Option<Vec<u8>>)
    ensures
        match r {
            Some(b) => base64_standard(data@) == Some(b@),
            None => base64_standard(data@) is None,
        },
{
    base64::Engine::decode(&base64::engine::general_purpose::STANDARD, data).ok()
}

/// The eight bytes that open every PNG file.
pub open spec fn png_signature() -> Seq<u8> {
    seq![0x89u8, 0x50u8, 0x4Eu8, 0x47u8, 0x0Du8, 0x0Au8, 0x1Au8, 0x0Au8]
}

/// The bytes open with the PNG signature.
pub open spec fn is_png(bytes: Seq<u8>) -> bool {
    bytes.len() >= 8 && bytes.take(8) == png_signature()
}

/// Whether the bytes of a PNG file decode as an image.
pub uninterp spec fn decodes_as_image(bytes: Seq<u8>) -> bool;

/// `ImageReader::new(Cursor::new(bytes)).with_guessed_format()` then
/// `decode()`, on bytes that open with the PNG signature, so that the
/// format guessed is PNG (no format hooks are registered) and the PNG
/// decoder, which reports malformed data as an error, does the work.
/// Claimed to succeed exactly when `decodes_as_image(bytes)`, a function of
/// the bytes alone. Other formats are not handed to the `image` crate: its
/// JPEG decoder documents that invalid input may make it panic.
#[verifier::external_body]
fn image_decodes(bytes: Vec<u8>) -> (r: bool)
    requires
        is_png(bytes@),
    ensures
        r == decodes_as_image(bytes@),
{
    match image::ImageReader::new(std::io::Cursor::new(bytes)).with_guessed_format() {
        Ok(reader) => reader.decode().is_ok(),
        Err(_) => false,
    }
}

/// Whether the bytes open with the PNG signature.
fn png_signed(bytes: &Vec<u8>) -> (r: bool)
    ensures
        r == is_png(bytes@),
{
    if bytes.len() < 8 {
        return false;
    }
    let r = bytes[0] == 0x89u8 && bytes[1] == 0x50u8 && bytes[2] == 0x4Eu8 && bytes[3] == 0x47u8
        && bytes[4] == 0x0Du8 && bytes[5] == 0x0Au8 && bytes[6] == 0x1Au8 && bytes[7] == 0x0Au8;
    proof {
        if r {
            assert(bytes@.take(8) =~= png_signature());
        } else {
            if bytes@.take(8) == png_signature() {
                assert(bytes@.take(8)[0] == bytes@[0]);
                assert(bytes@.take(8)[1] == bytes@[1]);
                assert(bytes@.take(8)[2] == bytes@[2]);
                assert(bytes@.take(8)[3] == bytes@[3]);
                assert(bytes@.take(8)[4] == bytes@[4]);
                assert(bytes@.take(8)[5] == bytes@[5]);
                assert(bytes@.take(8)[6] == bytes@[6]);
                assert(bytes@.take(8)[7] == bytes@[7]);
            }
        }
    }
    r
}

/// The JSON text of a value in compact form (`serde_json::to_string` of
/// the parsed value), or `None` when the text is not JSON.
pub uninterp spec fn compact_json_text(s: Seq<char>) -> Option<Seq<char>>;

/// Parse `text` as a `serde_json::Value` and print it compactly: claimed to
/// equal `compact_json_text(text)`. Printing a parsed value falls back to
/// its `Display` form, though printing a `Value` does not fail.
#[verifier::external_body]
fn json_to_compact(text: &str) -> (r: Option<String>)
    ensures
        match r {
            Some(c) => compact_json_text(text@) == Some(c@),
            None => compact_json_text(text@) is None,
        },
{
    serde_json::from_str::<serde_json::Value>(text).ok().map(
        |v| serde_json::to_string(&v).unwrap_or_else(|_| v.to_string()),
    )
}

/// A call of an MCP tool: server, tool and its JSON arguments.
#[derive(Debug, Clone, PartialEq, Eq)]
pub struct McpInvocation {
    pub server: String,
    pub tool: String,
    /// The arguments as JSON text.
    pub arguments: Option<String>,
}

/// A piece of an MCP tool's result.
#[derive(Debug, Clone, PartialEq, Eq)]
pub enum McpContent {
    Text(String),
    /// An image, base64-encoded.
    Image { data: String },
    Audio,
    EmbeddedResource { uri: String },
    ResourceLink { uri: String },
}

/// The arguments as shown: compact JSON (as given when not JSON), or
/// nothing.
pub open spec fn args_text(arguments: Option<String>) -> Seq<char> {
    match arguments {
        Some(a) => match compact_json_text(a@) {
            Some(c) => c,
            None => a@,
        },
        None => Seq::empty(),
    }
}

/// "server.tool(arguments)", the names in blue and the arguments dimmed.
pub open spec fn invocation_row(inv: McpInvocation) -> LineView {
    plain_line(
        seq![
            span_of(inv.server@, Some(Color::Blue), 0),
            raw("."@),
            span_of(inv.tool@, Some(Color::Blue), 0),
            raw("("@),
            span_of(args_text(inv.arguments), None, DIM),
            raw(")"@),
        ],
    )
}

/// Whether a result's first piece is a PNG image that decodes: such a
/// result is shown as an omitted image.
pub open spec fn is_image_result(result: Result<Vec<McpContent>, String>) -> bool {
    match result {
        Ok(content) => content@.len() > 0 && match content@[0] {
            McpContent::Image { data } => match base64_standard(data@) {
                Some(bytes) => is_png(bytes) && decodes_as_image(bytes),
                None => false,
            },
            _ => false,
        },
        Err(_) => false,
    }
}

/// The text shown for a piece of a result: text cut to the tool-call
/// lines at `num_cols` columns, or what the piece is.
pub open spec fn content_text(c: McpContent, num_cols: nat) -> Seq<char> {
    match c {
        McpContent::Text(t) => crate::text_formatting::formatted_tool_result(
            t@,
            TOOL_CALL_MAX_LINES as nat,
            num_cols,
        ),
        McpContent::Image { .. } => "<image content>"@,
        McpContent::Audio => "<audio content>"@,
        McpContent::EmbeddedResource { uri } => "embedded resource: "@ + uri@,
        McpContent::ResourceLink { uri } => "link: "@ + uri@,
    }
}

/// The dimmed row of a piece of a result: a span per line of its text.
pub open spec fn content_row(c: McpContent, num_cols: nat) -> LineView {
    plain_line(lines(content_text(c, num_cols)).map_values(|l: Seq<char>| dimmed(raw(l))))
}

/// The rows of a finished MCP tool call.
pub open spec fn mcp_call_rows(
    num_cols: nat,
    inv: McpInvocation,
    duration: Seq<char>,
    success: bool,
    result: Result<Vec<McpContent>, String>,
) -> Seq<LineView> {
    mcp_call_rows_given(num_cols, inv, duration, success, result, is_image_result(result))
}

/// The rows of a finished MCP tool call, given whether its result was
/// found to be an image: an omitted-image note, or else the status and
/// duration, the call, and each piece of the result (or the error).
pub open spec fn mcp_call_rows_given(
    num_cols: nat,
    inv: McpInvocation,
    duration: Seq<char>,
    success: bool,
    result: Result<Vec<McpContent>, String>,
    image_output: bool,
) -> Seq<LineView> {
    if image_output {
        seq![plain_line(seq![raw("tool result (image output omitted)"@)]), blank_row()]
    } else {
        let title = plain_line(
            seq![
                span_of("tool"@, Some(Color::Magenta), 0),
                raw(" "@),
                if success {
                    span_of("success"@, Some(Color::Green), 0)
                } else {
                    span_of("failed"@, Some(Color::Red), 0)
                },
                span_of(", duration: "@ + duration, None, DIM),
            ],
        );
        seq![title, invocation_row(inv)] + match result {
            Ok(content) => (if content@.len() > 0 {
                seq![blank_row()] + content@.map_values(|c: McpContent| content_row(c, num_cols))
            } else {
                Seq::empty()
            }) + seq![blank_row()],
            Err(e) => seq![plain_line(seq![span_of("Error: "@, Some(Color::Red), BOLD), raw(e@)])],
        }
    }
}

fn invocation_line(inv: &McpInvocation) -> (r: StyledLine)
    ensures
        line_view(r) == invocation_row(*inv),
{
    let args: Vec<char> = match &inv.arguments {
        Some(a) => match json_to_compact(a.as_str()) {
            Some(c) => chars_of(c.as_str()),
            None => chars_of(a.as_str()),
        },
        None => Vec::new(),
    };
    let mut spans: Vec<StyledSpan> = Vec::new();
    spans.push(mk_span(chars_of(inv.server.as_str()), Some(Color::Blue), 0));
    spans.push(raw_span("."));
    spans.push(mk_span(chars_of(inv.tool.as_str()), Some(Color::Blue), 0));
    spans.push(raw_span("("));
    let ghost av = args@;
    spans.push(mk_span(args, None, DIM));
    spans.push(raw_span(")"));
    proof {
        assert(av =~= args_text(inv.arguments));
        assert(spans_view(spans@) =~= invocation_row(*inv).spans);
    }
    StyledLine { spans, fg: None }
}

/// The rows of a running MCP tool call.
pub open spec fn mcp_active_rows(inv: McpInvocation) -> Seq<LineView> {
    seq![
        plain_line(seq![span_of("tool"@, Some(Color::Magenta), 0), span_of(" running..."@, None, DIM)]),
        invocation_row(inv),
        blank_row(),
    ]
}

/// The lines of a running MCP tool call.
pub fn new_active_mcp_tool_call(invocation: McpInvocation) -> (r: Vec<StyledLine>)
    ensures
        lines_view(r@) == mcp_active_rows(invocation),
{
    let mut spans: Vec<StyledSpan> = Vec::new();
    spans.push(mk_span(chars_of("tool"), Some(Color::Magenta), 0));
    spans.push(mk_span(chars_of(" running..."), None, DIM));
    let mut out: Vec<StyledLine> = Vec::new();
    proof {
        assert(spans_view(spans@) =~= seq![span_of("tool"@, Some(Color::Magenta), 0), span_of(" running..."@, None, DIM)]);
    }
    out.push(StyledLine { spans, fg: None });
    out.push(invocation_line(&invocation));
    out.push(blank_line());
    proof {
        assert(lines_view(out@) =~= mcp_active_rows(invocation));
    }
    out
}

fn image_result(result: &Result<Vec<McpContent>, String>) -> (r: bool)
    ensures
        r == is_image_result(*result),
{
    match result {
        Ok(content) => {
            if content.len() == 0 {
                return false;
            }
            match &content[0] {
                McpContent::Image { data } => match decode_base64(data.as_str()) {
                    Some(bytes) => if png_signed(&bytes) {
                        image_decodes(bytes)
                    } else {
                        false
                    },
                    None => false,
                },
                _ => false,
            }
        },
        Err(_) => false,
    }
}

fn content_line(c: &McpContent, num_cols: usize) -> (r: StyledLine)
    requires
        TOOL_CALL_MAX_LINES * num_cols <= usize::MAX,
    ensures
        line_view(r) == content_row(*c, num_cols as nat),
{
    let t: String = match c {
        McpContent::Text(text) => crate::text_formatting::format_and_truncate_tool_result(
            text.as_str(),
            TOOL_CALL_MAX_LINES,
            num_cols,
        ),
        McpContent::Image { .. } => String::from_str("<image content>"),
        McpContent::Audio => String::from_str("<audio content>"),
        McpContent::EmbeddedResource { uri } => string_from(&count_free_concat("embedded resource: ", uri.as_str())),
        McpContent::ResourceLink { uri } => string_from(&count_free_concat("link: ", uri.as_str())),
    };
    let s = chars_of(t.as_str());
    let bounds = line_bounds(&s);
    let ghost ls = lines(t@);
    let mut spans: Vec<StyledSpan> = Vec::new();
    let mut i: usize = 0;
    while i < bounds.len()
        invariant
            bounds_within(bounds@, s@.len() as int),
            spans_of(s@, bounds@) == ls,
            i <= bounds@.len(),
            spans_view(spans@) == ls.take(i as int).map_values(|l: Seq<char>| dimmed(raw(l))),
        decreases bounds.len() - i,
    {
        let (a, b) = bounds[i];
        let ghost before = spans_view(spans@);
        spans.push(dim_span(chars_span(&s, a, b)));
        proof {
            assert(ls[i as int] == s@.subrange(a as int, b as int));
            assert(spans_view(spans@) =~= before.push(dimmed(raw(ls[i as int]))));
            assert(ls.take(i + 1) =~= ls.take(i as int).push(ls[i as int]));
            assert(spans_view(spans@) =~= ls.take(i + 1).map_values(|l: Seq<char>| dimmed(raw(l))));
        }
        i += 1;
    }
    proof {
        assert(ls.take(bounds@.len() as int) =~= ls);
        assert(t@ == content_text(*c, num_cols as nat));
    }
    StyledLine { spans, fg: None }
}

fn count_free_concat(a: &str, b: &str) -> (r: Vec<char>)
    ensures
        r@ == a@ + b@,
{
    let mut v = chars_of(a);
    crate::text::push_chars(&mut v, &chars_of(b));
    v
}

/// The lines of a finished MCP tool call: an omitted-image note when the
/// result starts with an image that decodes; else the status and duration,
/// the call, and each piece of the result (or the error).
pub fn new_completed_mcp_tool_call(
    num_cols: usize,
    invocation: McpInvocation,
    duration: &str,
    success: bool,
    result: Result<Vec<McpContent>, String>,
) -> (r: Vec<StyledLine>)
    requires
        TOOL_CALL_MAX_LINES * num_cols <= usize::MAX,
    ensures
        lines_view(r@) == mcp_call_rows(num_cols as nat, invocation, duration@, success, result),
{
    let image_output = image_result(&result);
    completed_mcp_tool_call_lines(num_cols, invocation, duration, success, result, image_output)
}

/// The lines of a finished MCP tool call, given whether its result was
/// found to be an image (see [`new_completed_mcp_tool_call`]).
pub fn completed_mcp_tool_call_lines(
    num_cols: usize,
    invocation: McpInvocation,
    duration: &str,
    success: bool,
    result: Result<Vec<McpContent>, String>,
    image_output: bool,
) -> (r: Vec<StyledLine>)
    requires
        TOOL_CALL_MAX_LINES * num_cols <= usize::MAX,
    ensures
        lines_view(r@) == mcp_call_rows_given(num_cols as nat, invocation, duration@, success, result, image_output),
{
    let mut out: Vec<StyledLine> = Vec::new();
    if image_output {
        out.push(raw_line(chars_of("tool result (image output omitted)")));
        out.push(blank_line());
        proof {
            assert(lines_view(out@) =~= mcp_call_rows_given(num_cols as nat, invocation, duration@, success, result, image_output));
        }
        return out;
    }
    let mut spans: Vec<StyledSpan> = Vec::new();
    spans.push(mk_span(chars_of("tool"), Some(Color::Magenta), 0));
    spans.push(raw_span(" "));
    if success {
        spans.push(mk_span(chars_of("success"), Some(Color::Green), 0));
    } else {
        spans.push(mk_span(chars_of("failed"), Some(Color::Red), 0));
    }
    spans.push(mk_span(count_free_concat(", duration: ", duration), None, DIM));
    let ghost title = plain_line(
        seq![
            span_of("tool"@, Some(Color::Magenta), 0),
            raw(" "@),
            if success {
                span_of("success"@, Some(Color::Green), 0)
            } else {
                span_of("failed"@, Some(Color::Red), 0)
            },
            span_of(", duration: "@ + duration@, None, DIM),
        ],
    );
    proof {
        assert(spans_view(spans@) =~= title.spans);
    }
    out.push(StyledLine { spans, fg: None });
    out.push(invocation_line(&invocation));
    let ghost head = lines_view(out@);
    proof {
        assert(head =~= seq![title, invocation_row(invocation)]);
    }
    let ghost res = result;
    match result {
        Ok(content) => {
            if content.len() > 0 {
                out.push(blank_line());
                let ghost start = lines_view(out@);
                let mut i: usize = 0;
                while i < content.len()
                    invariant
                        TOOL_CALL_MAX_LINES * num_cols <= usize::MAX,
                        i <= content@.len(),
                        lines_view(out@) == start + content@.take(i as int).map_values(
                            |c: McpContent| content_row(c, num_cols as nat),
                        ),
                    decreases content.len() - i,
                {
                    let ghost before = lines_view(out@);
                    out.push(content_line(&content[i], num_cols));
                    proof {
                        assert(lines_view(out@) =~= before.push(content_row(content@[i as int], num_cols as nat)));
                        assert(content@.take(i + 1) =~= content@.take(i as int).push(content@[i as int]));
                        assert(lines_view(out@) =~= start + content@.take(i + 1).map_values(
                            |c: McpContent| content_row(c, num_cols as nat),
                        ));
                    }
                    i += 1;
                }
                proof {
                    assert(content@.take(content@.len() as int) =~= content@);
                    assert(lines_view(out@) =~= head + (seq![blank_row()] + content@.map_values(
                        |c: McpContent| content_row(c, num_cols as nat),
                    )));
                }
            }
            let ghost body = lines_view(out@);
            out.push(blank_line());
            proof {
                assert(lines_view(out@) =~= body.push(blank_row()));
            }
        },
        Err(e) => {
            let mut sp: Vec<StyledSpan> = Vec::new();
            sp.push(mk_span(chars_of("Error: "), Some(Color::Red), BOLD));
            sp.push(mk_span(chars_of(e.as_str()), None, 0));
            proof {
                assert(spans_view(sp@) =~= seq![span_of("Error: "@, Some(Color::Red), BOLD), raw(e@)]);
            }
            out.push(StyledLine { spans: sp, fg: None });
        },
    }
    proof {
        assert(lines_view(out@) =~= mcp_call_rows_given(num_cols as nat, invocation, duration@, success, res, image_output));
    }
    out
}

/// A command as the agent's command parser understood it.
#[derive(Debug, Clone, PartialEq, Eq)]
pub enum ParsedCommand {
    Read { cmd: String, name: String },
    ListFiles { cmd: String, path: Option<String> },
    Search { cmd: String, query: Option<String>, path: Option<String> },
    Format { cmd: String },
    Test { cmd: String },
    Lint { cmd: String },
    Unknown { cmd: String },
    Noop { cmd: String },
}

/// The text shown for a parsed command: an icon and what it does.
pub open spec fn parsed_text(p: ParsedCommand) -> Seq<char> {
    match p {
        ParsedCommand::Read { name, .. } => "📖 "@ + name@,
        ParsedCommand::ListFiles { cmd, path } => match path {
            Some(x) => "📂 "@ + x@,
            None => "📂 "@ + cmd@,
        },
        ParsedCommand::Search { cmd, query, path } => match (query, path) {
            (Some(q), Some(x)) => "🔎 "@ + q@ + " in "@ + x@,
            (Some(q), None) => "🔎 "@ + q@,
            (None, Some(x)) => "🔎 "@ + x@,
            (None, None) => "🔎 "@ + cmd@,
        },
        ParsedCommand::Format { .. } => "✨ Formatting"@,
        ParsedCommand::Test { cmd } => "🧪 "@ + cmd@,
        ParsedCommand::Lint { cmd } => "🧹 "@ + cmd@,
        ParsedCommand::Unknown { cmd } => "\u{2328}\u{fe0f} "@ + cmd@,
        ParsedCommand::Noop { cmd } => "🔄 "@ + cmd@,
    }
}

/// "-" and the digits of a negative number, else its digits.
pub open spec fn signed_decimal(x: int) -> Seq<char> {
    if x < 0 {
        "-"@ + decimal((-x) as nat)
    } else {
        decimal(x as nat)
    }
}

/// The rows of one parsed command: a row per line of its text, the first
/// behind the elbow when it is the first command; prefixes dimmed, the text
/// in `color`.
pub open spec fn parsed_rows(i: int, p: ParsedCommand, color: Color) -> Seq<LineView> {
    let ls = lines(parsed_text(p));
    Seq::new(
        ls.len(),
        |j: int|
            plain_line(
                seq![
                    span_of(
                        if j == 0 && i == 0 {
                            "  └ "@
                        } else {
                            "    "@
                        },
                        None,
                        DIM,
                    ),
                    span_of(ls[j], Some(color), 0),
                ],
            ),
    )
}

proof fn lemma_parsed_rows(i: int, p: ParsedCommand, color: Color, j: int)
    ensures
        parsed_rows(i, p, color).len() == lines(parsed_text(p)).len(),
        0 <= j < lines(parsed_text(p)).len() ==> parsed_rows(i, p, color)[j] == plain_line(
            seq![
                span_of(
                    if j == 0 && i == 0 {
                        "  └ "@
                    } else {
                        "    "@
                    },
                    None,
                    DIM,
                ),
                span_of(lines(parsed_text(p))[j], Some(color), 0),
            ],
        ),
{
}

/// The rows of the parsed commands from `i` on.
pub open spec fn all_parsed_rows(ps: Seq<ParsedCommand>, i: int, color: Color) -> Seq<LineView>
    decreases ps.len() - i,
{
    if i < 0 || i >= ps.len() {
        Seq::empty()
    } else {
        parsed_rows(i, ps[i], color) + all_parsed_rows(ps, i + 1, color)
    }
}

/// The title of a command run: working (with the time it has run),
/// completed, or failed with its exit code.
pub open spec fn parsed_title(output: Option<&CommandOutput>, elapsed_secs: Option<u64>) -> Seq<SpanView> {
    match output {
        None => seq![span_of("\u{2699}\u{fe0e} Working"@, Some(Color::Magenta), BOLD)] + duration_spans(elapsed_secs),
        Some(o) => if o.exit_code == 0 {
            seq![span_of("✓ Completed"@, Some(Color::Green), BOLD)]
        } else {
            seq![span_of("✗ Failed (exit "@ + signed_decimal(o.exit_code as int) + ")"@, Some(Color::Red), BOLD)]
        },
    }
}

/// The rows of a command the agent runs, as parsed: the title, each parsed
/// command, the error output when it failed, and a blank row.
pub open spec fn parsed_command_rows(
    ps: Seq<ParsedCommand>,
    output: Option<&CommandOutput>,
    elapsed_secs: Option<u64>,
    color: Color,
) -> Seq<LineView> {
    seq![plain_line(parsed_title(output, elapsed_secs))] + all_parsed_rows(ps, 0, color) + output_lines_spec(
        output,
        true,
        false,
    ) + seq![blank_row()]
}

proof fn lemma_all_parsed_rows_take(ps: Seq<ParsedCommand>, k: int, n: int, color: Color)
    requires
        0 <= k < n <= ps.len(),
    ensures
        all_parsed_rows(ps.take(n), 0, color) == all_parsed_rows(ps.take(k), 0, color) + parsed_rows(k, ps[k], color)
            + all_parsed_rows(ps.take(n), k + 1, color),
    decreases k,
{
    let t = ps.take(n);
    if k > 0 {
        lemma_all_parsed_rows_take(ps, k - 1, n, color);
        lemma_all_parsed_rows_take(ps, k - 1, k, color);
        assert(ps.take(k)[k - 1] == ps[k - 1]);
        assert(t[k - 1] == ps[k - 1]);
        assert(all_parsed_rows(ps.take(k), k, color) =~= Seq::<LineView>::empty());
        assert(all_parsed_rows(t, k, color) == parsed_rows(k, t[k], color) + all_parsed_rows(t, k + 1, color));
        assert(t[k] == ps[k]);
        assert(all_parsed_rows(ps.take(k), 0, color) == all_parsed_rows(ps.take(k - 1), 0, color) + parsed_rows(
            k - 1,
            ps[k - 1],
            color,
        ) + Seq::<LineView>::empty());
    } else {
        assert(all_parsed_rows(ps.take(0), 0, color) =~= Seq::<LineView>::empty());
        assert(all_parsed_rows(t, 0, color) == parsed_rows(0, t[0], color) + all_parsed_rows(t, 1, color));
        assert(t[0] == ps[0]);
        assert(all_parsed_rows(t, 0, color) =~= Seq::<LineView>::empty() + parsed_rows(0, ps[0], color)
            + all_parsed_rows(t, 1, color));
    }
}

fn concat_text(a: &str, b: &str) -> (r: Vec<char>)
    ensures
        r@ == a@ + b@,
{
    let mut v = chars_of(a);
    crate::text::push_chars(&mut v, &chars_of(b));
    v
}

fn parsed_text_of(p: &ParsedCommand) -> (r: Vec<char>)
    ensures
        r@ == parsed_text(*p),
{
    match p {
        ParsedCommand::Read { name, .. } => concat_text("📖 ", name.as_str()),
        ParsedCommand::ListFiles { cmd, path } => match path {
            Some(x) => concat_text("📂 ", x.as_str()),
            None => concat_text("📂 ", cmd.as_str()),
        },
        ParsedCommand::Search { cmd, query, path } => match (query, path) {
            (Some(q), Some(x)) => {
                let mut v = concat_text("🔎 ", q.as_str());
                crate::text::push_chars(&mut v, &concat_text(" in ", x.as_str()));
                proof {
                    assert(v@ =~= "🔎 "@ + q@ + " in "@ + x@);
                }
                v
            },
            (Some(q), None) => concat_text("🔎 ", q.as_str()),
            (None, Some(x)) => concat_text("🔎 ", x.as_str()),
            (None, None) => concat_text("🔎 ", cmd.as_str()),
        },
        ParsedCommand::Format { .. } => chars_of("✨ Formatting"),
        ParsedCommand::Test { cmd } => concat_text("🧪 ", cmd.as_str()),
        ParsedCommand::Lint { cmd } => concat_text("🧹 ", cmd.as_str()),
        ParsedCommand::Unknown { cmd } => concat_text("\u{2328}\u{fe0f} ", cmd.as_str()),
        ParsedCommand::Noop { cmd } => concat_text("🔄 ", cmd.as_str()),
    }
}

fn parsed_lines(i: usize, p: &ParsedCommand, color: Color) -> (r: Vec<StyledLine>)
    ensures
        lines_view(r@) == parsed_rows(i as int, *p, color),
{
    let t = parsed_text_of(p);
    let bounds = line_bounds(&t);
    let ghost ls = lines(parsed_text(*p));
    let mut out: Vec<StyledLine> = Vec::new();
    let mut j: usize = 0;
    while j < bounds.len()
        invariant
            t@ == parsed_text(*p),
            ls == lines(parsed_text(*p)),
            bounds_within(bounds@, t@.len() as int),
            spans_of(t@, bounds@) == ls,
            j <= bounds@.len(),
            lines_view(out@) == parsed_rows(i as int, *p, color).take(j as int),
        decreases bounds.len() - j,
    {
        let (a, b) = bounds[j];
        let prefix = if j == 0 && i == 0 {
            "  └ "
        } else {
            "    "
        };
        let mut spans: Vec<StyledSpan> = Vec::new();
        spans.push(mk_span(chars_of(prefix), None, DIM));
        spans.push(StyledSpan { content: string_from(&t[a..b]), fg: Some(color), bg: None, add_modifier: 0, sub_modifier: 0 });
        let line = StyledLine { spans, fg: None };
        proof {
            assert(spans_of(t@, bounds@).len() == bounds@.len());
            assert(ls.len() == bounds@.len());
            lemma_parsed_rows(i as int, *p, color, j as int);

            assert(ls[j as int] == t@.subrange(a as int, b as int));
            assert(spans_view(line.spans@) =~= parsed_rows(i as int, *p, color)[j as int].spans);
        }
        let ghost before = lines_view(out@);
        out.push(line);
        proof {
            assert(lines_view(out@) =~= before.push(parsed_rows(i as int, *p, color)[j as int]));
            assert(parsed_rows(i as int, *p, color).take(j + 1) =~= parsed_rows(i as int, *p, color).take(j as int).push(
                parsed_rows(i as int, *p, color)[j as int],
            ));
        }
        j += 1;
    }
    proof {
        assert(parsed_rows(i as int, *p, color).take(bounds@.len() as int) =~= parsed_rows(i as int, *p, color));
    }
    out
}

fn signed_text(x: i32) -> (r: Vec<char>)
    ensures
        r@ == signed_decimal(x as int),
{
    let mut v: Vec<char> = Vec::new();
    if x < 0 {
        v.push('-');
        let m: u64 = (0i64 - (x as i64)) as u64;
        push_decimal(&mut v, m);
        proof {
            reveal_strlit("-");
            assert(v@ =~= "-"@ + decimal((-(x as int)) as nat));
        }
    } else {
        push_decimal(&mut v, x as u64);
        proof {
            assert(v@ =~= decimal(x as nat));
        }
    }
    v
}

/// The lines of a command the agent runs, shown as parsed; the parsed
/// commands' text is drawn in `color`.
pub fn new_parsed_command(
    parsed_commands: &Vec<ParsedCommand>,
    output: Option<&CommandOutput>,
    elapsed_secs: Option<u64>,
    color: Color,
) -> (r: Vec<StyledLine>)
    ensures
        lines_view(r@) == parsed_command_rows(parsed_commands@, output, elapsed_secs, color),
{
    let mut spans: Vec<StyledSpan> = Vec::new();
    match output {
        None => {
            spans.push(mk_span(chars_of("\u{2699}\u{fe0e} Working"), Some(Color::Magenta), BOLD));
            match elapsed_secs {
                Some(d) => {
                    let mut t: Vec<char> = Vec::new();
                    push_str(&mut t, " • ");
                    push_decimal(&mut t, d);
                    push_str(&mut t, "s");
                    spans.push(mk_span(t, None, DIM));
                },
                None => {},
            }
        },
        Some(o) => {
            if o.exit_code == 0 {
                spans.push(mk_span(chars_of("✓ Completed"), Some(Color::Green), BOLD));
            } else {
                let mut t = chars_of("✗ Failed (exit ");
                crate::text::push_chars(&mut t, &signed_text(o.exit_code));
                crate::text::push_chars(&mut t, &chars_of(")"));
                spans.push(mk_span(t, Some(Color::Red), BOLD));
            }
        },
    }
    proof {
        assert(spans_view(spans@) =~= parsed_title(output, elapsed_secs));
    }
    let mut out: Vec<StyledLine> = Vec::new();
    out.push(StyledLine { spans, fg: None });
    let ghost title = lines_view(out@);
    let ghost ps = parsed_commands@;
    let mut i: usize = 0;
    while i < parsed_commands.len()
        invariant
            ps == parsed_commands@,
            i <= ps.len(),
            lines_view(out@) == title + all_parsed_rows(ps.take(i as int), 0, color),
        decreases parsed_commands.len() - i,
    {
        let more = parsed_lines(i, &parsed_commands[i], color);
        push_lines(&mut out, more);
        proof {
            lemma_all_parsed_rows_take(ps, i as int, i + 1, color);
            assert(all_parsed_rows(ps.take(i + 1), i + 1, color) =~= Seq::<LineView>::empty());
            assert(ps.take(i + 1)[i as int] == ps[i as int]);
            assert(lines_view(out@) =~= title + all_parsed_rows(ps.take(i + 1), 0, color));
        }
        i += 1;
    }
    proof {
        assert(ps.take(ps.len() as int) =~= ps);
    }
    push_lines(&mut out, output_lines(output, true, false));
    let ghost body = lines_view(out@);
    out.push(blank_line());
    proof {
        assert(lines_view(out@) =~= body.push(blank_row()));
        assert(lines_view(out@) =~= parsed_command_rows(ps, output, elapsed_secs, color));
    }
    out
}

/// The lines of a command the agent runs: as parsed when the parser
/// understood it, else the command itself.
pub fn exec_command_lines(
    command: &Vec<String>,
    parsed: &Vec<ParsedCommand>,
    output: Option<&CommandOutput>,
    elapsed_secs: Option<u64>,
    color: Color,
) -> (r: Vec<StyledLine>)
    ensures
        parsed@.len() == 0 ==> lines_view(r@) == exec_generic_rows(
            command@.map_values(|w: String| w@),
            output,
            elapsed_secs,
        ),
        parsed@.len() > 0 ==> lines_view(r@) == parsed_command_rows(parsed@, output, elapsed_secs, color),
{
    if parsed.len() == 0 {
        new_exec_command_generic(command, output, elapsed_secs)
    } else {
        new_parsed_command(parsed, output, elapsed_secs, color)
    }
}

/// The rows of a patch event: the summary of a proposed patch, or of one
/// being applied without asking, with a blank row; a patch applied after
/// approval gets its title only.
pub open spec fn patch_event_rows(
    event: crate::diff_render::PatchEventType,
    changes: Seq<crate::diff_render::ChangedFile>,
    cols: nat,
) -> Seq<LineView> {
    let fs = changes.map_values(|f: crate::diff_render::ChangedFile| crate::diff_render::changed_view(f));
    match event {
        crate::diff_render::PatchEventType::ApprovalRequest => crate::diff_render::diff_summary(
            "proposed patch"@,
            fs,
            event,
            cols,
        ) + seq![blank_row()],
        crate::diff_render::PatchEventType::ApplyBegin { auto_approved } => if auto_approved {
            crate::diff_render::diff_summary("\u{270f}\u{fe0f} Applying patch"@, fs, event, cols) + seq![blank_row()]
        } else {
            seq![
                plain_line(seq![span_of("\u{270f}\u{fe0f} Applying patch"@, Some(Color::Magenta), BOLD)]),
                blank_row(),
            ]
        },
    }
}

/// The lines of a patch proposed or being applied, wrapped to `term_cols`.
pub fn new_patch_event(
    event_type: crate::diff_render::PatchEventType,
    changes: &Vec<crate::diff_render::ChangedFile>,
    term_cols: usize,
) -> (r: Vec<StyledLine>)
    requires
        crate::diff_render::paths_distinct(changes@),
    ensures
        lines_view(r@) == patch_event_rows(event_type, changes@, term_cols as nat),
{
    let title = match event_type {
        crate::diff_render::PatchEventType::ApprovalRequest => "proposed patch",
        crate::diff_render::PatchEventType::ApplyBegin { auto_approved } => {
            if auto_approved {
                "\u{270f}\u{fe0f} Applying patch"
            } else {
                let mut out: Vec<StyledLine> = Vec::new();
                out.push(styled_line("\u{270f}\u{fe0f} Applying patch", Some(Color::Magenta), BOLD));
                out.push(blank_line());
                proof {
                    assert(lines_view(out@) =~= patch_event_rows(event_type, changes@, term_cols as nat));
                }
                return out;
            }
        },
    };
    let mut out = crate::diff_render::create_diff_summary(title, changes, event_type, term_cols);
    let ghost body = lines_view(out@);
    out.push(blank_line());
    proof {
        assert(lines_view(out@) =~= body.push(blank_row()));
        assert(lines_view(out@) =~= patch_event_rows(event_type, changes@, term_cols as nat));
    }
    out
}

} // verus!
