//! The dimmed line of key hints under the chat composer, with the token
//! usage of the session when it is known.
use vstd::prelude::*;
use crate::chat_composer::TokenUsageInfo;
use crate::diff_render::{dim_span, dimmed, line_view, mk_span, raw, span_of, LineView, StyledLine};
use crate::insert_history::{span_view, spans_view, Color, SpanView, StyledSpan, DIM};
use crate::text::{chars_of, decimal, push_decimal};
use crate::transcript_app::key_span;

verus! {

/// The hints: how to quit again after a first Control-C, else how to send,
/// break a line (Shift+Enter when the terminal reports it), open the
/// transcript and quit, and how to edit the previous message when that is
/// offered; then, when usage is known, the tokens used and, when the model's
/// context window is known, the share of it left (all of it for an empty
/// window). The whole line is dimmed.
pub open spec fn footer_spans(
    ctrl_c_quit_hint: bool,
    use_shift_enter_hint: bool,
    esc_backtrack_hint: bool,
    info: Option<TokenUsageInfo>,
    tokens_used: u64,
    percent_left: u8,
) -> Seq<SpanView> {
    let base = if ctrl_c_quit_hint {
        seq![raw(" "@), key_span("Ctrl+C again"@), raw(" to quit"@)]
    } else {
        seq![
            raw(" "@),
            key_span("⏎"@),
            raw(" send   "@),
            key_span(
                if use_shift_enter_hint {
                    "Shift+⏎"@
                } else {
                    "Ctrl+J"@
                },
            ),
            raw(" newline   "@),
            key_span("Ctrl+T"@),
            raw(" transcript   "@),
            key_span("Ctrl+C"@),
            raw(" quit"@),
        ]
    };
    let esc = if !ctrl_c_quit_hint && esc_backtrack_hint {
        seq![raw("   "@), key_span("Esc"@), raw(" edit prev"@)]
    } else {
        Seq::empty()
    };
    let usage = match info {
        Some(i) => seq![raw("   "@), span_of(decimal(tokens_used as nat) + " tokens used"@, None, DIM)]
            + match i.model_context_window {
            Some(cw) => seq![
                raw("   "@),
                span_of(
                    decimal(
                        if cw > 0 {
                            percent_left as nat
                        } else {
                            100
                        },
                    ) + "% context left"@,
                    None,
                    DIM,
                ),
            ],
            None => Seq::empty(),
        },
        None => Seq::empty(),
    };
    (base + esc + usage).map_values(|s: SpanView| dimmed(s))
}

fn push_dim(v: &mut Vec<StyledSpan>, s: StyledSpan)
    ensures
        spans_view(final(v)@) == spans_view(old(v)@).push(dimmed(span_view(s))),
{
    let d = dim_span(s);
    v.push(d);
    proof {
        assert(spans_view(v@) =~= spans_view(old(v)@).push(span_view(d)));
    }
}

fn key(t: &str) -> (r: StyledSpan)
    ensures
        span_view(r) == key_span(t@),
{
    mk_span(chars_of(t), Some(Color::Cyan), 0)
}

fn plain(t: &str) -> (r: StyledSpan)
    ensures
        span_view(r) == raw(t@),
{
    mk_span(chars_of(t), None, 0)
}

fn count_span(n: u64, suffix: &str) -> (r: StyledSpan)
    ensures
        span_view(r) == span_of(decimal(n as nat) + suffix@, None, DIM),
{
    let mut c: Vec<char> = Vec::new();
    push_decimal(&mut c, n);
    crate::text::push_chars(&mut c, &chars_of(suffix));
    mk_span(c, None, DIM)
}

/// The footer line.
pub fn footer_hint_line(
    ctrl_c_quit_hint: bool,
    use_shift_enter_hint: bool,
    esc_backtrack_hint: bool,
    info: Option<TokenUsageInfo>,
    tokens_used: u64,
    percent_left: u8,
) -> (r: StyledLine)
    ensures
        line_view(r) == (LineView {
            spans: footer_spans(ctrl_c_quit_hint, use_shift_enter_hint, esc_backtrack_hint, info, tokens_used, percent_left),
            fg: None,
        }),
{
    let mut v: Vec<StyledSpan> = Vec::new();
    if ctrl_c_quit_hint {
        push_dim(&mut v, plain(" "));
        push_dim(&mut v, key("Ctrl+C again"));
        push_dim(&mut v, plain(" to quit"));
    } else {
        push_dim(&mut v, plain(" "));
        push_dim(&mut v, key("⏎"));
        push_dim(&mut v, plain(" send   "));
        if use_shift_enter_hint {
            push_dim(&mut v, key("Shift+⏎"));
        } else {
            push_dim(&mut v, key("Ctrl+J"));
        }
        push_dim(&mut v, plain(" newline   "));
        push_dim(&mut v, key("Ctrl+T"));
        push_dim(&mut v, plain(" transcript   "));
        push_dim(&mut v, key("Ctrl+C"));
        push_dim(&mut v, plain(" quit"));
    }
    let ghost base = spans_view(v@);
    if !ctrl_c_quit_hint && esc_backtrack_hint {
        push_dim(&mut v, plain("   "));
        push_dim(&mut v, key("Esc"));
        push_dim(&mut v, plain(" edit prev"));
    }
    let ghost with_esc = spans_view(v@);
    match info {
        Some(i) => {
            push_dim(&mut v, plain("   "));
            push_dim(&mut v, count_span(tokens_used, " tokens used"));
            match i.model_context_window {
                Some(cw) => {
                    let p: u64 = if cw > 0 {
                        percent_left as u64
                    } else {
                        100
                    };
                    push_dim(&mut v, plain("   "));
                    push_dim(&mut v, count_span(p, "% context left"));
                },
                None => {},
            }
        },
        None => {},
    }
    proof {
        let b = if ctrl_c_quit_hint {
            seq![raw(" "@), key_span("Ctrl+C again"@), raw(" to quit"@)]
        } else {
            seq![
                raw(" "@),
                key_span("⏎"@),
                raw(" send   "@),
                key_span(
                    if use_shift_enter_hint {
                        "Shift+⏎"@
                    } else {
                        "Ctrl+J"@
                    },
                ),
                raw(" newline   "@),
                key_span("Ctrl+T"@),
                raw(" transcript   "@),
                key_span("Ctrl+C"@),
                raw(" quit"@),
            ]
        };
        assert(base =~= b.map_values(|s: SpanView| dimmed(s)));
        let e = if !ctrl_c_quit_hint && esc_backtrack_hint {
            seq![raw("   "@), key_span("Esc"@), raw(" edit prev"@)]
        } else {
            Seq::empty()
        };
        assert(with_esc =~= (b + e).map_values(|s: SpanView| dimmed(s)));
        assert(spans_view(v@) =~= footer_spans(
            ctrl_c_quit_hint,
            use_shift_enter_hint,
            esc_backtrack_hint,
            info,
            tokens_used,
            percent_left,
        ));
    }
    StyledLine { spans: v, fg: None }
}

} // verus!
