//! The status shown above the composer while the agent works: an animated
//! header with the time elapsed, and the messages queued for the next turn,
//! each wrapped to at most three rows.
use vstd::prelude::*;
use crate::diff_render::{dim_span, dimmed, line_view, lines_view, mk_span, raw, span_of, LineView, StyledLine};
use crate::history_cell::plain_line;
use crate::insert_history::{span_view, spans_view, Color, SpanView, StyledSpan, BOLD, DIM, ITALIC};
use crate::text::{chars_of, decimal, push_chars, push_decimal, string_from};
use crate::transcript_app::key_span;

verus! {

/// The rows `textwrap::wrap` makes of `text` at `width` columns, words kept
/// whole and without hyphenation.
pub uninterp spec fn wrapped_rows(text: Seq<char>, width: nat) -> Seq<Seq<char>>;

/// `textwrap::wrap(text, Options::new(width).break_words(false)
/// .word_splitter(WordSplitter::NoHyphenation))`: claimed to equal
/// `wrapped_rows(text, width)`, a function of its arguments alone.
#[verifier::external_body]
fn wrap_words(text: &str, width: usize) -> (r: Vec<String>)
    ensures
        r@.map_values(|s: String| s@) == wrapped_rows(text@, width as nat),
{
    let opts = textwrap::Options::new(width).break_words(false).word_splitter(
        textwrap::WordSplitter::NoHyphenation,
    );
    textwrap::wrap(text, &opts).into_iter().map(|c| c.into_owned()).collect()
}

/// Rows at most shown of one queued message.
pub const MAX_ROWS_PER_MESSAGE: usize = 3;

pub open spec fn sat16(n: int) -> u16 {
    if n <= u16::MAX {
        n as u16
    } else {
        u16::MAX
    }
}

/// The height after adding one queued message of `rows` wrapped rows: at
/// most three of them, and a row for the ellipsis when there are more.
pub open spec fn add_message_height(total: u16, rows: nat) -> u16 {
    let shown = sat16(
        total + if rows < MAX_ROWS_PER_MESSAGE {
            rows as int
        } else {
            MAX_ROWS_PER_MESSAGE as int
        },
    );
    if rows > MAX_ROWS_PER_MESSAGE {
        sat16(shown + 1)
    } else {
        shown
    }
}

/// The height of the messages after `total` rows, at `w` columns of text.
pub open spec fn messages_height(total: u16, qs: Seq<Seq<char>>, w: nat) -> u16
    decreases qs.len(),
{
    if qs.len() == 0 {
        total
    } else {
        messages_height(add_message_height(total, wrapped_rows(qs[0], w).len()), qs.drop_first(), w)
    }
}

/// The rows the status takes at `width` columns: the status row, the
/// queued messages (three rows each at most, an ellipsis row when cut) and
/// a hint row when there are any, and a spacer row; when too narrow to
/// wrap, one row per message.
pub open spec fn status_height(qs: Seq<Seq<char>>, width: u16) -> u16 {
    let inner = if width >= 1 {
        width as int
    } else {
        1
    };
    let text_width = if inner >= 3 {
        inner - 3
    } else {
        0
    };
    let body = if text_width > 0 {
        let m = messages_height(1, qs, text_width as nat);
        if qs.len() > 0 {
            sat16(m + 1)
        } else {
            m
        }
    } else {
        sat16(1 + (qs.len() as u16))
    };
    sat16(body + 1)
}

/// The rows of one queued message: its first three wrapped rows, dimmed and
/// in italics, the first behind an arrow; an ellipsis row when it is cut.
pub open spec fn message_rows(rows: Seq<Seq<char>>) -> Seq<LineView> {
    let k = if rows.len() < MAX_ROWS_PER_MESSAGE {
        rows.len()
    } else {
        MAX_ROWS_PER_MESSAGE as nat
    };
    Seq::new(
        k,
        |i: int|
            plain_line(
                seq![span_of(
                    (if i == 0 {
                        " ↳ "@
                    } else {
                        "   "@
                    }) + rows[i],
                    None,
                    DIM | ITALIC,
                )],
            ),
    ) + if rows.len() > MAX_ROWS_PER_MESSAGE {
        seq![plain_line(seq![span_of("   …"@, None, DIM | ITALIC)])]
    } else {
        Seq::empty()
    }
}

/// The rows of all queued messages, in order.
pub open spec fn queued_rows(qs: Seq<Seq<char>>, w: nat) -> Seq<LineView>
    decreases qs.len(),
{
    if qs.len() == 0 {
        Seq::empty()
    } else {
        message_rows(wrapped_rows(qs[0], w)) + queued_rows(qs.drop_first(), w)
    }
}

/// The rows under the status row at `width` columns: the queued messages
/// wrapped to the width less the arrow, then, when there are any, a dimmed
/// hint that Alt+↑ edits them.
pub open spec fn queue_rows(qs: Seq<Seq<char>>, width: u16) -> Seq<LineView> {
    let text_width: nat = if width >= 3 {
        (width - 3) as nat
    } else {
        0
    };
    queued_rows(qs, text_width) + if qs.len() > 0 {
        seq![
            LineView {
                spans: seq![raw("   "@), span_of("Alt+↑"@, Some(Color::Cyan), 0), raw(" edit"@)].map_values(
                    |s: SpanView| dimmed(s),
                ),
                fg: None,
            },
        ]
    } else {
        Seq::empty()
    }
}

/// The spans after the animated header: the seconds elapsed and how to
/// interrupt, dimmed.
pub open spec fn status_tail(elapsed_secs: u64) -> Seq<SpanView> {
    seq![
        raw(" "@),
        span_of("("@ + decimal(elapsed_secs as nat) + "s • "@, None, DIM),
        span_of("Esc"@, None, DIM | BOLD),
        span_of(" to interrupt)"@, None, DIM),
    ]
}

/// The status indicator.
pub struct StatusIndicatorWidget {
    header: String,
    queued_messages: Vec<String>,
}

pub open spec fn strings_view(v: Seq<String>) -> Seq<Seq<char>> {
    v.map_values(|s: String| s@)
}

impl StatusIndicatorWidget {
    pub closed spec fn header_view(&self) -> Seq<char> {
        self.header@
    }

    pub closed spec fn queue_view(&self) -> Seq<Seq<char>> {
        strings_view(self.queued_messages@)
    }

    /// A status saying "Working", with nothing queued.
    pub fn new() -> (r: Self)
        ensures
            r.header_view() == "Working"@,
            r.queue_view() == Seq::<Seq<char>>::empty(),
    {
        let q: Vec<String> = Vec::new();
        proof {
            assert(strings_view(q@) =~= Seq::<Seq<char>>::empty());
        }
        StatusIndicatorWidget { header: String::from_str("Working"), queued_messages: q }
    }

    /// The animated header.
    pub fn header(&self) -> (r: &str)
        ensures
            r@ == self.header_view(),
    {
        self.header.as_str()
    }

    /// Replace the header.
    pub fn update_header(&mut self, header: String)
        ensures
            final(self).header_view() == header@,
            final(self).queue_view() == old(self).queue_view(),
    {
        self.header = header;
    }

    /// Replace the queued messages shown.
    pub fn set_queued_messages(&mut self, queued: Vec<String>)
        ensures
            final(self).queue_view() == strings_view(queued@),
            final(self).header_view() == old(self).header_view(),
    {
        self.queued_messages = queued;
    }

    /// The rows the status takes at `width` columns.
    pub fn desired_height(&self, width: u16) -> (r: u16)
        ensures
            r == status_height(self.queue_view(), width),
    {
        let inner: usize = if width >= 1 {
            width as usize
        } else {
            1
        };
        let mut total: u16 = 1;
        let text_width = inner.saturating_sub(3);
        let ghost qs = self.queue_view();
        if text_width > 0 {
            let mut i: usize = 0;
            proof {
                assert(qs.skip(0) =~= qs);
            }
            while i < self.queued_messages.len()
                invariant
                    qs == strings_view(self.queued_messages@),
                    i <= qs.len(),
                    messages_height(total, qs.skip(i as int), text_width as nat) == messages_height(
                        1,
                        qs,
                        text_width as nat,
                    ),
                decreases self.queued_messages.len() - i,
            {
                let wrapped = wrap_words(self.queued_messages[i].as_str(), text_width);
                let n = wrapped.len();
                proof {
                    assert(qs[i as int] == self.queued_messages@[i as int]@);
                    assert(qs.skip(i as int).drop_first() =~= qs.skip(i + 1));
                    assert(qs.skip(i as int)[0] == qs[i as int]);
                    assert(n == wrapped_rows(qs[i as int], text_width as nat).len());
                }
                let shown: u16 = if n < MAX_ROWS_PER_MESSAGE {
                    n as u16
                } else {
                    3
                };
                total = total.saturating_add(shown);
                if n > MAX_ROWS_PER_MESSAGE {
                    total = total.saturating_add(1);
                }
                i += 1;
            }
            proof {
                assert(qs.skip(qs.len() as int) =~= Seq::<Seq<char>>::empty());
            }
            if self.queued_messages.len() > 0 {
                total = total.saturating_add(1);
            }
        } else {
            total = total.saturating_add(self.queued_messages.len() as u16);
        }
        total.saturating_add(1)
    }

    /// The spans after the animated header.
    pub fn status_tail_spans(&self, elapsed_secs: u64) -> (r: Vec<StyledSpan>)
        ensures
            spans_view(r@) == status_tail(elapsed_secs),
    {
        let mut v: Vec<StyledSpan> = Vec::new();
        v.push(mk_span(chars_of(" "), None, 0));
        let mut c = chars_of("(");
        push_decimal(&mut c, elapsed_secs);
        push_chars(&mut c, &chars_of("s • "));
        let ghost cv = c@;
        v.push(mk_span(c, None, DIM));
        v.push(mk_span(chars_of("Esc"), None, DIM | BOLD));
        v.push(mk_span(chars_of(" to interrupt)"), None, DIM));
        proof {
            assert(cv =~= "("@ + decimal(elapsed_secs as nat) + "s • "@);
            assert(spans_view(v@) =~= status_tail(elapsed_secs));
        }
        v
    }

    /// The rows under the status row at `width` columns.
    pub fn queued_lines(&self, width: u16) -> (r: Vec<StyledLine>)
        ensures
            lines_view(r@) == queue_rows(self.queue_view(), width),
    {
        let text_width: usize = width.saturating_sub(3) as usize;
        let ghost qs = self.queue_view();
        let mut out: Vec<StyledLine> = Vec::new();
        let mut i: usize = 0;
        proof {
            assert(qs.take(0) =~= Seq::<Seq<char>>::empty());
            lemma_queued_rows_take(qs, 0, text_width as nat);
        }
        while i < self.queued_messages.len()
            invariant
                qs == strings_view(self.queued_messages@),
                i <= qs.len(),
                lines_view(out@) == queued_rows(qs.take(i as int), text_width as nat),
            decreases self.queued_messages.len() - i,
        {
            let wrapped = wrap_words(self.queued_messages[i].as_str(), text_width);
            let ghost rows = wrapped_rows(qs[i as int], text_width as nat);
            proof {
                assert(qs[i as int] == self.queued_messages@[i as int]@);
            }
            let ghost before = lines_view(out@);
            let k = if wrapped.len() < MAX_ROWS_PER_MESSAGE {
                wrapped.len()
            } else {
                MAX_ROWS_PER_MESSAGE
            };
            let mut j: usize = 0;
            while j < k
                invariant
                    wrapped@.map_values(|s: String| s@) == rows,
                    k <= wrapped@.len(),
                    k <= MAX_ROWS_PER_MESSAGE,
                    j <= k,
                    lines_view(out@) == before + message_rows(rows).take(j as int),
                decreases k - j,
            {
                let mut c = if j == 0 {
                    chars_of(" ↳ ")
                } else {
                    chars_of("   ")
                };
                push_chars(&mut c, &chars_of(wrapped[j].as_str()));
                let ghost cv = c@;
                let mut spans: Vec<StyledSpan> = Vec::new();
                spans.push(mk_span(c, None, DIM | ITALIC));
                let line = StyledLine { spans, fg: None };
                proof {
                    assert(rows[j as int] == wrapped@[j as int]@);
                    assert(spans_view(line.spans@) =~= message_rows(rows)[j as int].spans);
                    assert(line_view(line) == message_rows(rows)[j as int]);
                }
                let ghost mid = lines_view(out@);
                out.push(line);
                proof {
                    assert(lines_view(out@) =~= mid.push(message_rows(rows)[j as int]));
                    assert(message_rows(rows).take(j + 1) =~= message_rows(rows).take(j as int).push(
                        message_rows(rows)[j as int],
                    ));
                }
                j += 1;
            }
            if wrapped.len() > MAX_ROWS_PER_MESSAGE {
                let mut spans: Vec<StyledSpan> = Vec::new();
                spans.push(mk_span(chars_of("   …"), None, DIM | ITALIC));
                let ell = StyledLine { spans, fg: None };
                let ghost mid = lines_view(out@);
                proof {
                    assert(spans_view(ell.spans@) =~= seq![span_of("   …"@, None, DIM | ITALIC)]);
                }
                out.push(ell);
                proof {
                    let e = plain_line(seq![span_of("   …"@, None, DIM | ITALIC)]);
                    assert(lines_view(out@) =~= mid.push(e));
                    assert(message_rows(rows) =~= message_rows(rows).take(k as int).push(e));
                    assert(lines_view(out@) =~= before + message_rows(rows));
                }
            } else {
                proof {
                    assert(message_rows(rows).take(k as int) =~= message_rows(rows));
                }
            }
            proof {
                lemma_queued_rows_take(qs, i as int, text_width as nat);
                assert(lines_view(out@) =~= queued_rows(qs.take(i + 1), text_width as nat));
            }
            i += 1;
        }
        proof {
            assert(qs.take(qs.len() as int) =~= qs);
        }
        let ghost body = lines_view(out@);
        if self.queued_messages.len() > 0 {
            let mut spans: Vec<StyledSpan> = Vec::new();
            spans.push(dim_span(mk_span(chars_of("   "), None, 0)));
            spans.push(dim_span(mk_span(chars_of("Alt+↑"), Some(Color::Cyan), 0)));
            spans.push(dim_span(mk_span(chars_of(" edit"), None, 0)));
            proof {
                assert(spans_view(spans@) =~= seq![raw("   "@), span_of("Alt+↑"@, Some(Color::Cyan), 0), raw(" edit"@)].map_values(
                    |s: SpanView| dimmed(s),
                ));
            }
            out.push(StyledLine { spans, fg: None });
        }
        proof {
            assert(lines_view(out@) =~= queue_rows(qs, width));
        }
        out
    }
}

proof fn lemma_queued_rows_take(qs: Seq<Seq<char>>, i: int, w: nat)
    requires
        0 <= i <= qs.len(),
    ensures
        i < qs.len() ==> queued_rows(qs.take(i + 1), w) == queued_rows(qs.take(i), w) + message_rows(
            wrapped_rows(qs[i], w),
        ),
        queued_rows(qs.take(0), w) == Seq::<LineView>::empty(),
    decreases i,
{
    assert(qs.take(0) =~= Seq::<Seq<char>>::empty());
    if i < qs.len() {
        if i == 0 {
            assert(qs.take(1).drop_first() =~= Seq::<Seq<char>>::empty());
            assert(queued_rows(qs.take(1), w) =~= message_rows(wrapped_rows(qs[0], w)) + Seq::<LineView>::empty());
        } else {
            lemma_queued_rows_take(qs.drop_first(), i - 1, w);
            assert(qs.take(i + 1).drop_first() =~= qs.drop_first().take(i));
            assert(qs.take(i).drop_first() =~= qs.drop_first().take(i - 1));
            assert(qs.drop_first()[i - 1] == qs[i]);
            assert(queued_rows(qs.take(i + 1), w) =~= message_rows(wrapped_rows(qs[0], w)) + queued_rows(
                qs.drop_first().take(i),
                w,
            ));
            assert(queued_rows(qs.take(i), w) =~= message_rows(wrapped_rows(qs[0], w)) + queued_rows(
                qs.drop_first().take(i - 1),
                w,
            ));
        }
    }
}

proof fn lemma_messages_height(t: u16, qs: Seq<Seq<char>>, w: nat)
    requires
        t + queued_rows(qs, w).len() <= u16::MAX,
    ensures
        messages_height(t, qs, w) == t + queued_rows(qs, w).len(),
    decreases qs.len(),
{
    if qs.len() > 0 {
        let rows = wrapped_rows(qs[0], w);
        assert(queued_rows(qs, w).len() == message_rows(rows).len() + queued_rows(qs.drop_first(), w).len());
        lemma_messages_height(add_message_height(t, rows.len()), qs.drop_first(), w);
    }
}

/// The height the status asks for is the rows it draws: the status row,
/// the rows of the queued messages with their hint, and the spacer (at a
/// width that leaves room to wrap, and short of the largest height).
pub proof fn law_height_matches_rows(qs: Seq<Seq<char>>, width: u16)
    requires
        width >= 4,
        queue_rows(qs, width).len() + 2 <= u16::MAX,
    ensures
        status_height(qs, width) == queue_rows(qs, width).len() + 2,
{
    let w = (width - 3) as nat;
    lemma_messages_height(1, qs, w);
}

} // verus!
