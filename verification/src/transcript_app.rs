//! The full-screen transcript overlay: a scrollable page of the
//! conversation's lines, an optional highlighted range of them, and the key
//! hints under it.
use vstd::prelude::*;
use crate::diff_render::{dimmed, line_view, lines_view, raw, span_of, LineView, StyledLine};
use crate::insert_history::{span_view, spans_view, Color, SpanView, StyledSpan, BOLD, REVERSED};
use crate::key::{KeyCode, KeyEvent, KeyEventKind};

verus! {

/// Rows above the page (the header) and below it (separator and hints).
pub const RESERVED_ROWS: u16 = 5;

/// The state of the transcript overlay.
pub struct TranscriptApp {
    transcript_lines: Vec<StyledLine>,
    scroll_offset: usize,
    is_done: bool,
    title: String,
    highlight_range: Option<(usize, usize)>,
}

/// Abstract state of the overlay.
pub struct TranscriptView {
    pub lines: Seq<LineView>,
    pub scroll_offset: usize,
    pub is_done: bool,
    pub title: Seq<char>,
    pub highlight_range: Option<(usize, usize)>,
}

/// The height of the page in a viewport of `height` rows.
pub open spec fn page_height(height: u16) -> nat {
    if height >= RESERVED_ROWS {
        (height - RESERVED_ROWS) as nat
    } else {
        0
    }
}

pub open spec fn sat_sub(a: usize, b: nat) -> usize {
    if a >= b {
        (a - b) as usize
    } else {
        0
    }
}

pub open spec fn sat_add(a: usize, b: nat) -> usize {
    if a + b <= usize::MAX {
        (a + b) as usize
    } else {
        usize::MAX
    }
}

/// Whether the modifiers are exactly Control.
pub open spec fn control_only(k: KeyEvent) -> bool {
    k.modifiers.control && !k.modifiers.shift && !k.modifiers.alt
}

/// What a key does to the overlay, given the viewport's height: the new
/// scroll offset and whether the overlay is done, or `None` for a key it
/// ignores. `q`, Control-T and Control-C close it when pressed; the arrows,
/// page keys (space pages down) and Home/End scroll when pressed or held.
pub open spec fn transcript_key(offset: usize, done: bool, key: KeyEvent, height: u16) -> Option<(usize, bool)> {
    let press = key.kind == KeyEventKind::Press;
    let held = key.kind == KeyEventKind::Press || key.kind == KeyEventKind::Repeat;
    if press && (key.code == KeyCode::Char('q') || (key.code == KeyCode::Char('t') || key.code
        == KeyCode::Char('c')) && control_only(key)) {
        Some((offset, true))
    } else if !held {
        None
    } else {
        match key.code {
            KeyCode::Up => Some((sat_sub(offset, 1), done)),
            KeyCode::Down => Some((sat_add(offset, 1), done)),
            KeyCode::PageUp => Some((sat_sub(offset, page_height(height)), done)),
            KeyCode::PageDown => Some((sat_add(offset, page_height(height)), done)),
            KeyCode::Char(' ') => Some((sat_add(offset, page_height(height)), done)),
            KeyCode::Home => Some((0, done)),
            KeyCode::End => Some((usize::MAX, done)),
            _ => None,
        }
    }
}

/// A span with the highlight: reversed, and bold when `bold`.
pub open spec fn highlight_span(s: SpanView, bold: bool) -> SpanView {
    SpanView {
        add_modifier: if bold {
            s.add_modifier | REVERSED | BOLD
        } else {
            s.add_modifier | REVERSED
        },
        ..s
    }
}

/// The lines with the highlighted range (clamped to the lines) reversed,
/// and the first span of its first line bold too.
pub open spec fn highlighted(ls: Seq<LineView>, range: Option<(usize, usize)>) -> Seq<LineView> {
    match range {
        None => ls,
        Some((start, end)) => {
            let st = if start < ls.len() {
                start as int
            } else {
                ls.len() as int
            };
            let en = if end < ls.len() {
                end as int
            } else {
                ls.len() as int
            };
            Seq::new(
                ls.len(),
                |i: int|
                    if st <= i < en {
                        LineView {
                            spans: Seq::new(
                                ls[i].spans.len(),
                                |k: int| highlight_span(ls[i].spans[k], i == st && k == 0),
                            ),
                            fg: ls[i].fg,
                        }
                    } else {
                        ls[i]
                    },
            )
        },
    }
}

/// A key hint: the key in cyan.
pub open spec fn key_span(k: Seq<char>) -> SpanView {
    span_of(k, Some(Color::Cyan), 0)
}

/// The two dimmed rows of key hints; "⏎ edit message" is offered while a
/// non-empty range is highlighted.
pub open spec fn hint_rows(range: Option<(usize, usize)>) -> Seq<LineView> {
    let first = seq![
        raw(" "@),
        key_span("↑"@),
        raw("/"@),
        key_span("↓"@),
        raw(" scroll   "@),
        key_span("PgUp"@),
        raw("/"@),
        key_span("PgDn"@),
        raw(" page   "@),
        key_span("Home"@),
        raw("/"@),
        key_span("End"@),
        raw(" jump"@),
    ];
    let second = seq![raw(" "@), key_span("q"@), raw(" quit"@), raw("   "@), key_span("Esc"@), raw(" edit prev"@)]
        + match range {
        Some((s, e)) => if e > s {
            seq![raw("   "@), key_span("⏎"@), raw(" edit message"@)]
        } else {
            Seq::empty()
        },
        None => Seq::empty(),
    };
    seq![
        LineView { spans: first.map_values(|s: SpanView| dimmed(s)), fg: None },
        LineView { spans: second.map_values(|s: SpanView| dimmed(s)), fg: None },
    ]
}

fn copy_span(s: &StyledSpan) -> (r: StyledSpan)
    ensures
        span_view(r) == span_view(*s),
{
    StyledSpan {
        content: s.content.clone(),
        fg: s.fg,
        bg: s.bg,
        add_modifier: s.add_modifier,
        sub_modifier: s.sub_modifier,
    }
}

fn copy_line(l: &StyledLine, highlight: bool, bold_first: bool) -> (r: StyledLine)
    ensures
        line_view(r) == (if highlight {
            LineView {
                spans: Seq::new(
                    line_view(*l).spans.len(),
                    |k: int| highlight_span(line_view(*l).spans[k], bold_first && k == 0),
                ),
                fg: l.fg,
            }
        } else {
            line_view(*l)
        }),
{
    let mut spans: Vec<StyledSpan> = Vec::new();
    let mut i: usize = 0;
    while i < l.spans.len()
        invariant
            i <= l.spans@.len(),
            spans@.len() == i,
            forall|k: int|
                0 <= k < i ==> span_view(#[trigger] spans@[k]) == (if highlight {
                    highlight_span(span_view(l.spans@[k]), bold_first && k == 0)
                } else {
                    span_view(l.spans@[k])
                }),
        decreases l.spans.len() - i,
    {
        let mut s = copy_span(&l.spans[i]);
        if highlight {
            s.add_modifier = s.add_modifier | REVERSED;
            if bold_first && i == 0 {
                s.add_modifier = s.add_modifier | BOLD;
            }
        }
        spans.push(s);
        i += 1;
    }
    let r = StyledLine { spans, fg: l.fg };
    proof {
        if highlight {
            assert(spans_view(r.spans@) =~= Seq::new(
                line_view(*l).spans.len(),
                |k: int| highlight_span(line_view(*l).spans[k], bold_first && k == 0),
            ));
        } else {
            assert(spans_view(r.spans@) =~= spans_view(l.spans@));
        }
    }
    r
}

impl TranscriptApp {
    pub closed spec fn view(&self) -> TranscriptView {
        TranscriptView {
            lines: lines_view(self.transcript_lines@),
            scroll_offset: self.scroll_offset,
            is_done: self.is_done,
            title: self.title@,
            highlight_range: self.highlight_range,
        }
    }

    /// An overlay scrolled to the end of the lines.
    pub fn new(transcript_lines: Vec<StyledLine>) -> (r: Self)
        ensures
            r.view() == (TranscriptView {
                lines: lines_view(transcript_lines@),
                scroll_offset: usize::MAX,
                is_done: false,
                title: "T R A N S C R I P T"@,
                highlight_range: None,
            }),
    {
        TranscriptApp {
            transcript_lines,
            scroll_offset: usize::MAX,
            is_done: false,
            title: String::from_str("T R A N S C R I P T"),
            highlight_range: None,
        }
    }

    /// An overlay with its own title, at the top of the lines.
    pub fn with_title(transcript_lines: Vec<StyledLine>, title: String) -> (r: Self)
        ensures
            r.view() == (TranscriptView {
                lines: lines_view(transcript_lines@),
                scroll_offset: 0,
                is_done: false,
                title: title@,
                highlight_range: None,
            }),
    {
        TranscriptApp { transcript_lines, scroll_offset: 0, is_done: false, title, highlight_range: None }
    }

    /// Append lines.
    pub fn insert_lines(&mut self, lines: Vec<StyledLine>)
        ensures
            final(self).view() == (TranscriptView {
                lines: old(self).view().lines + lines_view(lines@),
                ..old(self).view()
            }),
    {
        let mut lines = lines;
        let ghost added = lines@;
        self.transcript_lines.append(&mut lines);
        proof {
            assert(lines_view(self.transcript_lines@) =~= old(self).view().lines + lines_view(added));
        }
    }

    /// Highlight lines `[start, end)`, or none.
    pub fn set_highlight_range(&mut self, range: Option<(usize, usize)>)
        ensures
            final(self).view() == (TranscriptView { highlight_range: range, ..old(self).view() }),
    {
        self.highlight_range = range;
    }

    pub fn is_done(&self) -> (r: bool)
        ensures
            r == self.view().is_done,
    {
        self.is_done
    }

    pub fn scroll_offset(&self) -> (r: usize)
        ensures
            r == self.view().scroll_offset,
    {
        self.scroll_offset
    }

    pub fn title(&self) -> (r: &str)
        ensures
            r@ == self.view().title,
    {
        self.title.as_str()
    }

    /// Act on a key, in a viewport of `viewport_height` rows; whether the
    /// overlay acted on it (and a new frame is due).
    pub fn handle_key_event(&mut self, key: KeyEvent, viewport_height: u16) -> (handled: bool)
        ensures
            handled == transcript_key(old(self).view().scroll_offset, old(self).view().is_done, key, viewport_height)
                is Some,
            match transcript_key(old(self).view().scroll_offset, old(self).view().is_done, key, viewport_height) {
                Some((offset, done)) => final(self).view() == (TranscriptView {
                    scroll_offset: offset,
                    is_done: done,
                    ..old(self).view()
                }),
                None => final(self).view() == old(self).view(),
            },
    {
        let press = key.kind == KeyEventKind::Press;
        let held = press || key.kind == KeyEventKind::Repeat;
        let control_only = key.modifiers.control && !key.modifiers.shift && !key.modifiers.alt;
        let page: usize = viewport_height.saturating_sub(RESERVED_ROWS) as usize;
        if press && (key.code == KeyCode::Char('q') || (key.code == KeyCode::Char('t') || key.code
            == KeyCode::Char('c')) && control_only) {
            self.is_done = true;
            return true;
        }
        if !held {
            return false;
        }
        match key.code {
            KeyCode::Up => {
                self.scroll_offset = self.scroll_offset.saturating_sub(1);
            },
            KeyCode::Down => {
                self.scroll_offset = self.scroll_offset.saturating_add(1);
            },
            KeyCode::PageUp => {
                self.scroll_offset = self.scroll_offset.saturating_sub(page);
            },
            KeyCode::PageDown => {
                self.scroll_offset = self.scroll_offset.saturating_add(page);
            },
            KeyCode::Char(' ') => {
                self.scroll_offset = self.scroll_offset.saturating_add(page);
            },
            KeyCode::Home => {
                self.scroll_offset = 0;
            },
            KeyCode::End => {
                self.scroll_offset = usize::MAX;
            },
            _ => {
                return false;
            },
        }
        true
    }

    /// The lines with the highlight applied.
    pub fn highlighted_lines(&self) -> (r: Vec<StyledLine>)
        ensures
            lines_view(r@) == highlighted(self.view().lines, self.view().highlight_range),
    {
        let len = self.transcript_lines.len();
        let (st, en) = match self.highlight_range {
            Some((start, end)) => (
                if start < len {
                    start
                } else {
                    len
                },
                if end < len {
                    end
                } else {
                    len
                },
            ),
            None => (len, len),
        };
        let ghost ls = lines_view(self.transcript_lines@);
        let mut out: Vec<StyledLine> = Vec::new();
        let mut i: usize = 0;
        while i < len
            invariant
                len == self.transcript_lines@.len(),
                ls == lines_view(self.transcript_lines@),
                i <= len,
                st <= len,
                out@.len() == i,
                forall|k: int|
                    0 <= k < i ==> line_view(#[trigger] out@[k]) == (if st <= k < en {
                        LineView {
                            spans: Seq::new(
                                ls[k].spans.len(),
                                |j: int| highlight_span(ls[k].spans[j], k == st && j == 0),
                            ),
                            fg: ls[k].fg,
                        }
                    } else {
                        ls[k]
                    }),
            decreases len - i,
        {
            let on = st <= i && i < en;
            let l = copy_line(&self.transcript_lines[i], on, i == st);
            out.push(l);
            i += 1;
        }
        proof {
            assert(lines_view(out@) =~= highlighted(ls, self.highlight_range));
        }
        out
    }

    /// Clamp the scroll offset so a page of `height` rows of `wrapped_len`
    /// lines is full where it can be; the bounds `[start, end)` of the page.
    pub fn clamp_scroll(&mut self, wrapped_len: usize, height: u16) -> (r: (usize, usize))
        ensures
            final(self).view() == (TranscriptView {
                scroll_offset: if old(self).view().scroll_offset <= sat_sub(wrapped_len, height as nat) {
                    old(self).view().scroll_offset
                } else {
                    sat_sub(wrapped_len, height as nat)
                },
                ..old(self).view()
            }),
            r.0 == final(self).view().scroll_offset,
            r.1 == if r.0 + height <= wrapped_len {
                r.0 + height
            } else {
                wrapped_len as int
            },
    {
        let max_scroll = wrapped_len.saturating_sub(height as usize);
        if self.scroll_offset > max_scroll {
            self.scroll_offset = max_scroll;
        }
        let start = self.scroll_offset;
        let end = if (height as usize) <= wrapped_len - start {
            start + height as usize
        } else {
            wrapped_len
        };
        (start, end)
    }

    /// The key hints under the page.
    pub fn hint_lines(&self) -> (r: Vec<StyledLine>)
        ensures
            lines_view(r@) == hint_rows(self.view().highlight_range),
    {
        let mut first: Vec<StyledSpan> = Vec::new();
        push_hint(&mut first, " ", false);
        push_hint(&mut first, "↑", true);
        push_hint(&mut first, "/", false);
        push_hint(&mut first, "↓", true);
        push_hint(&mut first, " scroll   ", false);
        push_hint(&mut first, "PgUp", true);
        push_hint(&mut first, "/", false);
        push_hint(&mut first, "PgDn", true);
        push_hint(&mut first, " page   ", false);
        push_hint(&mut first, "Home", true);
        push_hint(&mut first, "/", false);
        push_hint(&mut first, "End", true);
        push_hint(&mut first, " jump", false);
        let mut second: Vec<StyledSpan> = Vec::new();
        push_hint(&mut second, " ", false);
        push_hint(&mut second, "q", true);
        push_hint(&mut second, " quit", false);
        push_hint(&mut second, "   ", false);
        push_hint(&mut second, "Esc", true);
        push_hint(&mut second, " edit prev", false);
        let ghost base = spans_view(second@);
        match self.highlight_range {
            Some((s, e)) => {
                if e > s {
                    push_hint(&mut second, "   ", false);
                    push_hint(&mut second, "⏎", true);
                    push_hint(&mut second, " edit message", false);
                }
            },
            None => {},
        }
        let mut out: Vec<StyledLine> = Vec::new();
        out.push(StyledLine { spans: first, fg: None });
        out.push(StyledLine { spans: second, fg: None });
        proof {
            let f = seq![
                raw(" "@),
                key_span("↑"@),
                raw("/"@),
                key_span("↓"@),
                raw(" scroll   "@),
                key_span("PgUp"@),
                raw("/"@),
                key_span("PgDn"@),
                raw(" page   "@),
                key_span("Home"@),
                raw("/"@),
                key_span("End"@),
                raw(" jump"@),
            ];
            assert(spans_view(first@) =~= f.map_values(|s: SpanView| dimmed(s)));
            let b = seq![raw(" "@), key_span("q"@), raw(" quit"@), raw("   "@), key_span("Esc"@), raw(" edit prev"@)];
            assert(base =~= b.map_values(|s: SpanView| dimmed(s)));
            let extra: Seq<SpanView> = match self.highlight_range {
                Some((s, e)) => if e > s {
                    seq![raw("   "@), key_span("⏎"@), raw(" edit message"@)]
                } else {
                    Seq::empty()
                },
                None => Seq::empty(),
            };
            assert(spans_view(second@) =~= base + extra.map_values(|s: SpanView| dimmed(s)));
            assert(spans_view(second@) =~= (b + extra).map_values(|s: SpanView| dimmed(s)));
            assert(lines_view(out@) =~= hint_rows(self.highlight_range));
        }
        out
    }
}

/// Append a dimmed hint span: the key in cyan, or plain text.
fn push_hint(v: &mut Vec<StyledSpan>, text: &str, key: bool)
    ensures
        spans_view(final(v)@) == spans_view(old(v)@).push(
            dimmed(
                if key {
                    key_span(text@)
                } else {
                    raw(text@)
                },
            ),
        ),
{
    let fg = if key {
        Some(Color::Cyan)
    } else {
        None
    };
    let s = crate::diff_render::mk_span(crate::text::chars_of(text), fg, 0);
    let s = crate::diff_render::dim_span(s);
    v.push(s);
    proof {
        assert(spans_view(v@) =~= spans_view(old(v)@).push(span_view(s)));
    }
}

/// Scrolling down one row and back up returns to where the page was,
/// short of the largest offset.
pub proof fn law_scroll_down_then_up(offset: usize, done: bool, modifiers: crate::key::KeyModifiers, height: u16)
    requires
        offset < usize::MAX,
    ensures
        ({
            let down = KeyEvent { code: KeyCode::Down, modifiers, kind: KeyEventKind::Press };
            let up = KeyEvent { code: KeyCode::Up, modifiers, kind: KeyEventKind::Press };
            match transcript_key(offset, done, down, height) {
                Some((o1, d1)) => transcript_key(o1, d1, up, height) == Some((offset, done)),
                None => false,
            }
        }),
{
}

/// The overlay ignores key releases.
pub proof fn law_release_ignored(offset: usize, done: bool, key: KeyEvent, height: u16)
    requires
        key.kind == KeyEventKind::Release,
    ensures
        transcript_key(offset, done, key, height) is None,
{
}

/// Home and End go to the first and the last page whatever the offset.
pub proof fn law_home_end(offset: usize, done: bool, key: KeyEvent, height: u16)
    requires
        key.kind == KeyEventKind::Press,
    ensures
        key.code == KeyCode::Home ==> transcript_key(offset, done, key, height) == Some((0usize, done)),
        key.code == KeyCode::End ==> transcript_key(offset, done, key, height) == Some((usize::MAX, done)),
{
}

} // verus!
