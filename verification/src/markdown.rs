//! Splitting markdown source into plain text and code blocks, so that code
//! is rendered verbatim while the text goes through the markdown renderer.
use vstd::prelude::*;
use crate::markdown_utils::{backtick_fence, backtick_fence_chars, tilde_fence, tilde_fence_chars};
use crate::text::{
    bounds_within, chars_of, push_chars, skip_ws_forward, spans_of, split_inclusive_bounds,
    split_inclusive_nl, starts_with, starts_with_at, string_from, trim, trim_bounds, trim_start,
};

verus! {

/// A piece of markdown source.
pub enum Segment {
    /// Text to render as markdown.
    Text(String),
    /// The content of a code block, kept exactly (fence lines excluded),
    /// with the language named after an opening fence, if any.
    Code { lang: Option<String>, content: String },
}

/// Abstract form of a segment.
pub enum SegmentView {
    Text(Seq<char>),
    Code(Option<Seq<char>>, Seq<char>),
}

impl Segment {
    pub open spec fn view(&self) -> SegmentView {
        match self {
            Segment::Text(s) => SegmentView::Text(s@),
            Segment::Code { lang, content } => SegmentView::Code(
                match lang {
                    Some(l) => Some(l@),
                    None => None,
                },
                content@,
            ),
        }
    }
}

/// Where the splitter is: in text, in a fenced block, or in an indented
/// block.
pub enum Mode {
    Text,
    Fenced,
    Indented,
}

/// State of the splitter between lines.
pub struct SplitState {
    pub segs: Seq<SegmentView>,
    pub text: Seq<char>,
    pub mode: Mode,
    pub fence: Seq<char>,
    pub lang: Option<Seq<char>>,
    pub code: Seq<char>,
}

/// A piece without its `'\n'`.
pub open spec fn strip_nl(p: Seq<char>) -> Seq<char> {
    if p.len() > 0 && p.last() == '\n' {
        p.drop_last()
    } else {
        p
    }
}

/// Number of leading spaces (not other whitespace).
pub open spec fn leading_spaces(s: Seq<char>) -> nat
    decreases s.len(),
{
    if s.len() > 0 && s[0] == ' ' {
        1 + leading_spaces(s.drop_first())
    } else {
        0
    }
}

/// A line indented as code: at least four spaces, or a tab first.
pub open spec fn indented(raw: Seq<char>) -> bool {
    leading_spaces(raw) >= 4 || (raw.len() > 0 && raw[0] == '\t')
}

/// The pending text, flushed as a segment when it is not empty.
pub open spec fn flush_text(segs: Seq<SegmentView>, text: Seq<char>) -> Seq<SegmentView> {
    if text.len() > 0 {
        segs.push(SegmentView::Text(text))
    } else {
        segs
    }
}

/// One line (with its newline, if any) through the splitter.
pub open spec fn split_step(st: SplitState, line: Seq<char>) -> SplitState {
    let raw = strip_nl(line);
    let ts = trim_start(raw);
    match st.mode {
        Mode::Text => if starts_with(ts, backtick_fence()) || starts_with(ts, tilde_fence()) {
            let tok = if starts_with(ts, backtick_fence()) {
                backtick_fence()
            } else {
                tilde_fence()
            };
            let lang = trim(ts.skip(3));
            SplitState {
                segs: flush_text(st.segs, st.text),
                text: Seq::empty(),
                mode: Mode::Fenced,
                fence: tok,
                lang: if lang.len() == 0 {
                    None
                } else {
                    Some(lang)
                },
                code: Seq::empty(),
            }
        } else if indented(raw) {
            SplitState {
                segs: flush_text(st.segs, st.text),
                text: Seq::empty(),
                mode: Mode::Indented,
                code: line,
                ..st
            }
        } else {
            SplitState { text: st.text + line, ..st }
        },
        Mode::Fenced => if trim(raw) == st.fence {
            SplitState {
                segs: st.segs.push(SegmentView::Code(st.lang, st.code)),
                mode: Mode::Text,
                fence: Seq::empty(),
                lang: None,
                code: Seq::empty(),
                ..st
            }
        } else {
            SplitState { code: st.code + line, ..st }
        },
        Mode::Indented => if trim(raw).len() == 0 || indented(raw) {
            SplitState { code: st.code + line, ..st }
        } else {
            SplitState {
                segs: st.segs.push(SegmentView::Code(None, st.code)),
                mode: Mode::Text,
                code: Seq::empty(),
                text: st.text + line,
                ..st
            }
        },
    }
}

/// The splitter after the first `n` lines.
pub open spec fn split_run(lines: Seq<Seq<char>>, n: int) -> SplitState
    decreases n,
{
    if n <= 0 {
        SplitState {
            segs: Seq::empty(),
            text: Seq::empty(),
            mode: Mode::Text,
            fence: Seq::empty(),
            lang: None,
            code: Seq::empty(),
        }
    } else {
        split_step(split_run(lines, n - 1), lines[n - 1])
    }
}

/// The segments once the input ends: an unterminated block is kept as code,
/// otherwise pending text is flushed.
pub open spec fn split_finish(st: SplitState) -> Seq<SegmentView> {
    match st.mode {
        Mode::Text => flush_text(st.segs, st.text),
        _ => st.segs.push(SegmentView::Code(st.lang, st.code)),
    }
}

/// The segments of `src`.
pub open spec fn split_spec(src: Seq<char>) -> Seq<SegmentView> {
    let ls = split_inclusive_nl(src);
    split_finish(split_run(ls, ls.len() as int))
}

/// Exec counterpart of the splitter's state.
struct Splitter {
    segs: Vec<Segment>,
    text: Vec<char>,
    mode: u8,
    fence: Vec<char>,
    lang: Option<Vec<char>>,
    code: Vec<char>,
}

impl Splitter {
    spec fn view(&self) -> SplitState {
        SplitState {
            segs: self.segs@.map_values(|s: Segment| s.view()),
            text: self.text@,
            mode: if self.mode == 0 {
                Mode::Text
            } else if self.mode == 1 {
                Mode::Fenced
            } else {
                Mode::Indented
            },
            fence: self.fence@,
            lang: match self.lang {
                Some(l) => Some(l@),
                None => None,
            },
            code: self.code@,
        }
    }

    fn flush_text(&mut self)
        ensures
            final(self).view() == (SplitState {
                segs: flush_text(old(self).view().segs, old(self).view().text),
                text: Seq::empty(),
                ..old(self).view()
            }),
    {
        if self.text.len() > 0 {
            let ghost before = self.segs@;
            let t = string_from(&self.text);
            self.segs.push(Segment::Text(t));
            self.text = Vec::new();
            assert(self.segs@.map_values(|s: Segment| s.view()) =~= before.map_values(
                |s: Segment| s.view(),
            ).push(SegmentView::Text(old(self).text@)));
        } else {
            self.text = Vec::new();
            assert(self.text@ =~= Seq::<char>::empty());
        }
    }

    fn emit_code(&mut self)
        ensures
            final(self).view() == (SplitState {
                segs: old(self).view().segs.push(
                    SegmentView::Code(old(self).view().lang, old(self).view().code),
                ),
                lang: None,
                code: Seq::empty(),
                ..old(self).view()
            }),
    {
        let ghost before = self.segs@;
        let lang = match &self.lang {
            Some(l) => Some(string_from(l)),
            None => None,
        };
        let content = string_from(&self.code);
        self.segs.push(Segment::Code { lang, content });
        self.lang = None;
        self.code = Vec::new();
        assert(self.segs@.map_values(|s: Segment| s.view()) =~= before.map_values(
            |s: Segment| s.view(),
        ).push(SegmentView::Code(old(self).view().lang, old(self).view().code)));
    }
}

fn count_leading_spaces(s: &[char], from: usize, to: usize) -> (r: usize)
    requires
        from <= to <= s@.len(),
    ensures
        r == leading_spaces(s@.subrange(from as int, to as int)),
        r <= to - from,
    decreases to - from,
{
    if from < to && s[from] == ' ' {
        proof {
            assert(s@.subrange(from as int, to as int).drop_first() =~= s@.subrange(from + 1, to as int));
        }
        1 + count_leading_spaces(s, from + 1, to)
    } else {
        proof {
            if from < to {
                assert(s@.subrange(from as int, to as int)[0] == s@[from as int]);
            }
        }
        0
    }
}

fn copy_range(s: &[char], a: usize, b: usize) -> (r: Vec<char>)
    requires
        a <= b <= s@.len(),
    ensures
        r@ == s@.subrange(a as int, b as int),
{
    let mut v: Vec<char> = Vec::new();
    let piece = &s[a..b];
    push_chars(&mut v, piece);
    v
}

/// Split markdown source into text and code segments. Fenced blocks open
/// with a line starting (after whitespace) with three backticks or tildes,
/// whose rest names the language, and close with a line that is just the
/// same fence; fence lines are dropped. An indented block starts with a
/// line indented by four spaces or a tab and continues over blank or
/// indented lines.
pub fn split_text_and_fences(src: &str) -> (r: Vec<Segment>)
    ensures
        r@.map_values(|s: Segment| s.view()) == split_spec(src@),
{
    let cs = chars_of(src);
    let pieces = split_inclusive_bounds(&cs);
    let ghost ls = split_inclusive_nl(src@);
    let mut st = Splitter {
        segs: Vec::new(),
        text: Vec::new(),
        mode: 0,
        fence: Vec::new(),
        lang: None,
        code: Vec::new(),
    };
    proof {
        assert(st.view().segs =~= Seq::<SegmentView>::empty());
        assert(st.view() == split_run(ls, 0));
    }
    let bt = backtick_fence_chars();
    let td = tilde_fence_chars();
    let n = pieces.len();
    let mut i: usize = 0;
    while i < n
        invariant
            n == pieces@.len(),
            spans_of(cs@, pieces@) == ls,
            ls.len() == n,
            bounds_within(pieces@, cs@.len() as int),
            bt@ == backtick_fence(),
            td@ == tilde_fence(),
            i <= n,
            st.mode <= 2,
            st.view() == split_run(ls, i as int),
        decreases n - i,
    {
        let (a, b) = pieces[i];
        let ghost line = ls[i as int];
        assert(line == cs@.subrange(a as int, b as int));
        let e = if b > a && cs[b - 1] == '\n' {
            b - 1
        } else {
            b
        };
        proof {
            if b > a && cs@[b - 1] == '\n' {
                assert(line.last() == cs@[b - 1]);
                assert(line.drop_last() =~= cs@.subrange(a as int, e as int));
            } else if b > a {
                assert(line.last() == cs@[b - 1]);
            }
            assert(strip_nl(line) == cs@.subrange(a as int, e as int));
        }
        let ghost raw = strip_nl(line);
        let ts0 = skip_ws_forward(&cs, a, e);
        let upto = &cs[0..e];
        proof {
            assert(upto@ =~= cs@.subrange(0, e as int));
            assert(trim_start(raw) =~= upto@.skip(ts0 as int));
        }
        let piece = copy_range(&cs, a, b);
        if st.mode == 0 {
            let is_bt = starts_with_at(upto, ts0, &bt);
            let is_td = starts_with_at(upto, ts0, &td);
            if is_bt || is_td {
                st.flush_text();
                st.fence = if is_bt {
                    copy_range(&bt, 0, 3)
                } else {
                    copy_range(&td, 0, 3)
                };
                proof {
                    assert(bt@.subrange(0, 3) =~= bt@);
                    assert(td@.subrange(0, 3) =~= td@);
                }
                let (la, lb) = trim_bounds(&cs, ts0 + 3, e);
                proof {
                    assert(trim_start(raw).skip(3) =~= cs@.subrange(ts0 + 3, e as int));
                }
                st.lang = if lb > la {
                    Some(copy_range(&cs, la, lb))
                } else {
                    None
                };
                st.code = Vec::new();
                st.mode = 1;
                proof {
                    assert(st.code@ =~= Seq::<char>::empty());
                }
            } else {
                let spaces = count_leading_spaces(&cs, a, e);
                let tab = e > a && cs[a] == '\t';
                proof {
                    if e > a {
                        assert(raw[0] == cs@[a as int]);
                    }
                }
                if spaces >= 4 || tab {
                    st.flush_text();
                    st.mode = 2;
                    st.code = piece;
                } else {
                    push_chars(&mut st.text, &piece);
                }
            }
        } else if st.mode == 1 {
            let (ta, tb) = trim_bounds(&cs, a, e);
            let t = &cs[ta..tb];
            assert(t@ =~= trim(raw));
            let closes = crate::text::chars_eq(t, &st.fence);
            if closes {
                st.emit_code();
                st.mode = 0;
                st.fence = Vec::new();
                proof {
                    assert(st.fence@ =~= Seq::<char>::empty());
                }
            } else {
                push_chars(&mut st.code, &piece);
            }
        } else {
            let (ta, tb) = trim_bounds(&cs, a, e);
            let spaces = count_leading_spaces(&cs, a, e);
            let tab = e > a && cs[a] == '\t';
            proof {
                if e > a {
                    assert(raw[0] == cs@[a as int]);
                }
                assert(cs@.subrange(ta as int, tb as int) =~= trim(raw));
            }
            if tb == ta || spaces >= 4 || tab {
                push_chars(&mut st.code, &piece);
            } else {
                let ghost lang_before = st.view().lang;
                let saved_lang = st.lang.take();
                st.emit_code();
                st.lang = saved_lang;
                st.mode = 0;
                push_chars(&mut st.text, &piece);
                proof {
                    assert(st.view().lang == lang_before);
                }
            }
        }
        i += 1;
    }

    if st.mode != 0 {
        st.emit_code();
    } else {
        st.flush_text();
    }
    st.segs
}

/// The first `n` pieces put back together.
pub open spec fn concat_prefix(ps: Seq<Seq<char>>, n: int) -> Seq<char>
    decreases n,
{
    if n <= 0 {
        Seq::empty()
    } else {
        concat_prefix(ps, n - 1) + ps[n - 1]
    }
}

proof fn lemma_concat_prefix_cons(h: Seq<char>, r: Seq<Seq<char>>, m: int)
    requires
        0 <= m <= r.len(),
    ensures
        concat_prefix(seq![h] + r, m + 1) == h + concat_prefix(r, m),
    decreases m,
{
    let ps = seq![h] + r;
    if m == 0 {
        assert(concat_prefix(ps, 0) =~= Seq::<char>::empty());
        assert(ps[0] == h);
        assert(Seq::<char>::empty() + h =~= h);
        assert(h + Seq::<char>::empty() =~= h);
    } else {
        lemma_concat_prefix_cons(h, r, m - 1);
        assert(ps[m] == r[m - 1]);
        assert(h + concat_prefix(r, m - 1) + r[m - 1] =~= h + (concat_prefix(r, m - 1) + r[m - 1]));
    }
}

proof fn lemma_pieces_concat(s: Seq<char>)
    ensures
        concat_prefix(split_inclusive_nl(s), split_inclusive_nl(s).len() as int) == s,
    decreases s.len(),
{
    if s.len() > 0 {
        crate::text::lemma_line_len(s);
        let l = crate::text::line_len(s) as int;
        let rest = split_inclusive_nl(s.skip(l));
        lemma_pieces_concat(s.skip(l));
        assert(split_inclusive_nl(s) == seq![s.take(l)] + rest);
        lemma_concat_prefix_cons(s.take(l), rest, rest.len() as int);
        assert(s.take(l) + s.skip(l) =~= s);
    } else {
        assert(concat_prefix(split_inclusive_nl(s), 0) =~= s);
    }
}

/// A piece that opens a fenced block or an indented code block.
pub open spec fn code_opener(piece: Seq<char>) -> bool {
    starts_with(trim_start(strip_nl(piece)), backtick_fence()) || starts_with(
        trim_start(strip_nl(piece)),
        tilde_fence(),
    ) || indented(strip_nl(piece))
}

proof fn lemma_plain_run(ps: Seq<Seq<char>>, n: int)
    requires
        0 <= n <= ps.len(),
        forall|k: int| 0 <= k < ps.len() ==> !code_opener(#[trigger] ps[k]),
    ensures
        split_run(ps, n).mode is Text,
        split_run(ps, n).segs.len() == 0,
        split_run(ps, n).text == concat_prefix(ps, n),
    decreases n,
{
    if n > 0 {
        lemma_plain_run(ps, n - 1);
        assert(!code_opener(ps[n - 1]));
    }
}

/// Markdown without fences and indented code is one text segment: the
/// source itself, every line ending kept (nothing for empty source).
pub proof fn law_plain_markdown_is_one_text_segment(src: Seq<char>)
    requires
        forall|k: int|
            0 <= k < split_inclusive_nl(src).len() ==> !code_opener(#[trigger] split_inclusive_nl(src)[k]),
    ensures
        split_spec(src) == if src.len() == 0 {
            Seq::<SegmentView>::empty()
        } else {
            seq![SegmentView::Text(src)]
        },
{
    let ps = split_inclusive_nl(src);
    lemma_plain_run(ps, ps.len() as int);
    lemma_pieces_concat(src);
    if src.len() == 0 {
        assert(split_spec(src) =~= Seq::<SegmentView>::empty());
    } else {
        assert(split_spec(src) =~= seq![SegmentView::Text(src)]);
    }
}

proof fn lemma_line_len_append(a: Seq<char>, b: Seq<char>)
    requires
        a.len() > 0,
        a.last() == '\n',
    ensures
        crate::text::line_len(a + b) == crate::text::line_len(a),
        crate::text::line_len(a) <= a.len(),
    decreases a.len(),
{
    crate::text::lemma_line_len(a);
    if a[0] != '\n' {
        assert(a.len() >= 2);
        assert((a + b).drop_first() =~= a.drop_first() + b);
        assert(a.drop_first().last() == a.last());
        lemma_line_len_append(a.drop_first(), b);
    }
}

proof fn lemma_split_append(a: Seq<char>, b: Seq<char>)
    requires
        a.len() == 0 || a.last() == '\n',
    ensures
        split_inclusive_nl(a + b) == split_inclusive_nl(a) + split_inclusive_nl(b),
    decreases a.len(),
{
    if a.len() == 0 {
        assert(a + b =~= b);
        assert(split_inclusive_nl(a) =~= Seq::<Seq<char>>::empty());
        assert(Seq::<Seq<char>>::empty() + split_inclusive_nl(b) =~= split_inclusive_nl(b));
    } else {
        lemma_line_len_append(a, b);
        crate::text::lemma_line_len(a);
        crate::text::lemma_line_len(a + b);
        let l = crate::text::line_len(a) as int;
        assert((a + b).take(l) =~= a.take(l));
        assert((a + b).skip(l) =~= a.skip(l) + b);
        if l < a.len() {
            assert(a.skip(l).last() == a.last());
        }
        lemma_split_append(a.skip(l), b);
        assert(split_inclusive_nl(a + b) =~= seq![a.take(l)] + (split_inclusive_nl(a.skip(l)) + split_inclusive_nl(b)));
        assert(split_inclusive_nl(a) =~= seq![a.take(l)] + split_inclusive_nl(a.skip(l)));
    }
}

/// The line that opens a fenced block without a language.
pub open spec fn open_fence_line() -> Seq<char> {
    seq!['`', '`', '`', '\n']
}

proof fn lemma_fenced_run(ps: Seq<Seq<char>>, bps: Seq<Seq<char>>, n: int)
    requires
        ps.len() == bps.len() + 2,
        ps[0] == open_fence_line(),
        forall|k: int| 0 <= k < bps.len() ==> ps[k + 1] == bps[k],
        forall|k: int| 0 <= k < bps.len() ==> trim(strip_nl(#[trigger] bps[k])) != backtick_fence(),
        1 <= n <= bps.len() + 1,
    ensures
        split_run(ps, n).mode is Fenced,
        split_run(ps, n).segs.len() == 0,
        split_run(ps, n).text.len() == 0,
        split_run(ps, n).fence == backtick_fence(),
        split_run(ps, n).lang is None,
        split_run(ps, n).code == concat_prefix(bps, n - 1),
    decreases n,
{
    if n == 1 {
        let l = open_fence_line();
        assert(strip_nl(l) =~= backtick_fence());
        assert(!crate::text::is_ws('`'));
        assert(crate::text::leading_ws(backtick_fence()) == 0);
        assert(trim_start(backtick_fence()) =~= backtick_fence());
        assert(starts_with(backtick_fence(), backtick_fence())) by {
            assert(backtick_fence().take(3) =~= backtick_fence());
        }
        assert(backtick_fence().skip(3) =~= Seq::<char>::empty());
        assert(crate::text::leading_ws(Seq::<char>::empty()) == 0);
        assert(crate::text::trailing_ws(Seq::<char>::empty()) == 0);
        assert(trim(backtick_fence().skip(3)) =~= Seq::<char>::empty());
    } else {
        lemma_fenced_run(ps, bps, n - 1);
        assert(ps[n - 1] == bps[n - 2]);
    }
}

/// A fenced block (opened by a bare ``` line, closed by a ``` line) whose
/// lines do not close it comes out as one code segment holding its lines
/// exactly, line endings included, with no language.
pub proof fn law_fenced_block_kept_verbatim(body: Seq<char>)
    requires
        body.len() == 0 || body.last() == '\n',
        forall|k: int|
            0 <= k < split_inclusive_nl(body).len() ==> trim(strip_nl(#[trigger] split_inclusive_nl(body)[k]))
                != backtick_fence(),
    ensures
        split_spec(open_fence_line() + body + backtick_fence()) == seq![SegmentView::Code(None, body)],
{
    let src = open_fence_line() + body + backtick_fence();
    let bps = split_inclusive_nl(body);
    lemma_split_append(open_fence_line(), body + backtick_fence());
    lemma_split_append(body, backtick_fence());
    assert(open_fence_line() + body + backtick_fence() =~= open_fence_line() + (body + backtick_fence()));
    assert(split_inclusive_nl(open_fence_line()) =~= seq![open_fence_line()]) by {
        crate::text::lemma_line_len(open_fence_line());
        assert(crate::text::line_len(open_fence_line()) == 4) by {
            reveal_with_fuel(crate::text::line_len, 5);
        }
        assert(open_fence_line().take(4) =~= open_fence_line());
        assert(open_fence_line().skip(4) =~= Seq::<char>::empty());
        assert(split_inclusive_nl(Seq::<char>::empty()) =~= Seq::<Seq<char>>::empty());
    }
    assert(split_inclusive_nl(backtick_fence()) =~= seq![backtick_fence()]) by {
        assert(crate::text::line_len(backtick_fence()) == 3) by {
            reveal_with_fuel(crate::text::line_len, 4);
        }
        assert(backtick_fence().take(3) =~= backtick_fence());
        assert(backtick_fence().skip(3) =~= Seq::<char>::empty());
        assert(split_inclusive_nl(Seq::<char>::empty()) =~= Seq::<Seq<char>>::empty());
    }
    let ps = split_inclusive_nl(src);
    assert(ps =~= seq![open_fence_line()] + bps + seq![backtick_fence()]);
    assert forall|k: int| 0 <= k < bps.len() implies ps[k + 1] == bps[k] by {}
    lemma_fenced_run(ps, bps, bps.len() + 1int);
    lemma_pieces_concat(body);
    let last = ps[bps.len() + 1int];
    assert(last == backtick_fence());
    assert(strip_nl(backtick_fence()) =~= backtick_fence());
    assert(!crate::text::is_ws('`'));
    assert(crate::text::leading_ws(backtick_fence()) == 0);
    assert(trim_start(backtick_fence()) =~= backtick_fence());
    assert(crate::text::trailing_ws(backtick_fence()) == 0);
    assert(trim(backtick_fence()) =~= backtick_fence());
    assert(split_spec(src) =~= seq![SegmentView::Code(None, body)]);
}

} // verus!
