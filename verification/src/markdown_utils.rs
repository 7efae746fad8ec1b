//! Helpers for fenced code blocks in streamed markdown.
use vstd::prelude::*;
use crate::text::{
    bounds_within, chars_of, line_bounds, lines, push_chars, split_inclusive_bounds, split_inclusive_nl, skip_ws_forward, spans_of, starts_with, starts_with_at,
    string_from, trim, trim_bounds, trim_start,
};

verus! {

/// The opening of a backtick fence.
pub open spec fn backtick_fence() -> Seq<char> {
    seq!['`', '`', '`']
}

/// The opening of a tilde fence.
pub open spec fn tilde_fence() -> Seq<char> {
    seq!['~', '~', '~']
}

/// A line opens or closes a fence when, after leading whitespace, it starts
/// with three backticks or three tildes.
pub open spec fn is_fence_line(l: Seq<char>) -> bool {
    starts_with(trim_start(l), backtick_fence()) || starts_with(trim_start(l), tilde_fence())
}

/// The fence a line opens, after leading whitespace: three backticks, or
/// else three tildes.
pub open spec fn fence_opened_by(l: Seq<char>) -> Option<Seq<char>> {
    if starts_with(trim_start(l), backtick_fence()) {
        Some(backtick_fence())
    } else if starts_with(trim_start(l), tilde_fence()) {
        Some(tilde_fence())
    } else {
        None
    }
}

/// The fence still open after the lines `ls`: a fence line opens a block
/// when none is open, and the open block is closed only by a later line
/// that, trimmed, is exactly its fence.
pub open spec fn open_fence(ls: Seq<Seq<char>>) -> Option<Seq<char>>
    decreases ls.len(),
{
    if ls.len() == 0 {
        None
    } else {
        match open_fence(ls.drop_last()) {
            None => fence_opened_by(ls.last()),
            Some(tok) => if trim(ls.last()) == tok {
                None
            } else {
                Some(tok)
            },
        }
    }
}

/// The fence named by a kind: 1 for backticks, 2 for tildes, none else.
pub open spec fn fence_of_kind(k: u8) -> Option<Seq<char>> {
    if k == 1 {
        Some(backtick_fence())
    } else if k == 2 {
        Some(tilde_fence())
    } else {
        None
    }
}

pub fn backtick_fence_chars() -> (r: [char; 3])
    ensures
        r@ == backtick_fence(),
{
    let r = ['`', '`', '`'];
    assert(r@ =~= backtick_fence());
    r
}

pub fn tilde_fence_chars() -> (r: [char; 3])
    ensures
        r@ == tilde_fence(),
{
    let r = ['~', '~', '~'];
    assert(r@ =~= tilde_fence());
    r
}

/// Which fence, if any, the line `s[from..to]` opens: 1 for backticks, 2 for
/// tildes, 0 for none.
fn fence_kind(s: &[char], from: usize, to: usize) -> (k: u8)
    requires
        from <= to <= s@.len(),
    ensures
        k <= 2,
        k == 1 <==> starts_with(trim_start(s@.subrange(from as int, to as int)), backtick_fence()),
        k == 2 <==> !starts_with(trim_start(s@.subrange(from as int, to as int)), backtick_fence())
            && starts_with(trim_start(s@.subrange(from as int, to as int)), tilde_fence()),
{
    let a = skip_ws_forward(s, from, to);
    let sub = Ghost(s@.subrange(from as int, to as int));
    let line = &s[0..to];
    let bt = backtick_fence_chars();
    let td = tilde_fence_chars();
    proof {
        assert(line@ =~= s@.subrange(0, to as int));
        assert(trim_start(sub@) =~= line@.skip(a as int));
    }
    if starts_with_at(line, a, &bt) {
        1
    } else if starts_with_at(line, a, &td) {
        2
    } else {
        0
    }
}

/// Whether the text ends inside a fenced code block: one opened by ``` or
/// ~~~ and not closed by a matching fence on its own line.
pub fn is_inside_unclosed_fence(s: &str) -> (b: bool)
    ensures
        b == open_fence(lines(s@)) is Some,
{
    let cs = chars_of(s);
    let bounds = line_bounds(&cs);
    let bt = backtick_fence_chars();
    let td = tilde_fence_chars();
    let mut open: u8 = 0;
    let mut i: usize = 0;
    while i < bounds.len()
        invariant
            spans_of(cs@, bounds@) == lines(s@),
            bounds_within(bounds@, cs@.len() as int),
            bt@ == backtick_fence(),
            td@ == tilde_fence(),
            i <= bounds@.len(),
            open <= 2,
            fence_of_kind(open) == open_fence(lines(s@).take(i as int)),
        decreases bounds.len() - i,
    {
        let (a, b) = bounds[i];
        let ghost ls = lines(s@);
        proof {
            assert(spans_of(cs@, bounds@)[i as int] == cs@.subrange(a as int, b as int));
            assert(ls.take(i + 1).drop_last() =~= ls.take(i as int));
            assert(ls.take(i + 1).last() == ls[i as int]);
        }
        if open == 0 {
            open = fence_kind(&cs, a, b);
        } else {
            let tok = if open == 1 {
                bt
            } else {
                td
            };
            let (tc, te) = trim_bounds(&cs, a, b);
            let t = &cs[tc..te];
            proof {
                assert(t@ =~= trim(ls[i as int]));
            }
            if t.len() == 3 && t[0] == tok[0] && t[1] == tok[1] && t[2] == tok[2] {
                proof {
                    assert(t@ =~= tok@);
                }
                open = 0;
            } else {
                proof {
                    if t@ =~= tok@ {
                        assert(t@[0] == tok@[0] && t@[1] == tok@[1] && t@[2] == tok@[2]);
                    }
                }
            }
        }
        i += 1;
    }
    proof {
        assert(lines(s@).take(bounds@.len() as int) =~= lines(s@));
    }
    open != 0
}

/// Index of the first line at or after `j` whose trimmed text equals `tok`,
/// or -1.
pub open spec fn closing_from(ls: Seq<Seq<char>>, j: int, tok: Seq<char>) -> int
    decreases ls.len() - j,
{
    if j < 0 || j >= ls.len() {
        -1
    } else if trim(ls[j]) == tok {
        j
    } else {
        closing_from(ls, j + 1, tok)
    }
}

/// All lines strictly between `a` and `b` are blank.
pub open spec fn blank_between(ls: Seq<Seq<char>>, a: int, b: int) -> bool {
    forall|k: int| a < k < b ==> #[trigger] trim(ls[k]).len() == 0
}

/// The fence token opened by a line (backticks take precedence).
pub open spec fn fence_token(l: Seq<char>) -> Seq<char> {
    if starts_with(trim_start(l), backtick_fence()) {
        backtick_fence()
    } else {
        tilde_fence()
    }
}

/// Output of `strip_empty_fenced_code_blocks` for the lines from `i` on,
/// appended to `out`. `ls` are the lines (without their line endings) and
/// `ps` the same lines with their endings. A line that is kept is copied
/// with its own ending; a complete fenced block whose content is blank is
/// dropped and leaves at most one newline behind.
pub open spec fn strip_empty_from(ls: Seq<Seq<char>>, ps: Seq<Seq<char>>, i: int, out: Seq<char>) -> Seq<char>
    decreases ls.len() - i,
{
    if i < 0 || i >= ls.len() {
        out
    } else if is_fence_line(ls[i]) {
        let j = closing_from(ls, i + 1, fence_token(ls[i]));
        if i < j < ls.len() && blank_between(ls, i, j) {
            let out2 = if out.len() > 0 && out.last() == '\n' {
                out
            } else {
                out.push('\n')
            };
            strip_empty_from(ls, ps, j + 1, out2)
        } else {
            strip_empty_from(ls, ps, i + 1, out + ps[i])
        }
    } else {
        strip_empty_from(ls, ps, i + 1, out + ps[i])
    }
}

pub proof fn lemma_closing_from_range(ls: Seq<Seq<char>>, j: int, tok: Seq<char>)
    ensures
        closing_from(ls, j, tok) == -1 || (j <= closing_from(ls, j, tok) < ls.len()),
    decreases ls.len() - j,
{
    if j >= 0 && j < ls.len() && trim(ls[j]) != tok {
        lemma_closing_from_range(ls, j + 1, tok);
    }
}

/// Scan the lines from `start` for one whose trimmed text is `tok`; report
/// its index (or the line count) and whether a non-blank line came first.
fn find_close(
    cs: &Vec<char>,
    bounds: &Vec<(usize, usize)>,
    start: usize,
    tok: &[char; 3],
    Ghost(ls): Ghost<Seq<Seq<char>>>,
) -> (r: (usize, bool))
    requires
        spans_of(cs@, bounds@) == ls,
        bounds_within(bounds@, cs@.len() as int),
        1 <= start <= bounds@.len(),
    ensures
        start <= r.0 <= bounds@.len(),
        closing_from(ls, start as int, tok@) == if r.0 < bounds@.len() {
            r.0 as int
        } else {
            -1
        },
        r.1 == !blank_between(ls, start - 1, r.0 as int),
{
    let n = bounds.len();
    let mut j = start;
    let mut has_content = false;
    while j < n
        invariant
            n == bounds@.len(),
            spans_of(cs@, bounds@) == ls,
            bounds_within(bounds@, cs@.len() as int),
            start <= j <= n,
            closing_from(ls, start as int, tok@) == closing_from(ls, j as int, tok@),
            has_content == !blank_between(ls, start - 1, j as int),
        decreases n - j,
    {
        let (c, d) = bounds[j];
        assert(ls[j as int] == cs@.subrange(c as int, d as int));
        let (tc, td) = trim_bounds(cs, c, d);
        let t = &cs[tc..td];
        assert(t@ =~= trim(ls[j as int]));
        if t.len() == 3 && t[0] == tok[0] && t[1] == tok[1] && t[2] == tok[2] {
            assert(t@ =~= tok@);
            return (j, has_content);
        }
        assert(t@ != tok@) by {
            if t@ =~= tok@ {
                assert(t@[0] == tok@[0] && t@[1] == tok@[1] && t@[2] == tok@[2]);
            }
        }
        if td > tc {
            has_content = true;
        }
        j += 1;
    }
    (j, has_content)
}

/// Remove complete fenced code blocks whose content is blank; all other
/// text is kept as it is, line endings included.
pub fn strip_empty_fenced_code_blocks(s: &str) -> (r: String)
    ensures
        r@ == strip_empty_from(lines(s@), split_inclusive_nl(s@), 0, Seq::empty()),
{
    let cs = chars_of(s);
    let bounds = line_bounds(&cs);
    let pieces = split_inclusive_bounds(&cs);
    let ghost ls = lines(s@);
    let ghost ps = split_inclusive_nl(s@);
    let n = bounds.len();
    proof {
        assert(ls.len() == ps.len());
        assert(spans_of(cs@, pieces@).len() == pieces@.len());
    }
    let mut out: Vec<char> = Vec::new();
    let mut i: usize = 0;
    while i < n
        invariant
            n == bounds@.len(),
            spans_of(cs@, bounds@) == ls,
            spans_of(cs@, pieces@) == ps,
            pieces@.len() == n,
            ls.len() == n,
            bounds_within(bounds@, cs@.len() as int),
            bounds_within(pieces@, cs@.len() as int),
            i <= n,
            strip_empty_from(ls, ps, i as int, out@) == strip_empty_from(ls, ps, 0, Seq::empty()),
        decreases n - i,
    {
        let (a, b) = bounds[i];
        assert(ls[i as int] == cs@.subrange(a as int, b as int));
        let k = fence_kind(&cs, a, b);
        if k != 0 {
            let tok = if k == 1 {
                backtick_fence_chars()
            } else {
                tilde_fence_chars()
            };
            assert(tok@ == fence_token(ls[i as int]));
            let (j, has_content) = find_close(&cs, &bounds, i + 1, &tok, Ghost(ls));
            let found_close = j < n;
            proof {
                lemma_closing_from_range(ls, i + 1, tok@);
            }
            if found_close && !has_content {
                proof {
                    assert(is_fence_line(ls[i as int]));
                }
                let need_nl = out.len() == 0 || out[out.len() - 1] != '\n';
                if need_nl {
                    out.push('\n');
                }
                i = j + 1;
                continue;
            }
            proof {
                lemma_closing_from_range(ls, i + 1, tok@);
            }
        }
        let ghost before = out@;
        let (pa, pb) = pieces[i];
        assert(ps[i as int] == cs@.subrange(pa as int, pb as int));
        let piece = &cs[pa..pb];
        assert(piece@ =~= cs@.subrange(pa as int, pb as int));
        push_chars(&mut out, piece);
        proof {
            assert(out@ =~= before + ps[i as int]);
        }
        i += 1;
    }
    string_from(&out)
}

/// The pieces put back together.
pub open spec fn joined(ps: Seq<Seq<char>>) -> Seq<char>
    decreases ps.len(),
{
    if ps.len() == 0 {
        Seq::empty()
    } else {
        ps[0] + joined(ps.drop_first())
    }
}

proof fn lemma_split_joined(s: Seq<char>)
    ensures
        joined(split_inclusive_nl(s)) == s,
    decreases s.len(),
{
    if s.len() > 0 {
        crate::text::lemma_line_len(s);
        let l = crate::text::line_len(s) as int;
        lemma_split_joined(s.skip(l));
        let ps = split_inclusive_nl(s);
        assert(ps.drop_first() =~= split_inclusive_nl(s.skip(l)));
        assert(s.take(l) + s.skip(l) =~= s);
    }
}

proof fn lemma_strip_without_fences(ls: Seq<Seq<char>>, ps: Seq<Seq<char>>, i: int, out: Seq<char>)
    requires
        ls.len() == ps.len(),
        0 <= i <= ls.len(),
        forall|k: int| 0 <= k < ls.len() ==> !is_fence_line(#[trigger] ls[k]),
    ensures
        strip_empty_from(ls, ps, i, out) == out + joined(ps.skip(i)),
    decreases ls.len() - i,
{
    if i < ls.len() {
        assert(!is_fence_line(ls[i]));
        lemma_strip_without_fences(ls, ps, i + 1, out + ps[i]);
        assert(ps.skip(i).drop_first() =~= ps.skip(i + 1));
        assert(ps.skip(i)[0] == ps[i]);
        assert(out + ps[i] + joined(ps.skip(i + 1)) =~= out + (ps[i] + joined(ps.skip(i + 1))));
    } else {
        assert(ps.skip(i).len() == 0);
        assert(out + joined(ps.skip(i)) =~= out);
    }
}

/// Text without fence lines comes back unchanged, line endings included.
pub proof fn law_text_without_fences_unchanged(s: Seq<char>)
    requires
        forall|k: int| 0 <= k < lines(s).len() ==> !is_fence_line(#[trigger] lines(s)[k]),
    ensures
        strip_empty_from(lines(s), split_inclusive_nl(s), 0, Seq::empty()) == s,
{
    lemma_strip_without_fences(lines(s), split_inclusive_nl(s), 0, Seq::empty());
    lemma_split_joined(s);
    assert(split_inclusive_nl(s).skip(0) =~= split_inclusive_nl(s));
    assert(Seq::<char>::empty() + s =~= s);
}

} // verus!
