//! Summaries of patches for the transcript: per-file counts of added and
//! removed lines, and the detailed lines of the change wrapped to the
//! terminal width with line numbers in a gutter.
use vstd::prelude::*;
use crate::insert_history::{Color, StyledSpan, DIM, BOLD};
use crate::text::{chars_of, decimal, line_bounds, lines, push_decimal, spans_of, starts_with, string_from};

verus! {

/// A change to one file.
#[derive(Debug, Clone, PartialEq, Eq)]
pub enum FileChange {
    Add { content: String },
    Delete,
    Update { unified_diff: String, move_path: Option<String> },
}

/// A file of a patch: its path, its change, and its current content when
/// it could be read (used for deleted files).
#[derive(Debug, Clone, PartialEq, Eq)]
pub struct ChangedFile {
    pub path: String,
    pub change: FileChange,
    pub original: Option<String>,
}

/// No file occurs twice among the changes of a patch (they are keyed by
/// path).
pub open spec fn paths_distinct(changes: Seq<ChangedFile>) -> bool {
    forall|i: int, j: int| 0 <= i < j < changes.len() ==> changes[i].path@ != changes[j].path@
}

/// The kind of a line of a hunk.
#[derive(Debug, Clone, Copy, PartialEq, Eq, Structural)]
pub enum DiffLineKind {
    Insert,
    Delete,
    Context,
}

/// A hunk of a unified diff: where it starts in the old and new file, and
/// its lines.
#[derive(Debug, Clone, PartialEq, Eq)]
pub struct PatchHunk {
    pub old_start: usize,
    pub new_start: usize,
    pub lines: Vec<(DiffLineKind, String)>,
}

/// Abstract form of a hunk.
pub struct HunkView {
    pub old_start: usize,
    pub new_start: usize,
    pub lines: Seq<(DiffLineKind, Seq<char>)>,
}

pub open spec fn hunk_view(h: PatchHunk) -> HunkView {
    HunkView {
        old_start: h.old_start,
        new_start: h.new_start,
        lines: h.lines@.map_values(|l: (DiffLineKind, String)| (l.0, l.1@)),
    }
}

pub open spec fn hunks_view(r: Option<Vec<PatchHunk>>) -> Option<Seq<HunkView>> {
    match r {
        Some(v) => Some(v@.map_values(|h: PatchHunk| hunk_view(h))),
        None => None,
    }
}

/// The hunks `diffy` parses from a unified diff, or nothing when it does
/// not parse.
pub uninterp spec fn parsed_patch(diff: Seq<char>) -> Option<Seq<HunkView>>;

/// An ASCII decimal digit.
pub open spec fn is_digit(c: char) -> bool {
    '0' <= c <= '9'
}

/// The value of a decimal digit.
pub open spec fn digit_val(c: char) -> nat {
    (c as int - '0' as int) as nat
}

/// The value of a string of decimal digits.
pub open spec fn num_val(s: Seq<char>) -> nat
    decreases s.len(),
{
    if s.len() == 0 {
        0
    } else {
        num_val(s.drop_last()) * 10 + digit_val(s.last())
    }
}

/// The digits of a numeral: without the sign `+` that `usize::from_str`
/// accepts in front.
pub open spec fn numeral(s: Seq<char>) -> Seq<char> {
    if s.len() > 0 && s[0] == '+' {
        s.drop_first()
    } else {
        s
    }
}

/// `s` has the form of a `usize` numeral: an optional `+` and one or more
/// decimal digits.
pub open spec fn parses_as_number(s: Seq<char>) -> bool {
    numeral(s).len() > 0 && forall|k: int| 0 <= k < numeral(s).len() ==> #[trigger] is_digit(numeral(s)[k])
}

/// Index of the first `c` in `s` at or after `i`, or the length of `s`.
pub open spec fn first_from(s: Seq<char>, c: char, i: int) -> int
    decreases s.len() - i,
{
    if i < 0 || i >= s.len() {
        s.len() as int
    } else if s[i] == c {
        i
    } else {
        first_from(s, c, i + 1)
    }
}

/// A hunk range `-start,len` or `+start,len` (the length 1 when omitted):
/// when both numbers read as numerals, their sum fits in `usize`.
pub open spec fn range_fits(r: Seq<char>) -> bool {
    let body = if r.len() > 0 {
        r.drop_first()
    } else {
        r
    };
    let k = first_from(body, ',', 0);
    let a = body.take(k);
    let b = if k < body.len() {
        body.skip(k + 1)
    } else {
        seq!['1']
    };
    parses_as_number(a) && parses_as_number(b) ==> num_val(numeral(a)) + num_val(numeral(b)) <= usize::MAX
}

/// Where the ranges of a hunk header end: the first " @@" at or after `j`,
/// or the end of the line.
pub open spec fn header_end(l: Seq<char>, j: int) -> int
    decreases l.len() - j,
{
    if j < 0 || j + 3 > l.len() {
        l.len() as int
    } else if l[j] == ' ' && l[j + 1] == '@' && l[j + 2] == '@' {
        j
    } else {
        header_end(l, j + 1)
    }
}

/// The ranges part of a hunk header line: after "@@ ", up to " @@".
pub open spec fn range_text(l: Seq<char>) -> Seq<char> {
    l.subrange(3, header_end(l, 3))
}

/// Both ranges of a hunk header line end within `usize`.
pub open spec fn header_fits(l: Seq<char>) -> bool {
    let t = range_text(l);
    let k = first_from(t, ' ', 0);
    k < t.len() ==> range_fits(t.take(k)) && range_fits(t.skip(k + 1))
}

/// In every hunk header, each range's start plus its length fits in
/// `usize`, as `diffy` reads them (`@@ -start,len +start,len @@`, numbers
/// as `usize::from_str` reads them, a missing length being 1).
pub open spec fn hunk_ends_fit(diff: Seq<char>) -> bool {
    forall|n: int|
        0 <= n < lines(diff).len() && starts_with(#[trigger] lines(diff)[n], "@@ "@) ==> header_fits(
            lines(diff)[n],
        )
}

/// The hunks the summary reads from a unified diff: those `diffy` parses
/// when every hunk header's range fits, none otherwise.
pub open spec fn patch_of(diff: Seq<char>) -> Option<Seq<HunkView>> {
    if hunk_ends_fit(diff) {
        parsed_patch(diff)
    } else {
        None
    }
}

/// `diffy::Patch::from_str`, its hunks read as plain values. `diffy` adds a
/// hunk's start and length without an overflow check when it puts the
/// hunks in order, so headers whose ranges could overflow are left out.
#[verifier::external_body]
fn parse_patch(diff: &str) -> (r: Option<Vec<PatchHunk>>)
    requires
        hunk_ends_fit(diff@),
    ensures
        hunks_view(r) == parsed_patch(diff@),
{
    let patch = diffy::Patch::from_str(diff).ok()?;
    Some(patch.hunks().iter().map(|h| PatchHunk {
        old_start: h.old_range().start(),
        new_start: h.new_range().start(),
        lines: h.lines().iter().map(|l| match l {
            diffy::Line::Insert(t) => (DiffLineKind::Insert, t.to_string()),
            diffy::Line::Delete(t) => (DiffLineKind::Delete, t.to_string()),
            diffy::Line::Context(t) => (DiffLineKind::Context, t.to_string()),
        }).collect(),
    }).collect())
}

/// End of the ranges part of the header line `l` (at least three long).
fn header_end_of(l: &[char]) -> (r: usize)
    requires
        l@.len() >= 3,
    ensures
        r as int == header_end(l@, 3),
{
    let mut j: usize = 3;
    while l.len() - j >= 3
        invariant
            3 <= j <= l@.len(),
            header_end(l@, j as int) == header_end(l@, 3),
        decreases l.len() - j,
    {
        if l[j] == ' ' && l[j + 1] == '@' && l[j + 2] == '@' {
            return j;
        }
        j += 1;
    }
    l.len()
}

/// Index of the first `c` in `s`, or its length.
fn first_index(s: &[char], c: char) -> (r: usize)
    ensures
        r as int == first_from(s@, c, 0),
        r <= s@.len(),
{
    let mut i: usize = 0;
    while i < s.len()
        invariant
            i <= s@.len(),
            first_from(s@, c, i as int) == first_from(s@, c, 0),
        decreases s.len() - i,
    {
        if s[i] == c {
            return i;
        }
        i += 1;
    }
    i
}

/// Whether `s` reads as a numeral, and its value when that fits in
/// `usize`.
fn numeral_value(s: &[char]) -> (r: (bool, Option<usize>))
    ensures
        r.0 == parses_as_number(s@),
        r.0 ==> r.1 == if num_val(numeral(s@)) <= usize::MAX {
            Some(num_val(numeral(s@)) as usize)
        } else {
            None
        },
{
    let d: &[char] = if s.len() > 0 && s[0] == '+' {
        &s[1..s.len()]
    } else {
        s
    };
    assert(d@ =~= numeral(s@));
    if d.len() == 0 {
        return (false, None);
    }
    let mut acc: Option<usize> = Some(0);
    let mut i: usize = 0;
    while i < d.len()
        invariant
            d@ == numeral(s@),
            d@.len() > 0,
            i <= d@.len(),
            forall|k: int| 0 <= k < i ==> #[trigger] is_digit(d@[k]),
            acc == if num_val(d@.take(i as int)) <= usize::MAX {
                Some(num_val(d@.take(i as int)) as usize)
            } else {
                None
            },
        decreases d.len() - i,
    {
        let c = d[i];
        if !('0' <= c && c <= '9') {
            proof {
                assert(!is_digit(d@[i as int]));
            }
            return (false, None);
        }
        let dv: usize = (c as u32 - '0' as u32) as usize;
        proof {
            assert(d@.take(i + 1).drop_last() =~= d@.take(i as int));
            assert(d@.take(i + 1).last() == c);
            assert(dv == digit_val(c));
        }
        acc = match acc {
            Some(v) => match v.checked_mul(10) {
                Some(w) => w.checked_add(dv),
                None => None,
            },
            None => None,
        };
        i += 1;
    }
    proof {
        assert(d@.take(d@.len() as int) =~= d@);
    }
    (true, acc)
}

/// Whether a hunk range's start plus length fits (see [`range_fits`]).
fn range_fits_in(r: &[char]) -> (b: bool)
    ensures
        b == range_fits(r@),
{
    let body: &[char] = if r.len() > 0 {
        &r[1..r.len()]
    } else {
        r
    };
    proof {
        if r@.len() > 0 {
            assert(body@ =~= r@.drop_first());
        }
    }
    let k = first_index(body, ',');
    let a = &body[0..k];
    assert(a@ =~= body@.take(k as int));
    let one = ['1'];
    let bpart: &[char] = if k < body.len() {
        &body[k + 1..body.len()]
    } else {
        &one
    };
    proof {
        if k < body@.len() {
            assert(bpart@ =~= body@.skip(k + 1));
        } else {
            assert(bpart@ =~= seq!['1']);
        }
    }
    let (pa, va) = numeral_value(a);
    let (pb, vb) = numeral_value(bpart);
    if !(pa && pb) {
        return true;
    }
    match (va, vb) {
        (Some(x), Some(y)) => x.checked_add(y).is_some(),
        _ => false,
    }
}

/// Whether both ranges of the header line `l` fit (see [`header_fits`]).
fn header_fits_in(l: &[char]) -> (b: bool)
    requires
        l@.len() >= 3,
    ensures
        b == header_fits(l@),
{
    let e = header_end_of(l);
    proof {
        lemma_header_end_range(l@, 3);
    }
    let t = &l[3..e];
    assert(t@ =~= range_text(l@));
    let k = first_index(t, ' ');
    if k >= t.len() {
        return true;
    }
    let r1 = &t[0..k];
    let r2 = &t[k + 1..t.len()];
    assert(r1@ =~= t@.take(k as int));
    assert(r2@ =~= t@.skip(k + 1));
    range_fits_in(r1) && range_fits_in(r2)
}

/// Whether every hunk header's ranges fit (see [`hunk_ends_fit`]).
fn hunk_ends_fit_in(diff: &str) -> (r: bool)
    ensures
        r == hunk_ends_fit(diff@),
{
    let s = chars_of(diff);
    let b = line_bounds(&s);
    let ghost ls = lines(diff@);
    let head = chars_of("@@ ");
    proof {
        reveal_strlit("@@ ");
    }
    let mut i: usize = 0;
    while i < b.len()
        invariant
            s@ == diff@,
            spans_of(s@, b@) == ls,
            crate::text::bounds_within(b@, s@.len() as int),
            head@ == "@@ "@,
            ls == lines(diff@),
            i <= b@.len(),
            forall|n: int| 0 <= n < i && starts_with(#[trigger] ls[n], "@@ "@) ==> header_fits(ls[n]),
        decreases b.len() - i,
    {
        let (x, y) = b[i];
        let l = &s[x..y];
        proof {
            assert(spans_of(s@, b@)[i as int] == s@.subrange(x as int, y as int));
            assert(l@ == ls[i as int]);
            assert(l@.skip(0) =~= l@);
        }
        proof {
            reveal_strlit("@@ ");
        }
        if crate::text::starts_with_at(l, 0, &head) {
            assert(head@.len() == 3);
            if !header_fits_in(l) {
                assert(starts_with(lines(diff@)[i as int], "@@ "@) && !header_fits(lines(diff@)[i as int]));
                return false;
            }
        }
        i += 1;
    }
    true
}

proof fn lemma_header_end_range(l: Seq<char>, j: int)
    requires
        0 <= j <= l.len(),
    ensures
        j <= header_end(l, j) <= l.len(),
    decreases l.len() - j,
{
    if j + 3 <= l.len() && !(l[j] == ' ' && l[j + 1] == '@' && l[j + 2] == '@') {
        lemma_header_end_range(l, j + 1);
    }
}

/// The hunks of a unified diff, when every header's ranges fit and `diffy`
/// parses it.
fn patch_hunks(diff: &str) -> (r: Option<Vec<PatchHunk>>)
    ensures
        hunks_view(r) == patch_of(diff@),
{
    if hunk_ends_fit_in(diff) {
        parse_patch(diff)
    } else {
        None
    }
}

/// All lines of the hunks, in order.
pub open spec fn hunk_lines(hs: Seq<HunkView>) -> Seq<(DiffLineKind, Seq<char>)>
    decreases hs.len(),
{
    if hs.len() == 0 {
        Seq::empty()
    } else {
        hunk_lines(hs.drop_last()) + hs.last().lines
    }
}

/// Number of lines of kind `k`.
pub open spec fn count_kind(ls: Seq<(DiffLineKind, Seq<char>)>, k: DiffLineKind) -> nat
    decreases ls.len(),
{
    if ls.len() == 0 {
        0
    } else {
        count_kind(ls.drop_last(), k) + if ls.last().0 == k {
            1nat
        } else {
            0nat
        }
    }
}

/// A line that the fallback count skips: a file header or a hunk header.
pub open spec fn header_line(l: Seq<char>) -> bool {
    starts_with(l, "+++"@) || starts_with(l, "---"@) || starts_with(l, "@@"@)
}

/// Lines of `ls` (the first `n`) counted by the fallback scan: not a
/// header, and starting with `c`.
pub open spec fn count_prefixed(ls: Seq<Seq<char>>, n: int, c: char) -> nat
    decreases n,
{
    if n <= 0 {
        0
    } else {
        count_prefixed(ls, n - 1, c) + if !header_line(ls[n - 1]) && ls[n - 1].len() > 0
            && ls[n - 1][0] == c {
            1nat
        } else {
            0nat
        }
    }
}

/// `n`, saturating at `usize::MAX`.
pub open spec fn sat(n: nat) -> nat {
    if n <= usize::MAX {
        n
    } else {
        usize::MAX as nat
    }
}

/// Lines added and removed by a unified diff: counted on the parsed hunks
/// (saturating at `usize::MAX`), or, when the diff does not parse, by
/// scanning its lines for '+' and '-' (headers excluded).
pub open spec fn unified_counts(diff: Seq<char>) -> (nat, nat) {
    match patch_of(diff) {
        Some(hs) => (
            sat(count_kind(hunk_lines(hs), DiffLineKind::Insert)),
            sat(count_kind(hunk_lines(hs), DiffLineKind::Delete)),
        ),
        None => (
            count_prefixed(lines(diff), lines(diff).len() as int, '+'),
            count_prefixed(lines(diff), lines(diff).len() as int, '-'),
        ),
    }
}

/// Lines added and removed by parsed hunks (each count saturating at
/// `usize::MAX`).
pub fn count_hunk_lines(hs: &Vec<PatchHunk>) -> (r: (usize, usize))
    ensures
        ({
            let hv = hs@.map_values(|h: PatchHunk| hunk_view(h));
            r.0 == sat(count_kind(hunk_lines(hv), DiffLineKind::Insert)) && r.1 == sat(count_kind(
                hunk_lines(hv),
                DiffLineKind::Delete,
            ))
        }),
{
    let ghost hv = hs@.map_values(|h: PatchHunk| hunk_view(h));
    let mut adds: usize = 0;
    let mut dels: usize = 0;
    let mut i: usize = 0;
    let ghost mut seen: Seq<(DiffLineKind, Seq<char>)> = Seq::empty();
    while i < hs.len()
        invariant
            hv == hs@.map_values(|h: PatchHunk| hunk_view(h)),
            i <= hs@.len(),
            seen == hunk_lines(hv.take(i as int)),
            adds == sat(count_kind(seen, DiffLineKind::Insert)),
            dels == sat(count_kind(seen, DiffLineKind::Delete)),
        decreases hs.len() - i,
    {
        let h = &hs[i];
        let mut j: usize = 0;
        let ghost base = seen;
        let ghost hl = hv[i as int].lines;
        proof {
            assert(hv[i as int] == hunk_view(hs@[i as int]));
        }
        while j < h.lines.len()
            invariant
                hl == h.lines@.map_values(|l: (DiffLineKind, String)| (l.0, l.1@)),
                j <= h.lines@.len(),
                seen == base + hl.take(j as int),
                adds == sat(count_kind(seen, DiffLineKind::Insert)),
                dels == sat(count_kind(seen, DiffLineKind::Delete)),
            decreases h.lines.len() - j,
        {
            let k = h.lines[j].0;
            proof {
                let ns = base + hl.take(j + 1);
                assert(ns.drop_last() =~= seen);
                assert(ns.last() == hl[j as int]);
                seen = ns;
            }
            match k {
                DiffLineKind::Insert => {
                    adds = adds.saturating_add(1);
                },
                DiffLineKind::Delete => {
                    dels = dels.saturating_add(1);
                },
                DiffLineKind::Context => {},
            }
            j += 1;
        }
        proof {
            assert(hl.take(hl.len() as int) =~= hl);
            assert(hv.take(i + 1).drop_last() =~= hv.take(i as int));
            assert(hv.take(i + 1).last() == hv[i as int]);
        }
        i += 1;
    }
    assert(hv.take(hv.len() as int) =~= hv);
    (adds, dels)
}

/// The lines of `s` counted by the fallback scan.
fn count_prefixed_lines(s: &[char], c: char) -> (r: usize)
    ensures
        r == count_prefixed(lines(s@), lines(s@).len() as int, c),
{
    let b = line_bounds(s);
    let ghost ls = lines(s@);
    let plus3 = chars_of("+++");
    let minus3 = chars_of("---");
    let at2 = chars_of("@@");
    let mut n: usize = 0;
    let mut i: usize = 0;
    while i < b.len()
        invariant
            spans_of(s@, b@) == ls,
            crate::text::bounds_within(b@, s@.len() as int),
            plus3@ == "+++"@,
            minus3@ == "---"@,
            at2@ == "@@"@,
            i <= b@.len(),
            n == count_prefixed(ls, i as int, c),
            n <= i,
        decreases b.len() - i,
    {
        let (x, y) = b[i];
        let l = &s[x..y];
        proof {
            assert(spans_of(s@, b@)[i as int] == s@.subrange(x as int, y as int));
            assert(l@ == ls[i as int]);
        }
        let header = crate::text::starts_with_at(l, 0, &plus3) || crate::text::starts_with_at(l, 0, &minus3)
            || crate::text::starts_with_at(l, 0, &at2);
        proof {
            assert(l@.skip(0) =~= l@);
        }
        if !header && x < y && l[0] == c {
            n = n + 1;
        }
        i += 1;
    }
    n
}

/// Lines added and removed by a unified diff.
pub fn count_from_unified(diff: &str) -> (r: (usize, usize))
    ensures
        (r.0 as nat, r.1 as nat) == unified_counts(diff@),
{
    match patch_hunks(diff) {
        Some(hs) => count_hunk_lines(&hs),
        None => {
            let s = chars_of(diff);
            (count_prefixed_lines(&s, '+'), count_prefixed_lines(&s, '-'))
        },
    }
}

/// The per-file line of a patch summary.
#[derive(Debug, Clone, PartialEq, Eq)]
pub struct FileSummary {
    pub display_path: String,
    pub added: usize,
    pub removed: usize,
}

/// Abstract form of a changed file.
pub enum ChangeView {
    Add(Seq<char>),
    Delete,
    Update(Seq<char>, Option<Seq<char>>),
}

pub open spec fn opt_chars(o: Option<String>) -> Option<Seq<char>> {
    match o {
        Some(s) => Some(s@),
        None => None,
    }
}

pub open spec fn change_view(c: FileChange) -> ChangeView {
    match c {
        FileChange::Add { content } => ChangeView::Add(content@),
        FileChange::Delete => ChangeView::Delete,
        FileChange::Update { unified_diff, move_path } => ChangeView::Update(unified_diff@, opt_chars(move_path)),
    }
}

/// The summary of one file: its path (with the destination of a move),
/// and the lines it adds and removes. A new file adds all its lines; a
/// deleted file removes all the lines it had, when they could be read.
pub open spec fn file_summary(path: Seq<char>, c: ChangeView, original: Option<Seq<char>>) -> (Seq<char>, nat, nat) {
    match c {
        ChangeView::Add(content) => (path, lines(content).len(), 0),
        ChangeView::Delete => (path, 0, match original {
            Some(o) => lines(o).len(),
            None => 0,
        }),
        ChangeView::Update(diff, mv) => (
            match mv {
                Some(np) => path + " → "@ + np,
                None => path,
            },
            unified_counts(diff).0,
            unified_counts(diff).1,
        ),
    }
}

fn count_lines(s: &str) -> (r: usize)
    ensures
        r == lines(s@).len(),
{
    let c = chars_of(s);
    let b = line_bounds(&c);
    proof {
        assert(spans_of(c@, b@).len() == b@.len());
    }
    b.len()
}

/// Summarize one changed file.
pub fn summarize_file(f: &ChangedFile) -> (r: FileSummary)
    ensures
        (r.display_path@, r.added as nat, r.removed as nat) == file_summary(
            f.path@,
            change_view(f.change),
            opt_chars(f.original),
        ),
{
    match &f.change {
        FileChange::Add { content } => FileSummary {
            display_path: f.path.clone(),
            added: count_lines(content.as_str()),
            removed: 0,
        },
        FileChange::Delete => FileSummary {
            display_path: f.path.clone(),
            added: 0,
            removed: match &f.original {
                Some(o) => count_lines(o.as_str()),
                None => 0,
            },
        },
        FileChange::Update { unified_diff, move_path } => {
            let (added, removed) = count_from_unified(unified_diff.as_str());
            let display_path = match move_path {
                Some(np) => {
                    let mut v = chars_of(f.path.as_str());
                    let arrow = chars_of(" → ");
                    crate::text::push_chars(&mut v, &arrow);
                    let n = chars_of(np.as_str());
                    crate::text::push_chars(&mut v, &n);
                    string_from(&v)
                },
                None => f.path.clone(),
            };
            FileSummary { display_path, added, removed }
        },
    }
}

/// A line of styled spans, with the foreground color of the whole line.
#[derive(Debug, Clone, PartialEq, Eq)]
pub struct StyledLine {
    pub spans: Vec<StyledSpan>,
    pub fg: Option<Color>,
}

/// Abstract form of a styled line.
pub struct LineView {
    pub spans: Seq<crate::insert_history::SpanView>,
    pub fg: Option<Color>,
}

pub open spec fn line_view(l: StyledLine) -> LineView {
    LineView { spans: crate::insert_history::spans_view(l.spans@), fg: l.fg }
}

pub open spec fn lines_view(v: Seq<StyledLine>) -> Seq<LineView> {
    v.map_values(|l: StyledLine| line_view(l))
}

/// A span with `fg` and modifiers `add`.
pub open spec fn span_of(t: Seq<char>, fg: Option<Color>, add: u16) -> crate::insert_history::SpanView {
    crate::insert_history::SpanView { content: t, fg, bg: None, add_modifier: add, sub_modifier: 0 }
}

/// A span without style.
pub open spec fn raw(t: Seq<char>) -> crate::insert_history::SpanView {
    span_of(t, None, 0)
}

/// A span with its style dimmed.
pub open spec fn dimmed(s: crate::insert_history::SpanView) -> crate::insert_history::SpanView {
    crate::insert_history::SpanView {
        add_modifier: s.add_modifier | DIM,
        sub_modifier: s.sub_modifier & !DIM,
        ..s
    }
}

pub open spec fn file_noun(n: nat) -> Seq<char> {
    if n == 1 {
        "file"@
    } else {
        "files"@
    }
}

/// The header of a patch summary: "<title> to <n> file(s) (+<a> -<r>)".
pub open spec fn summary_header(title: Seq<char>, n: nat, added: nat, removed: nat) -> Seq<crate::insert_history::SpanView> {
    seq![
        span_of(title, Some(Color::Magenta), BOLD),
        raw(" to "@),
        raw(decimal(n) + " "@ + file_noun(n) + " "@),
        raw("("@),
        span_of("+"@ + decimal(added), Some(Color::Green), 0),
        raw(" "@),
        span_of("-"@ + decimal(removed), Some(Color::Red), 0),
        raw(")"@),
    ]
}

/// The dimmed line of file `idx` of `n`: its path, with its counts when
/// the patch changes several files.
pub open spec fn summary_file_line(idx: int, n: nat, path: Seq<char>, added: nat, removed: nat) -> Seq<crate::insert_history::SpanView> {
    let prefix = if idx == 0 {
        "  └ "@
    } else {
        "    "@
    };
    let counts = if n > 1 {
        seq![
            raw(" ("@),
            span_of("+"@ + decimal(added), Some(Color::Green), 0),
            raw(" "@),
            span_of("-"@ + decimal(removed), Some(Color::Red), 0),
            raw(")"@),
        ]
    } else {
        Seq::empty()
    };
    (seq![raw(prefix), raw(path)] + counts).map_values(|s: crate::insert_history::SpanView| dimmed(s))
}

pub(crate) fn push_str(v: &mut Vec<char>, s: &str)
    ensures
        final(v)@ == old(v)@ + s@,
{
    let c = chars_of(s);
    crate::text::push_chars(v, &c);
}

pub(crate) fn mk_span(text: Vec<char>, fg: Option<Color>, add: u16) -> (r: StyledSpan)
    ensures
        crate::insert_history::span_view(r) == span_of(text@, fg, add),
{
    StyledSpan { content: string_from(&text), fg, bg: None, add_modifier: add, sub_modifier: 0 }
}

pub(crate) fn raw_span(text: &str) -> (r: StyledSpan)
    ensures
        crate::insert_history::span_view(r) == raw(text@),
{
    mk_span(chars_of(text), None, 0)
}

/// "<sign><n>" as characters.
pub(crate) fn signed_count(sign: char, n: usize) -> (r: Vec<char>)
    ensures
        r@ == seq![sign] + decimal(n as nat),
{
    let mut v: Vec<char> = Vec::new();
    v.push(sign);
    push_decimal(&mut v, n as u64);
    v
}

/// The header of a patch summary.
pub fn summary_header_line(title: &str, n: usize, added: usize, removed: usize) -> (r: StyledLine)
    ensures
        line_view(r) == (LineView { spans: summary_header(title@, n as nat, added as nat, removed as nat), fg: None }),
{
    let mut spans: Vec<StyledSpan> = Vec::new();
    spans.push(mk_span(chars_of(title), Some(Color::Magenta), BOLD));
    spans.push(raw_span(" to "));
    let mut c: Vec<char> = Vec::new();
    push_decimal(&mut c, n as u64);
    c.push(' ');
    if n == 1 {
        push_str(&mut c, "file");
    } else {
        push_str(&mut c, "files");
    }
    c.push(' ');
    spans.push(mk_span(c, None, 0));
    spans.push(raw_span("("));
    spans.push(mk_span(signed_count('+', added), Some(Color::Green), 0));
    spans.push(raw_span(" "));
    spans.push(mk_span(signed_count('-', removed), Some(Color::Red), 0));
    spans.push(raw_span(")"));
    proof {
        reveal_strlit("+");
        reveal_strlit("-");
        reveal_strlit(" ");
        assert("+"@ =~= seq!['+']);
        assert("-"@ =~= seq!['-']);
        assert(" "@ =~= seq![' ']);
        let file_part = decimal(n as nat) + " "@ + file_noun(n as nat) + " "@;
        assert(c@ =~= file_part);
        assert(crate::insert_history::spans_view(spans@) =~= summary_header(
            title@,
            n as nat,
            added as nat,
            removed as nat,
        ));
    }
    StyledLine { spans, fg: None }
}

pub(crate) fn dim_span(s: StyledSpan) -> (r: StyledSpan)
    ensures
        crate::insert_history::span_view(r) == dimmed(crate::insert_history::span_view(s)),
{
    StyledSpan {
        add_modifier: s.add_modifier | DIM,
        sub_modifier: s.sub_modifier & !DIM,
        ..s
    }
}

/// The line of file `idx` of `n` in a patch summary.
pub fn summary_file_line_of(idx: usize, n: usize, f: &FileSummary) -> (r: StyledLine)
    ensures
        line_view(r) == (LineView {
            spans: summary_file_line(idx as int, n as nat, f.display_path@, f.added as nat, f.removed as nat),
            fg: None,
        }),
{
    let mut spans: Vec<StyledSpan> = Vec::new();
    if idx == 0 {
        spans.push(dim_span(raw_span("  └ ")));
    } else {
        spans.push(dim_span(raw_span("    ")));
    }
    spans.push(dim_span(mk_span(chars_of(f.display_path.as_str()), None, 0)));
    if n > 1 {
        spans.push(dim_span(raw_span(" (")));
        spans.push(dim_span(mk_span(signed_count('+', f.added), Some(Color::Green), 0)));
        spans.push(dim_span(raw_span(" ")));
        spans.push(dim_span(mk_span(signed_count('-', f.removed), Some(Color::Red), 0)));
        spans.push(dim_span(raw_span(")")));
    }
    proof {
        reveal_strlit("+");
        reveal_strlit("-");
        assert("+"@ =~= seq!['+']);
        assert("-"@ =~= seq!['-']);
        let prefix = if idx == 0 {
            "  └ "@
        } else {
            "    "@
        };
        let counts = if n > 1 {
            seq![
                raw(" ("@),
                span_of("+"@ + decimal(f.added as nat), Some(Color::Green), 0),
                raw(" "@),
                span_of("-"@ + decimal(f.removed as nat), Some(Color::Red), 0),
                raw(")"@),
            ]
        } else {
            Seq::empty()
        };
        let expected = (seq![raw(prefix), raw(f.display_path@)] + counts).map_values(
            |s: crate::insert_history::SpanView| dimmed(s),
        );
        assert(crate::insert_history::spans_view(spans@) =~= expected);
    }
    StyledLine { spans, fg: None }
}

/// Characters of a line number's gutter after the number.
pub const SPACES_AFTER_LINE_NUMBER: usize = 6;

/// `n` spaces.
pub open spec fn spaces(n: nat) -> Seq<char> {
    Seq::new(n, |i: int| ' ')
}

/// The pieces a text is cut into to fit rows: the first piece at most
/// `w_first` characters, the others at most `w_rest`; an empty text is one
/// empty piece.
pub open spec fn chunks_from(s: Seq<char>, w: nat) -> Seq<Seq<char>>
    decreases s.len(),
{
    if s.len() <= w || w == 0 {
        seq![s]
    } else {
        seq![s.take(w as int)] + chunks_from(s.skip(w as int), w)
    }
}

pub open spec fn wrap_chunks(s: Seq<char>, w_first: nat, w_rest: nat) -> Seq<Seq<char>> {
    if s.len() <= w_first || w_first == 0 {
        seq![s]
    } else {
        seq![s.take(w_first as int)] + chunks_from(s.skip(w_first as int), w_rest)
    }
}

pub open spec fn kind_sign(k: DiffLineKind) -> char {
    match k {
        DiffLineKind::Insert => '+',
        DiffLineKind::Delete => '-',
        DiffLineKind::Context => ' ',
    }
}

pub open spec fn kind_fg(k: DiffLineKind) -> Option<Color> {
    match k {
        DiffLineKind::Insert => Some(Color::Green),
        DiffLineKind::Delete => Some(Color::Red),
        DiffLineKind::Context => None,
    }
}

/// Columns left after `used`, at least one.
pub open spec fn cols_after(cols: nat, used: nat) -> nat {
    if cols > used + 1 {
        (cols - used) as nat
    } else {
        1
    }
}

/// The rows of a diff line numbered `ln`: the number in a dimmed gutter,
/// then the sign and the text, cut to the terminal width; continuation
/// rows are indented to the text column.
pub open spec fn diff_line_rows(ln: nat, kind: DiffLineKind, text: Seq<char>, cols: nat) -> Seq<LineView> {
    let num = decimal(ln);
    let gap: nat = if num.len() < SPACES_AFTER_LINE_NUMBER {
        (SPACES_AFTER_LINE_NUMBER - num.len()) as nat
    } else {
        0
    };
    let prefix = 4 + num.len() + gap;
    let chunks = wrap_chunks(text, cols_after(cols, prefix + 1), cols_after(cols, prefix));
    Seq::new(
        chunks.len(),
        |i: int|
            if i == 0 {
                LineView {
                    spans: seq![
                        raw("    "@),
                        span_of(num, None, DIM),
                        raw(spaces(gap)),
                        span_of(seq![kind_sign(kind)] + chunks[0], kind_fg(kind), 0),
                    ],
                    fg: kind_fg(kind),
                }
            } else {
                LineView {
                    spans: seq![
                        raw("    "@ + spaces(num.len()) + spaces(gap) + " "@),
                        span_of(chunks[i], kind_fg(kind), 0),
                    ],
                    fg: kind_fg(kind),
                }
            },
    )
}

fn push_spaces(v: &mut Vec<char>, n: usize)
    ensures
        final(v)@ == old(v)@ + spaces(n as nat),
{
    let mut k: usize = 0;
    while k < n
        invariant
            k <= n,
            v@ == old(v)@ + spaces(k as nat),
        decreases n - k,
    {
        v.push(' ');
        assert(spaces((k + 1) as nat) =~= spaces(k as nat).push(' '));
        k += 1;
    }
}

proof fn lemma_chunks_from_nonempty(s: Seq<char>, w: nat)
    ensures
        chunks_from(s, w).len() >= 1,
    decreases s.len(),
{
    if !(s.len() <= w || w == 0) {
        lemma_chunks_from_nonempty(s.skip(w as int), w);
    }
}

/// The rows of one diff line.
pub fn diff_line_rows_of(ln: usize, kind: DiffLineKind, text: &[char], cols: usize) -> (r: Vec<StyledLine>)
    ensures
        lines_view(r@) == diff_line_rows(ln as nat, kind, text@, cols as nat),
{
    let mut num: Vec<char> = Vec::new();
    push_decimal(&mut num, ln as u64);
    let nlen = num.len();
    let gap: usize = if nlen < SPACES_AFTER_LINE_NUMBER {
        SPACES_AFTER_LINE_NUMBER - nlen
    } else {
        0
    };
    assert(nlen <= 20) by {
        crate::text::lemma_decimal_len(ln as nat);
    }
    let prefix = 4 + nlen + gap;
    let w1: usize = if cols > prefix + 2 {
        cols - (prefix + 1)
    } else {
        1
    };
    let w2: usize = if cols > prefix + 1 {
        cols - prefix
    } else {
        1
    };
    let (sign, fg) = match kind {
        DiffLineKind::Insert => ('+', Some(Color::Green)),
        DiffLineKind::Delete => ('-', Some(Color::Red)),
        DiffLineKind::Context => (' ', None),
    };
    let ghost chunks = wrap_chunks(text@, w1 as nat, w2 as nat);
    let ghost expected = diff_line_rows(ln as nat, kind, text@, cols as nat);
    let n = text.len();
    let mut out: Vec<StyledLine> = Vec::new();
    // First row.
    let first_end = if n <= w1 {
        n
    } else {
        w1
    };
    let mut content: Vec<char> = Vec::new();
    content.push(sign);
    crate::text::push_chars(&mut content, &text[0..first_end]);
    let mut gap_chars: Vec<char> = Vec::new();
    push_spaces(&mut gap_chars, gap);
    let mut first: Vec<StyledSpan> = Vec::new();
    first.push(raw_span("    "));
    first.push(mk_span(num, None, DIM));
    first.push(mk_span(gap_chars, None, 0));
    first.push(mk_span(content, fg, 0));
    out.push(StyledLine { spans: first, fg });
    proof {
        reveal_strlit("    ");
        assert(chunks.len() >= 1);
        assert(chunks[0] =~= text@.subrange(0, first_end as int));
        let e0 = expected[0];
        assert(e0.fg == fg);
        assert(lines_view(out@)[0].spans =~= e0.spans);
        assert(lines_view(out@) =~= expected.take(1));
        if first_end < n {
            assert(chunks.skip(1) =~= chunks_from(text@.skip(first_end as int), w2 as nat));
        }
    }
    // Continuation rows.
    let mut hang: Vec<char> = Vec::new();
    push_str(&mut hang, "    ");
    push_spaces(&mut hang, nlen);
    push_spaces(&mut hang, gap);
    hang.push(' ');
    let mut pos = first_end;
    let mut k: usize = 1;
    proof {
        reveal_strlit(" ");
        assert(hang@ =~= "    "@ + spaces(nlen as nat) + spaces(gap as nat) + " "@);
    }
    while pos < n
        invariant
            n == text@.len(),
            pos <= n,
            w2 >= 1,
            1 <= k,
            k <= pos || n == 0,
            hang@ == "    "@ + spaces(nlen as nat) + spaces(gap as nat) + " "@,
            chunks == wrap_chunks(text@, w1 as nat, w2 as nat),
            expected == diff_line_rows(ln as nat, kind, text@, cols as nat),
            expected.len() == chunks.len(),
            pos < n ==> chunks.skip(k as int) == chunks_from(text@.skip(pos as int), w2 as nat),
            pos < n ==> k < chunks.len(),
            pos == n ==> k == chunks.len(),
            lines_view(out@) == expected.take(k as int),
            fg == kind_fg(kind),
            prefix == 4 + nlen + gap,
            w1 == cols_after(cols as nat, (prefix + 1) as nat),
            w2 == cols_after(cols as nat, prefix as nat),
            nlen == decimal(ln as nat).len(),
            gap == (if nlen < SPACES_AFTER_LINE_NUMBER {
                (SPACES_AFTER_LINE_NUMBER - nlen) as nat
            } else {
                0nat
            }),
        decreases n - pos,
    {
        let rest = n - pos;
        let end = if rest <= w2 {
            n
        } else {
            pos + w2
        };
        let mut row: Vec<StyledSpan> = Vec::new();
        let mut h: Vec<char> = Vec::new();
        crate::text::push_chars(&mut h, &hang);
        let mut c: Vec<char> = Vec::new();
        crate::text::push_chars(&mut c, &text[pos..end]);
        assert(h@ =~= hang@);
        assert(c@ =~= text@.subrange(pos as int, end as int));
        row.push(mk_span(h, None, 0));
        row.push(mk_span(c, fg, 0));
        let ghost before = lines_view(out@);
        let line = StyledLine { spans: row, fg };
        let ghost lv = line_view(line);
        out.push(line);
        proof {
            let t = text@.skip(pos as int);
            assert(chunks[k as int] == chunks.skip(k as int)[0]);
            assert(chunks_from(t, w2 as nat)[0] =~= text@.subrange(pos as int, end as int));
            let ek = expected[k as int];
            let num = decimal(ln as nat);
            assert(k as int != 0);
            assert(ek.spans == seq![
                raw("    "@ + spaces(num.len()) + spaces(gap as nat) + " "@),
                span_of(chunks[k as int], kind_fg(kind), 0),
            ]);
            assert(lv.spans.len() == 2);
            assert(lv.spans[0] == raw(hang@));
            assert(lv.spans[1] == span_of(chunks[k as int], kind_fg(kind), 0));
            assert(lv.spans =~= ek.spans);
            assert(lv == ek);
            assert(lines_view(out@) =~= before.push(ek));
            assert(expected.take(k + 1) =~= expected.take(k as int).push(ek));
            if end < n {
                assert(t.skip(w2 as int) =~= text@.skip(end as int));
                assert(chunks.skip(k + 1) =~= chunks.skip(k as int).skip(1));
                assert(chunks_from(t, w2 as nat).skip(1) =~= chunks_from(text@.skip(end as int), w2 as nat));
                lemma_chunks_from_nonempty(text@.skip(end as int), w2 as nat);
            } else {
                assert(chunks.skip(k as int).len() == 1);
            }
        }
        pos = end;
        k += 1;
    }
    proof {
        assert(expected.take(k as int) =~= expected);
    }
    out
}

/// `n + 1`, saturating at `usize::MAX`.
pub open spec fn succ(n: nat) -> nat {
    sat(n + 1)
}

/// `t` without its trailing newlines.
pub open spec fn strip_trailing_newlines(t: Seq<char>) -> Seq<char>
    decreases t.len(),
{
    if t.len() > 0 && t.last() == '\n' {
        strip_trailing_newlines(t.drop_last())
    } else {
        t
    }
}

/// The rows of the first `n` lines of `ls`, numbered from 1.
pub open spec fn numbered_rows(ls: Seq<Seq<char>>, kind: DiffLineKind, cols: nat, n: int) -> Seq<LineView>
    decreases n,
{
    if n <= 0 {
        Seq::empty()
    } else {
        numbered_rows(ls, kind, cols, n - 1) + diff_line_rows(n as nat, kind, ls[n - 1], cols)
    }
}

/// The rows of the first `n` lines of a hunk whose old and new line
/// numbers start at `old0` and `new0`: insertions are numbered in the new
/// file, deletions in the old one, context in the new one. Returns the
/// next numbers and the rows.
pub open spec fn hunk_rows(
    ls: Seq<(DiffLineKind, Seq<char>)>,
    n: int,
    old0: nat,
    new0: nat,
    cols: nat,
) -> (nat, nat, Seq<LineView>)
    decreases n,
{
    if n <= 0 {
        (old0, new0, Seq::empty())
    } else {
        let (o, nw, rows) = hunk_rows(ls, n - 1, old0, new0, cols);
        let t = strip_trailing_newlines(ls[n - 1].1);
        match ls[n - 1].0 {
            DiffLineKind::Insert => (o, succ(nw), rows + diff_line_rows(nw, DiffLineKind::Insert, t, cols)),
            DiffLineKind::Delete => (succ(o), nw, rows + diff_line_rows(o, DiffLineKind::Delete, t, cols)),
            DiffLineKind::Context => (
                succ(o),
                succ(nw),
                rows + diff_line_rows(nw, DiffLineKind::Context, t, cols),
            ),
        }
    }
}

/// The row between two hunks.
pub open spec fn hunk_separator() -> LineView {
    LineView { spans: seq![raw("    "@), span_of("⋮"@, None, DIM)], fg: None }
}

/// The row between two files.
pub open spec fn file_separator() -> LineView {
    LineView { spans: seq![raw("    "@), span_of("..."@, None, DIM)], fg: None }
}

/// The empty row after a file.
pub open spec fn blank_row() -> LineView {
    LineView { spans: seq![raw(Seq::empty())], fg: None }
}

/// The rows of the first `n` hunks, separated.
pub open spec fn hunks_rows(hs: Seq<HunkView>, n: int, cols: nat) -> Seq<LineView>
    decreases n,
{
    if n <= 0 {
        Seq::empty()
    } else {
        let h = hs[n - 1];
        hunks_rows(hs, n - 1, cols) + (if n > 1 {
            seq![hunk_separator()]
        } else {
            Seq::empty()
        }) + hunk_rows(h.lines, h.lines.len() as int, h.old_start as nat, h.new_start as nat, cols).2
    }
}

/// The detail rows of file `idx`: a separator before all but the first,
/// its lines (all lines of a new file as insertions, of a deleted file as
/// deletions, the hunks of an update), and an empty row.
pub open spec fn file_detail_rows(idx: int, c: ChangeView, original: Option<Seq<char>>, cols: nat) -> Seq<LineView> {
    let body = match c {
        ChangeView::Add(content) => numbered_rows(lines(content), DiffLineKind::Insert, cols, lines(content).len() as int),
        ChangeView::Delete => {
            let o = match original {
                Some(o) => o,
                None => Seq::empty(),
            };
            numbered_rows(lines(o), DiffLineKind::Delete, cols, lines(o).len() as int)
        },
        ChangeView::Update(diff, _) => match patch_of(diff) {
            Some(hs) => hunks_rows(hs, hs.len() as int, cols),
            None => Seq::empty(),
        },
    };
    (if idx > 0 {
        seq![file_separator()]
    } else {
        Seq::empty()
    }) + body + seq![blank_row()]
}

/// Abstract form of a changed file.
pub open spec fn changed_view(f: ChangedFile) -> (Seq<char>, ChangeView, Option<Seq<char>>) {
    (f.path@, change_view(f.change), opt_chars(f.original))
}

/// The detail rows of the first `n` files.
pub open spec fn patch_details(fs: Seq<(Seq<char>, ChangeView, Option<Seq<char>>)>, n: int, cols: nat) -> Seq<LineView>
    decreases n,
{
    if n <= 0 {
        Seq::empty()
    } else {
        patch_details(fs, n - 1, cols) + file_detail_rows(n - 1, fs[n - 1].1, fs[n - 1].2, cols)
    }
}

fn append_lines(out: &mut Vec<StyledLine>, v: Vec<StyledLine>)
    ensures
        lines_view(final(out)@) == lines_view(old(out)@) + lines_view(v@),
{
    let mut v = v;
    let ghost vv = v@;
    out.append(&mut v);
    assert(lines_view(final(out)@) =~= lines_view(old(out)@) + lines_view(vv));
}

fn push_line(out: &mut Vec<StyledLine>, l: StyledLine)
    ensures
        lines_view(final(out)@) == lines_view(old(out)@).push(line_view(l)),
{
    out.push(l);
    assert(lines_view(final(out)@) =~= lines_view(old(out)@).push(line_view(l)));
}

/// Rows of every line of `text`, numbered from 1.
fn numbered_rows_of(out: &mut Vec<StyledLine>, text: &str, kind: DiffLineKind, cols: usize)
    ensures
        lines_view(final(out)@) == lines_view(old(out)@) + numbered_rows(
            lines(text@),
            kind,
            cols as nat,
            lines(text@).len() as int,
        ),
{
    let s = chars_of(text);
    let b = line_bounds(&s);
    let ghost ls = lines(text@);
    let ghost start = lines_view(out@);
    let mut i: usize = 0;
    while i < b.len()
        invariant
            s@ == text@,
            spans_of(s@, b@) == ls,
            crate::text::bounds_within(b@, s@.len() as int),
            i <= b@.len(),
            lines_view(out@) == start + numbered_rows(ls, kind, cols as nat, i as int),
        decreases b.len() - i,
    {
        let (x, y) = b[i];
        proof {
            assert(spans_of(s@, b@)[i as int] == s@.subrange(x as int, y as int));
        }
        let rows = diff_line_rows_of(i + 1, kind, &s[x..y], cols);
        append_lines(out, rows);
        proof {
            assert(lines_view(out@) =~= start + numbered_rows(ls, kind, cols as nat, i + 1));
        }
        i += 1;
    }
}

fn strip_trailing_newlines_of(t: &str) -> (r: Vec<char>)
    ensures
        r@ == strip_trailing_newlines(t@),
{
    let s = chars_of(t);
    let mut e = s.len();
    assert(s@.take(s@.len() as int) =~= s@);
    while e > 0 && s[e - 1] == '\n'
        invariant
            e <= s@.len(),
            strip_trailing_newlines(s@.take(e as int)) == strip_trailing_newlines(s@),
        decreases e,
    {
        proof {
            assert(s@.take(e as int).drop_last() =~= s@.take(e - 1));
            assert(s@.take(e as int).last() == s@[e - 1]);
        }
        e -= 1;
    }
    proof {
        assert(s@.take(s@.len() as int) =~= s@);
        if e > 0 {
            assert(s@.take(e as int).last() == s@[e - 1]);
        }
    }
    let mut r: Vec<char> = Vec::new();
    crate::text::push_chars(&mut r, &s[0..e]);
    assert(r@ =~= s@.take(e as int));
    r
}

/// Rows of one hunk.
fn hunk_rows_of(out: &mut Vec<StyledLine>, h: &PatchHunk, cols: usize)
    ensures
        lines_view(final(out)@) == lines_view(old(out)@) + hunk_rows(
            hunk_view(*h).lines,
            hunk_view(*h).lines.len() as int,
            h.old_start as nat,
            h.new_start as nat,
            cols as nat,
        ).2,
{
    let ghost hl = hunk_view(*h).lines;
    let ghost start = lines_view(out@);
    let mut old_ln: usize = h.old_start;
    let mut new_ln: usize = h.new_start;
    let mut j: usize = 0;
    while j < h.lines.len()
        invariant
            hl == h.lines@.map_values(|l: (DiffLineKind, String)| (l.0, l.1@)),
            j <= h.lines@.len(),
            ({
                let (o, n, rows) = hunk_rows(hl, j as int, h.old_start as nat, h.new_start as nat, cols as nat);
                &&& o == old_ln
                &&& n == new_ln
                &&& lines_view(out@) == start + rows
            }),
        decreases h.lines.len() - j,
    {
        let kind = h.lines[j].0;
        let t = strip_trailing_newlines_of(h.lines[j].1.as_str());
        proof {
            assert(hl[j as int] == (h.lines@[j as int].0, h.lines@[j as int].1@));
        }
        match kind {
            DiffLineKind::Insert => {
                let rows = diff_line_rows_of(new_ln, kind, &t, cols);
                append_lines(out, rows);
                new_ln = new_ln.saturating_add(1);
            },
            DiffLineKind::Delete => {
                let rows = diff_line_rows_of(old_ln, kind, &t, cols);
                append_lines(out, rows);
                old_ln = old_ln.saturating_add(1);
            },
            DiffLineKind::Context => {
                let rows = diff_line_rows_of(new_ln, kind, &t, cols);
                append_lines(out, rows);
                old_ln = old_ln.saturating_add(1);
                new_ln = new_ln.saturating_add(1);
            },
        }
        proof {
            let (o, n, rows) = hunk_rows(hl, j + 1, h.old_start as nat, h.new_start as nat, cols as nat);
            assert(lines_view(out@) =~= start + rows);
        }
        j += 1;
    }
}

fn sep_line(mark: &str) -> (r: StyledLine)
    ensures
        line_view(r) == (LineView { spans: seq![raw("    "@), span_of(mark@, None, DIM)], fg: None }),
{
    let mut spans: Vec<StyledSpan> = Vec::new();
    spans.push(raw_span("    "));
    spans.push(mk_span(chars_of(mark), None, DIM));
    proof {
        assert(crate::insert_history::spans_view(spans@) =~= seq![raw("    "@), span_of(mark@, None, DIM)]);
    }
    StyledLine { spans, fg: None }
}

/// The detail rows of one file.
fn file_detail_rows_of(out: &mut Vec<StyledLine>, idx: usize, f: &ChangedFile, cols: usize)
    ensures
        lines_view(final(out)@) == lines_view(old(out)@) + file_detail_rows(
            idx as int,
            change_view(f.change),
            opt_chars(f.original),
            cols as nat,
        ),
{
    let ghost start = lines_view(out@);
    if idx > 0 {
        push_line(out, sep_line("..."));
    }
    let ghost after_sep = lines_view(out@);
    match &f.change {
        FileChange::Add { content } => {
            numbered_rows_of(out, content.as_str(), DiffLineKind::Insert, cols);
        },
        FileChange::Delete => {
            match &f.original {
                Some(o) => numbered_rows_of(out, o.as_str(), DiffLineKind::Delete, cols),
                None => {
                    numbered_rows_of(out, "", DiffLineKind::Delete, cols);
                    proof {
                        reveal_strlit("");
                        assert(""@ =~= Seq::<char>::empty());
                    }
                },
            }
        },
        FileChange::Update { unified_diff, .. } => {
            match patch_hunks(unified_diff.as_str()) {
                Some(hs) => {
                    let ghost hv = hs@.map_values(|h: PatchHunk| hunk_view(h));
                    let mut k: usize = 0;
                    while k < hs.len()
                        invariant
                            hv == hs@.map_values(|h: PatchHunk| hunk_view(h)),
                            k <= hs@.len(),
                            lines_view(out@) == after_sep + hunks_rows(hv, k as int, cols as nat),
                        decreases hs.len() - k,
                    {
                        if k > 0 {
                            push_line(out, sep_line("⋮"));
                        }
                        hunk_rows_of(out, &hs[k], cols);
                        proof {
                            assert(hv[k as int] == hunk_view(hs@[k as int]));
                            assert(lines_view(out@) =~= after_sep + hunks_rows(hv, k + 1, cols as nat));
                        }
                        k += 1;
                    }
                },
                None => {},
            }
        },
    }
    let mut blank: Vec<StyledSpan> = Vec::new();
    blank.push(mk_span(Vec::new(), None, 0));
    proof {
        assert(crate::insert_history::spans_view(blank@) =~= seq![raw(Seq::<char>::empty())]);
    }
    push_line(out, StyledLine { spans: blank, fg: None });
    proof {
        assert(lines_view(out@) =~= start + file_detail_rows(
            idx as int,
            change_view(f.change),
            opt_chars(f.original),
            cols as nat,
        ));
    }
}

/// What a patch event shows.
#[derive(Debug, Clone, Copy, PartialEq, Eq, Structural)]
pub enum PatchEventType {
    ApprovalRequest,
    ApplyBegin { auto_approved: bool },
}

/// The details of a patch are shown when it asks for approval or was
/// approved automatically.
pub open spec fn shows_details(e: PatchEventType) -> bool {
    match e {
        PatchEventType::ApprovalRequest => true,
        PatchEventType::ApplyBegin { auto_approved } => auto_approved,
    }
}

/// Sum of the first `n` added (or removed, `added == false`) counts,
/// saturating at `usize::MAX`.
pub open spec fn total_lines(ss: Seq<(Seq<char>, nat, nat)>, n: int, added: bool) -> nat
    decreases n,
{
    if n <= 0 {
        0
    } else {
        sat(total_lines(ss, n - 1, added) + if added {
            ss[n - 1].1
        } else {
            ss[n - 1].2
        })
    }
}

/// The summary of a patch: the header, a dimmed line per file, and the
/// details when the event shows them, wrapped to `cols` columns.
pub open spec fn diff_summary(
    title: Seq<char>,
    fs: Seq<(Seq<char>, ChangeView, Option<Seq<char>>)>,
    event: PatchEventType,
    cols: nat,
) -> Seq<LineView> {
    let ss = fs.map_values(|f: (Seq<char>, ChangeView, Option<Seq<char>>)| file_summary(f.0, f.1, f.2));
    let n = fs.len();
    seq![
        LineView {
            spans: summary_header(title, n, total_lines(ss, n as int, true), total_lines(ss, n as int, false)),
            fg: None,
        },
    ] + Seq::new(
        n,
        |i: int| LineView { spans: summary_file_line(i, n, ss[i].0, ss[i].1, ss[i].2), fg: None },
    ) + if shows_details(event) {
        patch_details(fs, n as int, cols)
    } else {
        Seq::empty()
    }
}

/// Summarize a patch for the transcript.
pub fn create_diff_summary(
    title: &str,
    changes: &Vec<ChangedFile>,
    event_type: PatchEventType,
    term_cols: usize,
) -> (r: Vec<StyledLine>)
    requires
        paths_distinct(changes@),
    ensures
        lines_view(r@) == diff_summary(
            title@,
            changes@.map_values(|f: ChangedFile| changed_view(f)),
            event_type,
            term_cols as nat,
        ),
{
    let ghost fs = changes@.map_values(|f: ChangedFile| changed_view(f));
    let ghost ss = fs.map_values(|f: (Seq<char>, ChangeView, Option<Seq<char>>)| file_summary(f.0, f.1, f.2));
    let n = changes.len();
    let mut files: Vec<FileSummary> = Vec::new();
    let mut total_added: usize = 0;
    let mut total_removed: usize = 0;
    let mut i: usize = 0;
    while i < n
        invariant
            n == changes@.len(),
            fs == changes@.map_values(|f: ChangedFile| changed_view(f)),
            ss == fs.map_values(|f: (Seq<char>, ChangeView, Option<Seq<char>>)| file_summary(f.0, f.1, f.2)),
            i <= n,
            files@.len() == i,
            forall|k: int| 0 <= k < i ==> (#[trigger] files@[k].display_path@, files@[k].added as nat, files@[k].removed as nat) == ss[k],
            total_added == total_lines(ss, i as int, true),
            total_removed == total_lines(ss, i as int, false),
        decreases n - i,
    {
        let f = summarize_file(&changes[i]);
        proof {
            assert(fs[i as int] == changed_view(changes@[i as int]));
        }
        total_added = total_added.saturating_add(f.added);
        total_removed = total_removed.saturating_add(f.removed);
        files.push(f);
        i += 1;
    }
    let mut out: Vec<StyledLine> = Vec::new();
    push_line(&mut out, summary_header_line(title, n, total_added, total_removed));
    let mut k: usize = 0;
    while k < n
        invariant
            n == changes@.len(),
            n == files@.len(),
            fs == changes@.map_values(|f: ChangedFile| changed_view(f)),
            ss == fs.map_values(|f: (Seq<char>, ChangeView, Option<Seq<char>>)| file_summary(f.0, f.1, f.2)),
            forall|j: int| 0 <= j < n ==> (#[trigger] files@[j].display_path@, files@[j].added as nat, files@[j].removed as nat) == ss[j],
            k <= n,
            lines_view(out@) == seq![
                LineView {
                    spans: summary_header(title@, n as nat, total_lines(ss, n as int, true), total_lines(ss, n as int, false)),
                    fg: None,
                },
            ] + Seq::new(
                k as nat,
                |i: int| LineView { spans: summary_file_line(i, n as nat, ss[i].0, ss[i].1, ss[i].2), fg: None },
            ),
            total_added == total_lines(ss, n as int, true),
            total_removed == total_lines(ss, n as int, false),
        decreases n - k,
    {
        let ghost before = lines_view(out@);
        push_line(&mut out, summary_file_line_of(k, n, &files[k]));
        proof {
            assert(files@[k as int].display_path@ == ss[k as int].0);
            assert(lines_view(out@) =~= seq![
                LineView {
                    spans: summary_header(title@, n as nat, total_lines(ss, n as int, true), total_lines(ss, n as int, false)),
                    fg: None,
                },
            ] + Seq::new(
                (k + 1) as nat,
                |i: int| LineView { spans: summary_file_line(i, n as nat, ss[i].0, ss[i].1, ss[i].2), fg: None },
            ));
        }
        k += 1;
    }
    let ghost head = lines_view(out@);
    let show = match event_type {
        PatchEventType::ApprovalRequest => true,
        PatchEventType::ApplyBegin { auto_approved } => auto_approved,
    };
    if show {
        let mut j: usize = 0;
        while j < n
            invariant
                n == changes@.len(),
                fs == changes@.map_values(|f: ChangedFile| changed_view(f)),
                j <= n,
                lines_view(out@) == head + patch_details(fs, j as int, term_cols as nat),
            decreases n - j,
        {
            file_detail_rows_of(&mut out, j, &changes[j], term_cols);
            proof {
                assert(fs[j as int] == changed_view(changes@[j as int]));
                assert(lines_view(out@) =~= head + patch_details(fs, j + 1, term_cols as nat));
            }
            j += 1;
        }
    }
    proof {
        if !show {
            assert(head + Seq::<LineView>::empty() =~= head);
        }
    }
    out
}

/// The sign and colour a diff line of each kind is drawn with.
pub open spec fn drawn_as(k: DiffLineKind, sign: char, fg: Option<Color>) -> bool {
    match k {
        DiffLineKind::Insert => sign == '+' && fg == Some(Color::Green),
        DiffLineKind::Delete => sign == '-' && fg == Some(Color::Red),
        DiffLineKind::Context => sign == ' ' && fg.is_none(),
    }
}

proof fn lemma_wrap_chunks_nonempty(s: Seq<char>, w1: nat, w2: nat)
    ensures
        wrap_chunks(s, w1, w2).len() >= 1,
{
    if !(s.len() <= w1 || w1 == 0) {
        lemma_chunks_from_nonempty(s.skip(w1 as int), w2);
    }
}

/// Each line of a hunk is drawn by its own rows, appended after those of
/// the lines before it: at least one row, every row in the colour of the
/// line's kind (red for a removed line, green for an added one, none for
/// context), the first row starting its text with the kind's sign ('-',
/// '+' or ' ') after the gutter holding the line's number (the old-file
/// number for a removed line, the new-file number otherwise).
pub proof fn law_hunk_lines_drawn_by_kind(
    ls: Seq<(DiffLineKind, Seq<char>)>,
    k: int,
    old0: nat,
    new0: nat,
    cols: nat,
)
    requires
        0 <= k < ls.len(),
    ensures
        ({
            let (o, nw, before) = hunk_rows(ls, k, old0, new0, cols);
            let after = hunk_rows(ls, k + 1, old0, new0, cols).2;
            let first = after[before.len() as int];
            &&& after.len() > before.len()
            &&& after.subrange(0, before.len() as int) == before
            &&& forall|i: int| before.len() <= i < after.len() ==> match ls[k].0 {
                DiffLineKind::Insert => (#[trigger] after[i]).fg == Some(Color::Green),
                DiffLineKind::Delete => after[i].fg == Some(Color::Red),
                DiffLineKind::Context => after[i].fg.is_none(),
            }
            &&& first.spans.len() == 4
            &&& first.spans[3].content.len() >= 1
            &&& drawn_as(ls[k].0, first.spans[3].content[0], first.spans[3].fg)
            &&& first.spans[1].content == decimal(
                if ls[k].0 == DiffLineKind::Delete {
                    o
                } else {
                    nw
                },
            )
        }),
{
    let (o, nw, before) = hunk_rows(ls, k, old0, new0, cols);
    let t = strip_trailing_newlines(ls[k].1);
    let ln = if ls[k].0 == DiffLineKind::Delete {
        o
    } else {
        nw
    };
    let rows = diff_line_rows(ln, ls[k].0, t, cols);
    let num = decimal(ln);
    let gap: nat = if num.len() < SPACES_AFTER_LINE_NUMBER {
        (SPACES_AFTER_LINE_NUMBER - num.len()) as nat
    } else {
        0
    };
    let prefix = 4 + num.len() + gap;
    lemma_wrap_chunks_nonempty(t, cols_after(cols, prefix + 1), cols_after(cols, prefix));
    let after = hunk_rows(ls, k + 1, old0, new0, cols).2;
    assert(after == before + rows);
    assert(after.subrange(0, before.len() as int) =~= before);
    assert(rows.len() >= 1);
    assert forall|i: int| before.len() <= i < after.len() implies match ls[k].0 {
        DiffLineKind::Insert => (#[trigger] after[i]).fg == Some(Color::Green),
        DiffLineKind::Delete => after[i].fg == Some(Color::Red),
        DiffLineKind::Context => after[i].fg.is_none(),
    } by {
        assert(after[i] == rows[i - before.len()]);
    }
    assert(after[before.len() as int] == rows[0]);
}

} // verus!
