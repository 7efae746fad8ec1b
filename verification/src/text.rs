//! Character-level helpers shared by the rest of the library.
//!
//! Text is handled as sequences of Unicode scalar values (`Seq<char>`),
//! which is how Verus views `str` and `String`.
use vstd::prelude::*;

verus! {

broadcast use vstd::string::group_string_axioms;

/// `String::push` appends one character.
pub assume_specification[ String::push ](s: &mut String, ch: char)
    ensures
        final(s)@ == old(s)@.push(ch),
;

/// Copy the characters of `s` into a vector.
pub fn chars_of(s: &str) -> (r: Vec<char>)
    ensures
        r@ == s@,
{
    let mut r: Vec<char> = Vec::new();
    for c in it: s.chars()
        invariant
            it.seq() == s@,
            r@ == it.seq().take(it.index() as int),
    {
        r.push(c);
    }
    r
}

/// Build a `String` holding exactly the characters of `v`.
pub fn string_from(v: &[char]) -> (r: String)
    ensures
        r@ == v@,
{
    let mut r = String::new();
    let mut i: usize = 0;
    while i < v.len()
        invariant
            i <= v.len(),
            r@ == v@.take(i as int),
        decreases v.len() - i,
    {
        r.push(v[i]);
        proof {
            assert(v@.take(i + 1) == v@.take(i as int).push(v@[i as int]));
        }
        i += 1;
    }
    proof {
        assert(v@.take(v@.len() as int) == v@);
    }
    r
}

/// Append the characters of `v` to `out`.
pub fn push_chars(out: &mut Vec<char>, v: &[char])
    ensures
        final(out)@ == old(out)@ + v@,
{
    let mut i: usize = 0;
    while i < v.len()
        invariant
            i <= v.len(),
            out@ == old(out)@ + v@.take(i as int),
        decreases v.len() - i,
    {
        out.push(v[i]);
        proof {
            assert(v@.take(i + 1) == v@.take(i as int).push(v@[i as int]));
        }
        i += 1;
    }
    proof {
        assert(v@.take(v@.len() as int) == v@);
    }
}

/// The Unicode `White_Space` property, which is what `char::is_whitespace`
/// tests.
pub open spec fn is_ws(c: char) -> bool {
    let u = c as u32;
    ||| 0x09 <= u <= 0x0d
    ||| u == 0x20
    ||| u == 0x85
    ||| u == 0xa0
    ||| u == 0x1680
    ||| 0x2000 <= u <= 0x200a
    ||| u == 0x2028
    ||| u == 0x2029
    ||| u == 0x202f
    ||| u == 0x205f
    ||| u == 0x3000
}

/// Executable form of [`is_ws`].
pub fn is_whitespace(c: char) -> (b: bool)
    ensures
        b == is_ws(c),
{
    let u = c as u32;
    (0x09 <= u && u <= 0x0d) || u == 0x20 || u == 0x85 || u == 0xa0 || u == 0x1680 || (0x2000
        <= u && u <= 0x200a) || u == 0x2028 || u == 0x2029 || u == 0x202f || u == 0x205f || u
        == 0x3000
}

/// Whether `s` begins with `p`.
pub open spec fn starts_with(s: Seq<char>, p: Seq<char>) -> bool {
    p.len() <= s.len() && s.take(p.len() as int) == p
}

/// Whether `s` ends with `p`.
pub open spec fn ends_with(s: Seq<char>, p: Seq<char>) -> bool {
    p.len() <= s.len() && s.skip(s.len() - p.len()) == p
}

/// Executable form of [`starts_with`] on a suffix of `s` beginning at `from`.
pub fn starts_with_at(s: &[char], from: usize, p: &[char]) -> (b: bool)
    requires
        from <= s@.len(),
    ensures
        b == starts_with(s@.skip(from as int), p@),
{
    let plen = p.len();
    let slen = s.len();
    if plen > slen - from {
        return false;
    }
    let mut i: usize = 0;
    while i < plen
        invariant
            plen == p@.len(),
            slen == s@.len(),
            from <= s@.len(),
            from + p@.len() <= s@.len(),
            i <= p@.len(),
            forall|k: int| 0 <= k < i ==> s@[from + k] == p@[k],
        decreases p.len() - i,
    {
        if s[from + i] != p[i] {
            assert(s@.skip(from as int).take(p@.len() as int)[i as int] != p@[i as int]);
            return false;
        }
        i += 1;
    }
    assert(s@.skip(from as int).take(p@.len() as int) =~= p@);
    true
}

/// Executable form of [`ends_with`].
pub fn ends_with_chars(s: &[char], p: &[char]) -> (b: bool)
    ensures
        b == ends_with(s@, p@),
{
    if p.len() > s.len() {
        return false;
    }
    let from = s.len() - p.len();
    let r = starts_with_at(s, from, p);
    proof {
        assert(s@.skip(from as int).take(p@.len() as int) =~= s@.skip(from as int));
    }
    r
}

/// Number of leading characters of `s` that are whitespace.
pub open spec fn leading_ws(s: Seq<char>) -> nat
    decreases s.len(),
{
    if s.len() > 0 && is_ws(s[0]) {
        1 + leading_ws(s.drop_first())
    } else {
        0
    }
}

/// Number of trailing characters of `s` that are whitespace.
pub open spec fn trailing_ws(s: Seq<char>) -> nat
    decreases s.len(),
{
    if s.len() > 0 && is_ws(s.last()) {
        1 + trailing_ws(s.drop_last())
    } else {
        0
    }
}

/// `str::trim_start`.
pub open spec fn trim_start(s: Seq<char>) -> Seq<char> {
    s.skip(leading_ws(s) as int)
}

/// `str::trim_end`.
pub open spec fn trim_end(s: Seq<char>) -> Seq<char> {
    s.take(s.len() - trailing_ws(s))
}

/// `str::trim`.
pub open spec fn trim(s: Seq<char>) -> Seq<char> {
    trim_end(trim_start(s))
}

/// Characterises `leading_ws` by its defining properties.
pub proof fn lemma_leading_ws_unique(s: Seq<char>, n: int)
    requires
        0 <= n <= s.len(),
        forall|k: int| 0 <= k < n ==> is_ws(#[trigger] s[k]),
        n < s.len() ==> !is_ws(s[n]),
    ensures
        leading_ws(s) == n,
    decreases s.len(),
{
    if n > 0 {
        assert(is_ws(s[0]));
        assert forall|k: int| 0 <= k < n - 1 implies is_ws(#[trigger] s.drop_first()[k]) by {
            assert(s.drop_first()[k] == s[k + 1]);
        }
        if n - 1 < s.len() - 1 {
            assert(s.drop_first()[n - 1] == s[n]);
        }
        lemma_leading_ws_unique(s.drop_first(), n - 1);
    } else if s.len() > 0 {
        assert(!is_ws(s[0]));
    }
}

/// Characterises `trailing_ws` by its defining properties.
pub proof fn lemma_trailing_ws_unique(s: Seq<char>, n: int)
    requires
        0 <= n <= s.len(),
        forall|k: int| s.len() - n <= k < s.len() ==> is_ws(#[trigger] s[k]),
        n < s.len() ==> !is_ws(s[s.len() - n - 1]),
    ensures
        trailing_ws(s) == n,
    decreases s.len(),
{
    if n > 0 {
        assert(is_ws(s[s.len() - 1]));
        assert forall|k: int| s.drop_last().len() - (n - 1) <= k < s.drop_last().len() implies is_ws(
            #[trigger] s.drop_last()[k],
        ) by {
            assert(s.drop_last()[k] == s[k]);
        }
        if n - 1 < s.len() - 1 {
            assert(s.drop_last()[s.drop_last().len() - (n - 1) - 1] == s[s.len() - n - 1]);
        }
        lemma_trailing_ws_unique(s.drop_last(), n - 1);
    } else if s.len() > 0 {
        assert(!is_ws(s.last()));
    }
}

/// Index of the first non-whitespace character of `s[from..to]`, or `to`.
pub fn skip_ws_forward(s: &[char], from: usize, to: usize) -> (r: usize)
    requires
        from <= to <= s@.len(),
    ensures
        from <= r <= to,
        r - from == leading_ws(s@.subrange(from as int, to as int)),
{
    let mut i = from;
    while i < to && is_whitespace(s[i])
        invariant
            from <= i <= to <= s@.len(),
            forall|k: int| from <= k < i ==> is_ws(#[trigger] s@[k]),
        decreases to - i,
    {
        i += 1;
    }
    proof {
        let sub = s@.subrange(from as int, to as int);
        assert forall|k: int| 0 <= k < i - from implies is_ws(#[trigger] sub[k]) by {
            assert(sub[k] == s@[from + k]);
        }
        if i < to {
            assert(sub[i - from] == s@[i as int]);
        }
        lemma_leading_ws_unique(sub, i - from);
    }
    i
}

/// Index one past the last non-whitespace character of `s[from..to]`, or
/// `from`.
pub fn skip_ws_backward(s: &[char], from: usize, to: usize) -> (r: usize)
    requires
        from <= to <= s@.len(),
    ensures
        from <= r <= to,
        to - r == trailing_ws(s@.subrange(from as int, to as int)),
{
    let mut i = to;
    while i > from && is_whitespace(s[i - 1])
        invariant
            from <= i <= to <= s@.len(),
            forall|k: int| i <= k < to ==> is_ws(#[trigger] s@[k]),
        decreases i - from,
    {
        i -= 1;
    }
    proof {
        let sub = s@.subrange(from as int, to as int);
        assert forall|k: int| sub.len() - (to - i) <= k < sub.len() implies is_ws(
            #[trigger] sub[k],
        ) by {
            assert(sub[k] == s@[from + k]);
        }
        if i > from {
            assert(sub[sub.len() - (to - i) - 1] == s@[i - 1]);
        }
        lemma_trailing_ws_unique(sub, to - i);
    }
    i
}

/// `trim` of `s[from..to]` as a pair of bounds.
pub fn trim_bounds(s: &[char], from: usize, to: usize) -> (r: (usize, usize))
    requires
        from <= to <= s@.len(),
    ensures
        from <= r.0 <= r.1 <= to,
        s@.subrange(r.0 as int, r.1 as int) == trim(s@.subrange(from as int, to as int)),
{
    let a = skip_ws_forward(s, from, to);
    let b = skip_ws_backward(s, a, to);
    proof {
        let sub = s@.subrange(from as int, to as int);
        assert(trim_start(sub) =~= s@.subrange(a as int, to as int));
        assert(trim(sub) =~= s@.subrange(a as int, b as int));
    }
    (a, b)
}

/// Whether `s` holds the character `c`.
pub fn contains_char(s: &[char], c: char) -> (b: bool)
    ensures
        b == s@.contains(c),
{
    let mut i: usize = 0;
    while i < s.len()
        invariant
            i <= s@.len(),
            forall|k: int| 0 <= k < i ==> s@[k] != c,
        decreases s.len() - i,
    {
        if s[i] == c {
            assert(s@[i as int] == c);
            return true;
        }
        i += 1;
    }
    false
}

/// Length of the first line of `s`, its `'\n'` included (all of `s` when
/// it holds no newline).
pub open spec fn line_len(s: Seq<char>) -> nat
    decreases s.len(),
{
    if s.len() == 0 {
        0
    } else if s[0] == '\n' {
        1
    } else {
        1 + line_len(s.drop_first())
    }
}

pub proof fn lemma_line_len(s: Seq<char>)
    ensures
        line_len(s) <= s.len(),
        s.len() > 0 ==> line_len(s) >= 1,
        forall|k: int| 0 <= k < line_len(s) - 1 ==> #[trigger] s[k] != '\n',
        line_len(s) > 0 && line_len(s) < s.len() ==> s[line_len(s) - 1] == '\n',
        line_len(s) == s.len() && s.len() > 0 && s.last() != '\n' ==> !s.contains('\n'),
    decreases s.len(),
{
    if s.len() > 0 && s[0] != '\n' {
        lemma_line_len(s.drop_first());
        assert forall|k: int| 0 <= k < line_len(s) - 1 implies #[trigger] s[k] != '\n' by {
            if k > 0 {
                assert(s[k] == s.drop_first()[k - 1]);
            }
        }
        if line_len(s) > 0 && line_len(s) < s.len() {
            assert(s[line_len(s) - 1] == s.drop_first()[line_len(s) - 2]);
        }
        if line_len(s) == s.len() && s.last() != '\n' {
            if s.len() > 1 {
                assert(s.drop_first().last() == s.last());
            }
            assert forall|k: int| 0 <= k < s.len() implies s[k] != '\n' by {
                if k > 0 {
                    assert(s[k] == s.drop_first()[k - 1]);
                    assert(!s.drop_first().contains('\n') || s.drop_first().len() == 0);
                }
            }
        }
    }
}

/// Characterises `line_len` by its defining properties.
pub proof fn lemma_line_len_unique(s: Seq<char>, n: int)
    requires
        0 <= n <= s.len(),
        s.len() > 0 ==> n >= 1,
        forall|k: int| 0 <= k < n - 1 ==> #[trigger] s[k] != '\n',
        n < s.len() ==> s[n - 1] == '\n',
    ensures
        line_len(s) == n,
    decreases s.len(),
{
    if s.len() > 0 {
        if n == 1 {
            if s[0] != '\n' {
                assert(s.len() == 1);
                assert(line_len(s.drop_first()) == 0);
            }
        } else {
            assert(s[0] != '\n');
            assert forall|k: int| 0 <= k < n - 2 implies #[trigger] s.drop_first()[k] != '\n' by {
                assert(s.drop_first()[k] == s[k + 1]);
            }
            if n - 1 < s.len() - 1 {
                assert(s.drop_first()[n - 2] == s[n - 1]);
            }
            lemma_line_len_unique(s.drop_first(), n - 1);
        }
    }
}

/// The pieces of `str::split_inclusive('\n')`: every piece but possibly
/// the last ends with its newline, and together they make up `s`.
pub open spec fn split_inclusive_nl(s: Seq<char>) -> Seq<Seq<char>>
    decreases s.len(),
{
    if s.len() == 0 {
        Seq::empty()
    } else {
        proof {
            lemma_line_len(s);
        }
        seq![s.take(line_len(s) as int)] + split_inclusive_nl(s.skip(line_len(s) as int))
    }
}

/// A piece of `split_inclusive_nl` with its line ending (`"\n"` or
/// `"\r\n"`) removed.
pub open spec fn strip_eol(p: Seq<char>) -> Seq<char> {
    if p.len() > 0 && p.last() == '\n' {
        let q = p.drop_last();
        if q.len() > 0 && q.last() == '\r' {
            q.drop_last()
        } else {
            q
        }
    } else {
        p
    }
}

/// `str::lines`.
pub open spec fn lines(s: Seq<char>) -> Seq<Seq<char>> {
    split_inclusive_nl(s).map_values(|p: Seq<char>| strip_eol(p))
}

/// Every pair of bounds is ordered and lies within `len`.
pub open spec fn bounds_within(r: Seq<(usize, usize)>, len: int) -> bool {
    forall|i: int| 0 <= i < r.len() ==> (#[trigger] r[i]).0 <= r[i].1 <= len
}

/// The sub-sequences of `s` named by a list of bounds.
pub open spec fn spans_of(s: Seq<char>, r: Seq<(usize, usize)>) -> Seq<Seq<char>> {
    r.map_values(|b: (usize, usize)| s.subrange(b.0 as int, b.1 as int))
}

/// End (exclusive) of the line of `s` that starts at `from`, its newline
/// included.
pub fn line_end(s: &[char], from: usize) -> (r: usize)
    requires
        from <= s@.len(),
    ensures
        from <= r <= s@.len(),
        r - from == line_len(s@.skip(from as int)),
{
    let n = s.len();
    let mut i = from;
    while i < n && s[i] != '\n'
        invariant
            n == s@.len(),
            from <= i <= n,
            forall|k: int| from <= k < i ==> s@[k] != '\n',
        decreases n - i,
    {
        i += 1;
    }
    let r = if i < n {
        i + 1
    } else {
        i
    };
    proof {
        let t = s@.skip(from as int);
        assert forall|k: int| 0 <= k < r - from - 1 implies #[trigger] t[k] != '\n' by {
            assert(t[k] == s@[from + k]);
        }
        if r - from < t.len() {
            assert(t[r - from - 1] == s@[r - 1]);
        }
        lemma_line_len_unique(t, r - from);
    }
    r
}

/// Bounds of the pieces of `split_inclusive_nl(s)`.
pub fn split_inclusive_bounds(s: &[char]) -> (r: Vec<(usize, usize)>)
    ensures
        spans_of(s@, r@) == split_inclusive_nl(s@),
        bounds_within(r@, s@.len() as int),
{
    let n = s.len();
    let mut r: Vec<(usize, usize)> = Vec::new();
    let mut pos: usize = 0;
    proof {
        assert(s@.skip(0) =~= s@);
    }
    while pos < n
        invariant
            n == s@.len(),
            pos <= n,
            bounds_within(r@, s@.len() as int),
            spans_of(s@, r@) + split_inclusive_nl(s@.skip(pos as int)) == split_inclusive_nl(s@),
        decreases n - pos,
    {
        let end = line_end(s, pos);
        proof {
            let t = s@.skip(pos as int);
            lemma_line_len(t);
            assert(t.skip(line_len(t) as int) =~= s@.skip(end as int));
            assert(t.take(line_len(t) as int) =~= s@.subrange(pos as int, end as int));
            assert(spans_of(s@, r@.push((pos, end))) =~= spans_of(s@, r@).push(
                s@.subrange(pos as int, end as int),
            ));
            assert(split_inclusive_nl(t) == seq![s@.subrange(pos as int, end as int)]
                + split_inclusive_nl(s@.skip(end as int)));
            assert(spans_of(s@, r@.push((pos, end))) + split_inclusive_nl(s@.skip(end as int))
                =~= spans_of(s@, r@) + split_inclusive_nl(t));
        }
        r.push((pos, end));
        pos = end;
    }
    proof {
        assert(split_inclusive_nl(s@.skip(pos as int)) =~= Seq::<Seq<char>>::empty());
        assert(spans_of(s@, r@) + Seq::<Seq<char>>::empty() =~= spans_of(s@, r@));
    }
    r
}

/// Bounds of `str::lines(s)`.
pub fn line_bounds(s: &[char]) -> (r: Vec<(usize, usize)>)
    ensures
        spans_of(s@, r@) == lines(s@),
        bounds_within(r@, s@.len() as int),
{
    let pieces = split_inclusive_bounds(s);
    let mut r: Vec<(usize, usize)> = Vec::new();
    let mut i: usize = 0;
    while i < pieces.len()
        invariant
            spans_of(s@, pieces@) == split_inclusive_nl(s@),
            bounds_within(pieces@, s@.len() as int),
            i <= pieces@.len(),
            r@.len() == i,
            bounds_within(r@, s@.len() as int),
            forall|j: int|
                0 <= j < i ==> s@.subrange(#[trigger] r@[j].0 as int, r@[j].1 as int) == strip_eol(
                    s@.subrange(pieces@[j].0 as int, pieces@[j].1 as int),
                ),
        decreases pieces.len() - i,
    {
        let (a, b) = pieces[i];
        let mut e = b;
        if e > a && s[e - 1] == '\n' {
            e -= 1;
            if e > a && s[e - 1] == '\r' {
                e -= 1;
            }
        }
        proof {
            let p = s@.subrange(a as int, b as int);
            if b > a && s@[b - 1] == '\n' {
                assert(p.last() == s@[b - 1]);
                assert(p.drop_last() =~= s@.subrange(a as int, b - 1));
                if b - 1 > a && s@[b - 2] == '\r' {
                    assert(p.drop_last().last() == s@[b - 2]);
                    assert(p.drop_last().drop_last() =~= s@.subrange(a as int, b - 2));
                } else if b - 1 > a {
                    assert(p.drop_last().last() == s@[b - 2]);
                }
            } else if b > a {
                assert(p.last() == s@[b - 1]);
            }
            assert(s@.subrange(a as int, e as int) == strip_eol(p));
        }
        r.push((a, e));
        i += 1;
    }
    proof {
        assert(spans_of(s@, r@) =~= lines(s@)) by {
            assert forall|j: int| 0 <= j < r@.len() implies spans_of(s@, r@)[j] == lines(s@)[j] by {
                assert(spans_of(s@, pieces@)[j] == split_inclusive_nl(s@)[j]);
            }
        }
    }
    r
}

/// Decimal digits of a natural number, most significant first.
pub open spec fn decimal(n: nat) -> Seq<char>
    decreases n,
{
    if n < 10 {
        seq![digit_char((n % 10) as nat)]
    } else {
        decimal(n / 10).push(digit_char((n % 10) as nat))
    }
}

pub open spec fn digit_char(d: nat) -> char {
    ((d + 48) as u32) as char
}

/// `10^k`.
pub open spec fn pow10(k: nat) -> nat
    decreases k,
{
    if k == 0 {
        1
    } else {
        10 * pow10((k - 1) as nat)
    }
}

/// A number below `10^k` has at most `k` digits.
pub proof fn lemma_decimal_len_le(n: nat, k: nat)
    requires
        1 <= k,
        n < pow10(k),
    ensures
        decimal(n).len() <= k,
    decreases k,
{
    if n >= 10 {
        if k == 1 {
            assert(pow10(1) == 10 * pow10(0));
        }
        let k1 = (k - 1) as nat;
        assert(pow10(k) == 10 * pow10(k1));
        let p = pow10(k1);
        assert(n / 10 < p) by (nonlinear_arith)
            requires
                n < 10 * p,
        ;
        lemma_decimal_len_le(n / 10, k1);
    }
}

/// A 64-bit number has at most 20 digits.
pub proof fn lemma_decimal_len(n: nat)
    requires
        n <= u64::MAX,
    ensures
        decimal(n).len() <= 20,
{
    assert(pow10(20) == 100000000000000000000) by {
        reveal_with_fuel(pow10, 21);
    }
    lemma_decimal_len_le(n, 20);
}

/// Append the decimal representation of `n` to `out`.
pub fn push_decimal(out: &mut Vec<char>, n: u64)
    ensures
        final(out)@ == old(out)@ + decimal(n as nat),
    decreases n,
{
    if n >= 10 {
        push_decimal(out, n / 10);
    }
    let d = n % 10;
    let c = if d == 0 {
        '0'
    } else if d == 1 {
        '1'
    } else if d == 2 {
        '2'
    } else if d == 3 {
        '3'
    } else if d == 4 {
        '4'
    } else if d == 5 {
        '5'
    } else if d == 6 {
        '6'
    } else if d == 7 {
        '7'
    } else if d == 8 {
        '8'
    } else {
        '9'
    };
    assert(c == digit_char((n % 10) as nat));
    out.push(c);
    proof {
        if n < 10 {
            assert(decimal(n as nat) == seq![digit_char((n % 10) as nat)]);
        }
    }
}

} // verus!

verus! {

/// `char::to_ascii_lowercase`.
pub open spec fn ascii_lower_char(c: char) -> char {
    if 'A' <= c <= 'Z' {
        ((c as u32) + 32) as char
    } else {
        c
    }
}

/// `str::to_ascii_lowercase`.
pub open spec fn ascii_lower(s: Seq<char>) -> Seq<char> {
    s.map_values(|c: char| ascii_lower_char(c))
}

pub fn to_ascii_lower_char(c: char) -> (r: char)
    ensures
        r == ascii_lower_char(c),
{
    if 'A' <= c && c <= 'Z' {
        let u = (c as u32) + 32;
        // Every value in 'a'..='z' is a valid scalar value.
        let r = if u == 97 { 'a' } else if u == 98 { 'b' } else if u == 99 { 'c' } else if u == 100 {
            'd'
        } else if u == 101 { 'e' } else if u == 102 { 'f' } else if u == 103 { 'g' } else if u
            == 104 { 'h' } else if u == 105 { 'i' } else if u == 106 { 'j' } else if u == 107 {
            'k'
        } else if u == 108 { 'l' } else if u == 109 { 'm' } else if u == 110 { 'n' } else if u
            == 111 { 'o' } else if u == 112 { 'p' } else if u == 113 { 'q' } else if u == 114 {
            'r'
        } else if u == 115 { 's' } else if u == 116 { 't' } else if u == 117 { 'u' } else if u
            == 118 { 'v' } else if u == 119 { 'w' } else if u == 120 { 'x' } else if u == 121 {
            'y'
        } else {
            'z'
        };
        r
    } else {
        c
    }
}

pub fn to_ascii_lower(s: &[char]) -> (r: Vec<char>)
    ensures
        r@ == ascii_lower(s@),
{
    let mut r: Vec<char> = Vec::new();
    let mut i: usize = 0;
    let n = s.len();
    while i < n
        invariant
            n == s@.len(),
            i <= n,
            r@ == ascii_lower(s@.take(i as int)),
        decreases n - i,
    {
        r.push(to_ascii_lower_char(s[i]));
        proof {
            assert(ascii_lower(s@.take(i + 1)) =~= ascii_lower(s@.take(i as int)).push(
                ascii_lower_char(s@[i as int]),
            ));
        }
        i += 1;
    }
    proof {
        assert(s@.take(n as int) =~= s@);
    }
    r
}

/// Number of leading characters of `s` that are not whitespace.
pub open spec fn leading_non_ws(s: Seq<char>) -> nat
    decreases s.len(),
{
    if s.len() > 0 && !is_ws(s[0]) {
        1 + leading_non_ws(s.drop_first())
    } else {
        0
    }
}

/// The first whitespace-delimited token of `s` when `s` does not start with
/// whitespace (what `split_whitespace().next()` yields after `trim_start`).
pub open spec fn first_token(s: Seq<char>) -> Seq<char> {
    s.take(leading_non_ws(s) as int)
}

pub proof fn lemma_leading_non_ws_unique(s: Seq<char>, n: int)
    requires
        0 <= n <= s.len(),
        forall|k: int| 0 <= k < n ==> !is_ws(#[trigger] s[k]),
        n < s.len() ==> is_ws(s[n]),
    ensures
        leading_non_ws(s) == n,
    decreases s.len(),
{
    if n > 0 {
        assert(!is_ws(s[0]));
        assert forall|k: int| 0 <= k < n - 1 implies !is_ws(#[trigger] s.drop_first()[k]) by {
            assert(s.drop_first()[k] == s[k + 1]);
        }
        if n - 1 < s.len() - 1 {
            assert(s.drop_first()[n - 1] == s[n]);
        }
        lemma_leading_non_ws_unique(s.drop_first(), n - 1);
    } else if s.len() > 0 {
        assert(is_ws(s[0]));
    }
}

/// Index of the first whitespace character of `s[from..to]`, or `to`.
pub fn skip_non_ws_forward(s: &[char], from: usize, to: usize) -> (r: usize)
    requires
        from <= to <= s@.len(),
    ensures
        from <= r <= to,
        r - from == leading_non_ws(s@.subrange(from as int, to as int)),
{
    let mut i = from;
    while i < to && !is_whitespace(s[i])
        invariant
            from <= i <= to <= s@.len(),
            forall|k: int| from <= k < i ==> !is_ws(#[trigger] s@[k]),
        decreases to - i,
    {
        i += 1;
    }
    proof {
        let sub = s@.subrange(from as int, to as int);
        assert forall|k: int| 0 <= k < i - from implies !is_ws(#[trigger] sub[k]) by {
            assert(sub[k] == s@[from + k]);
        }
        if i < to {
            assert(sub[i - from] == s@[i as int]);
        }
        lemma_leading_non_ws_unique(sub, i - from);
    }
    i
}

/// The first line of `s` (empty when `s` is empty).
pub open spec fn first_line(s: Seq<char>) -> Seq<char> {
    if lines(s).len() > 0 {
        lines(s)[0]
    } else {
        Seq::empty()
    }
}

/// Bounds of the first line of `s`.
pub fn first_line_bounds(s: &[char]) -> (r: (usize, usize))
    ensures
        r.0 <= r.1 <= s@.len(),
        s@.subrange(r.0 as int, r.1 as int) == first_line(s@),
{
    let b = line_bounds(s);
    if b.len() > 0 {
        assert(spans_of(s@, b@)[0] == lines(s@)[0]);
        b[0]
    } else {
        assert(s@.subrange(0, 0) =~= Seq::<char>::empty());
        (0, 0)
    }
}

} // verus!

verus! {

/// Whether two character sequences are equal.
pub fn chars_eq(a: &[char], b: &[char]) -> (r: bool)
    ensures
        r == (a@ == b@),
{
    let n = a.len();
    if n != b.len() {
        return false;
    }
    let mut i: usize = 0;
    while i < n
        invariant
            n == a@.len(),
            n == b@.len(),
            i <= n,
            forall|k: int| 0 <= k < i ==> a@[k] == b@[k],
        decreases n - i,
    {
        if a[i] != b[i] {
            return false;
        }
        i += 1;
    }
    assert(a@ =~= b@);
    true
}

/// Whether two strings hold the same characters.
pub fn str_eq(a: &str, b: &str) -> (r: bool)
    ensures
        r == (a@ == b@),
{
    let x = chars_of(a);
    let y = chars_of(b);
    chars_eq(&x, &y)
}

} // verus!

verus! {

/// Number of trailing characters of `s` that are not whitespace.
pub open spec fn trailing_non_ws(s: Seq<char>) -> nat
    decreases s.len(),
{
    if s.len() > 0 && !is_ws(s.last()) {
        1 + trailing_non_ws(s.drop_last())
    } else {
        0
    }
}

pub proof fn lemma_trailing_non_ws_unique(s: Seq<char>, n: int)
    requires
        0 <= n <= s.len(),
        forall|k: int| s.len() - n <= k < s.len() ==> !is_ws(#[trigger] s[k]),
        n < s.len() ==> is_ws(s[s.len() - n - 1]),
    ensures
        trailing_non_ws(s) == n,
    decreases s.len(),
{
    if n > 0 {
        assert(!is_ws(s[s.len() - 1]));
        assert forall|k: int| s.drop_last().len() - (n - 1) <= k < s.drop_last().len() implies !is_ws(
            #[trigger] s.drop_last()[k],
        ) by {
            assert(s.drop_last()[k] == s[k]);
        }
        if n - 1 < s.len() - 1 {
            assert(s.drop_last()[s.drop_last().len() - (n - 1) - 1] == s[s.len() - n - 1]);
        }
        lemma_trailing_non_ws_unique(s.drop_last(), n - 1);
    } else if s.len() > 0 {
        assert(is_ws(s.last()));
    }
}

/// Start of the run of non-whitespace characters that ends at `to`, not
/// going below `from`.
pub fn skip_non_ws_backward(s: &[char], from: usize, to: usize) -> (r: usize)
    requires
        from <= to <= s@.len(),
    ensures
        from <= r <= to,
        to - r == trailing_non_ws(s@.subrange(from as int, to as int)),
{
    let mut i = to;
    while i > from && !is_whitespace(s[i - 1])
        invariant
            from <= i <= to <= s@.len(),
            forall|k: int| i <= k < to ==> !is_ws(#[trigger] s@[k]),
        decreases i - from,
    {
        i -= 1;
    }
    proof {
        let sub = s@.subrange(from as int, to as int);
        assert forall|k: int| sub.len() - (to - i) <= k < sub.len() implies !is_ws(
            #[trigger] sub[k],
        ) by {
            assert(sub[k] == s@[from + k]);
        }
        if i > from {
            assert(sub[sub.len() - (to - i) - 1] == s@[i - 1]);
        }
        lemma_trailing_non_ws_unique(sub, to - i);
    }
    i
}

/// Width in bytes of a character's UTF-8 encoding (`char::len_utf8`).
pub open spec fn char_width(c: char) -> nat {
    let u = c as u32;
    if u <= 0x7f {
        1
    } else if u <= 0x7ff {
        2
    } else if u <= 0xffff {
        3
    } else {
        4
    }
}

/// Length in bytes of the UTF-8 encoding of `s` (`str::len`).
pub open spec fn byte_len(s: Seq<char>) -> nat {
    vstd::utf8::encode_utf8(s).len()
}

pub fn utf8_width(c: char) -> (w: usize)
    ensures
        w == char_width(c),
{
    let u = c as u32;
    if u <= 0x7f {
        1
    } else if u <= 0x7ff {
        2
    } else if u <= 0xffff {
        3
    } else {
        4
    }
}

pub proof fn lemma_encode_scalar_len(c: char)
    ensures
        vstd::utf8::encode_scalar(c as u32).len() == char_width(c),
{
}

pub proof fn lemma_encode_append(a: Seq<char>, b: Seq<char>)
    ensures
        vstd::utf8::encode_utf8(a + b) == vstd::utf8::encode_utf8(a) + vstd::utf8::encode_utf8(b),
    decreases a.len(),
{
    if a.len() > 0 {
        assert((a + b).drop_first() =~= a.drop_first() + b);
        assert((a + b)[0] == a[0]);
        lemma_encode_append(a.drop_first(), b);
        assert(vstd::utf8::encode_utf8(a + b) =~= vstd::utf8::encode_utf8(a) + vstd::utf8::encode_utf8(
            b,
        ));
    } else {
        assert(a + b =~= b);
        assert(vstd::utf8::encode_utf8(a) =~= Seq::<u8>::empty());
        assert(vstd::utf8::encode_utf8(a) + vstd::utf8::encode_utf8(b) =~= vstd::utf8::encode_utf8(b));
    }
}

pub proof fn lemma_byte_len_append(a: Seq<char>, b: Seq<char>)
    ensures
        byte_len(a + b) == byte_len(a) + byte_len(b),
{
    lemma_encode_append(a, b);
}

pub proof fn lemma_byte_len_push(a: Seq<char>, c: char)
    ensures
        byte_len(a.push(c)) == byte_len(a) + char_width(c),
{
    assert(a.push(c) =~= a + seq![c]);
    lemma_byte_len_append(a, seq![c]);
    lemma_encode_scalar_len(c);
    assert(seq![c].drop_first() =~= Seq::<char>::empty());
    assert(vstd::utf8::encode_utf8(Seq::<char>::empty()) =~= Seq::<u8>::empty());
    assert(vstd::utf8::encode_utf8(seq![c]) =~= vstd::utf8::encode_scalar(c as u32));
}

pub proof fn lemma_byte_len_take_mono(s: Seq<char>, i: int, j: int)
    requires
        0 <= i <= j <= s.len(),
    ensures
        byte_len(s.take(i)) <= byte_len(s.take(j)),
        byte_len(s.take(j)) <= byte_len(s),
{
    assert(s.take(j) =~= s.take(i) + s.subrange(i, j));
    lemma_byte_len_append(s.take(i), s.subrange(i, j));
    assert(s =~= s.take(j) + s.skip(j));
    lemma_byte_len_append(s.take(j), s.skip(j));
}

/// Number of characters of `s` that end at or before byte offset `b`: the
/// character index of the last char boundary at or before `b`.
pub open spec fn chars_within(s: Seq<char>, b: int) -> nat
    decreases s.len(),
{
    if s.len() == 0 || char_width(s[0]) > b {
        0
    } else {
        1 + chars_within(s.drop_first(), b - char_width(s[0]))
    }
}

pub proof fn lemma_chars_within(s: Seq<char>, b: int, k: int)
    requires
        0 <= k <= s.len(),
        byte_len(s.take(k)) <= b,
        k == s.len() || byte_len(s.take(k + 1)) > b,
    ensures
        chars_within(s, b) == k,
    decreases s.len(),
{
    if k > 0 {
        let c = s[0];
        assert(s.take(k) =~= seq![c] + s.drop_first().take(k - 1));
        lemma_byte_len_append(seq![c], s.drop_first().take(k - 1));
        lemma_byte_len_push(Seq::<char>::empty(), c);
        assert(Seq::<char>::empty().push(c) =~= seq![c]);
        assert(byte_len(Seq::<char>::empty()) == 0) by {
            assert(vstd::utf8::encode_utf8(Seq::<char>::empty()) =~= Seq::<u8>::empty());
        }
        if k < s.len() {
            assert(s.take(k + 1) =~= seq![c] + s.drop_first().take(k));
            lemma_byte_len_append(seq![c], s.drop_first().take(k));
        }
        lemma_chars_within(s.drop_first(), b - char_width(c), k - 1);
    } else if s.len() > 0 {
        assert(s.take(1) =~= Seq::<char>::empty().push(s[0]));
        lemma_byte_len_push(Seq::<char>::empty(), s[0]);
        assert(byte_len(Seq::<char>::empty()) == 0) by {
            assert(vstd::utf8::encode_utf8(Seq::<char>::empty()) =~= Seq::<u8>::empty());
        }
    }
}

/// Character index of the last char boundary at or before byte offset `b`.
pub fn char_index_at_or_before(s: &[char], b: usize) -> (k: usize)
    ensures
        k == chars_within(s@, b as int),
        k <= s@.len(),
        byte_len(s@.take(k as int)) <= b,
{
    let n = s.len();
    let mut k: usize = 0;
    let mut bytes: usize = 0;
    proof {
        assert(s@.take(0) =~= Seq::<char>::empty());
        assert(vstd::utf8::encode_utf8(Seq::<char>::empty()) =~= Seq::<u8>::empty());
    }
    while k < n
        invariant
            n == s@.len(),
            k <= n,
            bytes == byte_len(s@.take(k as int)),
            bytes <= b,
        ensures
            k == n || byte_len(s@.take(k + 1)) > b,
        decreases n - k,
    {
        let w = utf8_width(s[k]);
        proof {
            assert(s@.take(k + 1) =~= s@.take(k as int).push(s@[k as int]));
            lemma_byte_len_push(s@.take(k as int), s@[k as int]);
        }
        if w > b - bytes {
            break;
        }
        bytes = bytes + w;
        k += 1;
    }
    proof {
        lemma_chars_within(s@, b as int, k as int);
    }
    k
}

/// Byte offset of character index `k` in `s`.
pub fn byte_offset_of(s: &[char], k: usize) -> (b: usize)
    requires
        k <= s@.len(),
        byte_len(s@) <= usize::MAX,
    ensures
        b == byte_len(s@.take(k as int)),
{
    let mut i: usize = 0;
    let mut bytes: usize = 0;
    proof {
        assert(s@.take(0) =~= Seq::<char>::empty());
        assert(vstd::utf8::encode_utf8(Seq::<char>::empty()) =~= Seq::<u8>::empty());
    }
    while i < k
        invariant
            k <= s@.len(),
            byte_len(s@) <= usize::MAX,
            i <= k,
            bytes == byte_len(s@.take(i as int)),
        decreases k - i,
    {
        proof {
            assert(s@.take(i + 1) =~= s@.take(i as int).push(s@[i as int]));
            lemma_byte_len_push(s@.take(i as int), s@[i as int]);
            lemma_byte_len_take_mono(s@, i + 1, i + 1);
        }
        bytes = bytes + utf8_width(s[i]);
        i += 1;
    }
    bytes
}

} // verus!

verus! {

/// `str::replace(pat, rep)` for a non-empty pattern: occurrences are
/// replaced from left to right without overlapping.
pub open spec fn replace_all(s: Seq<char>, pat: Seq<char>, rep: Seq<char>) -> Seq<char>
    decreases s.len(),
{
    if pat.len() == 0 || s.len() < pat.len() {
        s
    } else if starts_with(s, pat) {
        rep + replace_all(s.skip(pat.len() as int), pat, rep)
    } else {
        seq![s[0]] + replace_all(s.drop_first(), pat, rep)
    }
}

/// `str::matches(pat).count()` for a non-empty pattern: the number of
/// non-overlapping occurrences found from left to right.
pub open spec fn count_matches(s: Seq<char>, pat: Seq<char>) -> nat
    decreases s.len(),
{
    if pat.len() == 0 || s.len() < pat.len() {
        0
    } else if starts_with(s, pat) {
        1 + count_matches(s.skip(pat.len() as int), pat)
    } else {
        count_matches(s.drop_first(), pat)
    }
}

/// Whether `pat` occurs in `s`.
pub open spec fn contains_seq(s: Seq<char>, pat: Seq<char>) -> bool {
    exists|i: int| 0 <= i <= s.len() - pat.len() && #[trigger] s.subrange(i, i + pat.len()) == pat
}

/// Replace every non-overlapping occurrence of a non-empty `pat` in `s`.
pub fn replace_all_chars(s: &[char], pat: &[char], rep: &[char]) -> (r: Vec<char>)
    requires
        pat@.len() > 0,
    ensures
        r@ == replace_all(s@, pat@, rep@),
{
    let n = s.len();
    let m = pat.len();
    let mut out: Vec<char> = Vec::new();
    let mut i: usize = 0;
    proof {
        assert(s@.skip(0) =~= s@);
        assert(out@ + replace_all(s@, pat@, rep@) =~= replace_all(s@, pat@, rep@));
    }
    while i < n
        invariant
            n == s@.len(),
            m == pat@.len(),
            m > 0,
            i <= n,
            out@ + replace_all(s@.skip(i as int), pat@, rep@) == replace_all(s@, pat@, rep@),
        ensures
            i == n || n - i < m,
        decreases n - i,
    {
        let t = Ghost(s@.skip(i as int));
        if n - i < m {
            break;
        }
        if starts_with_at(s, i, pat) {
            let ghost before = out@;
            push_chars(&mut out, rep);
            proof {
                assert(t@.skip(m as int) =~= s@.skip(i + m));
                assert(replace_all(t@, pat@, rep@) == rep@ + replace_all(s@.skip(i + m), pat@, rep@));
                assert(out@ + replace_all(s@.skip(i + m), pat@, rep@) =~= before + replace_all(t@, pat@, rep@));
            }
            i = i + m;
        } else {
            let ghost before = out@;
            out.push(s[i]);
            proof {
                assert(t@.drop_first() =~= s@.skip(i + 1));
                assert(t@[0] == s@[i as int]);
                assert(out@ + replace_all(s@.skip(i + 1), pat@, rep@) =~= before + replace_all(t@, pat@, rep@));
            }
            i = i + 1;
        }
    }
    let ghost before = out@;
    let tail = &s[i..n];
    assert(tail@ =~= s@.skip(i as int));
    push_chars(&mut out, tail);
    proof {
        assert(replace_all(s@.skip(i as int), pat@, rep@) == s@.skip(i as int));
    }
    out
}

/// Count the non-overlapping occurrences of a non-empty `pat` in `s`.
pub fn count_matches_chars(s: &[char], pat: &[char]) -> (r: usize)
    requires
        pat@.len() > 0,
    ensures
        r == count_matches(s@, pat@),
{
    let n = s.len();
    let m = pat.len();
    let mut count: usize = 0;
    let mut i: usize = 0;
    proof {
        lemma_count_matches_bound(s@, pat@);
        assert(s@.skip(0) =~= s@);
    }
    while i < n
        invariant
            n == s@.len(),
            m == pat@.len(),
            m > 0,
            i <= n,
            count + count_matches(s@.skip(i as int), pat@) == count_matches(s@, pat@),
            count_matches(s@, pat@) <= n,
        ensures
            i == n || n - i < m,
        decreases n - i,
    {
        let t = Ghost(s@.skip(i as int));
        if n - i < m {
            break;
        }
        if starts_with_at(s, i, pat) {
            proof {
                assert(t@.skip(m as int) =~= s@.skip(i + m));
                lemma_count_matches_bound(s@.skip(i + m), pat@);
            }
            count = count + 1;
            i = i + m;
        } else {
            proof {
                assert(t@.drop_first() =~= s@.skip(i + 1));
            }
            i = i + 1;
        }
    }
    assert(count_matches(s@.skip(i as int), pat@) == 0);
    count
}

pub proof fn lemma_count_matches_bound(s: Seq<char>, pat: Seq<char>)
    ensures
        count_matches(s, pat) <= s.len(),
    decreases s.len(),
{
    if pat.len() == 0 || s.len() < pat.len() {
    } else if starts_with(s, pat) {
        lemma_count_matches_bound(s.skip(pat.len() as int), pat);
    } else {
        lemma_count_matches_bound(s.drop_first(), pat);
    }
}

/// Whether `pat` occurs in `s` (`str::contains`).
pub fn contains_chars(s: &[char], pat: &[char]) -> (b: bool)
    ensures
        b == contains_seq(s@, pat@),
{
    let n = s.len();
    let m = pat.len();
    if m > n {
        return false;
    }
    let last = n - m;
    let mut i: usize = 0;
    loop
        invariant
            n == s@.len(),
            m == pat@.len(),
            m <= n,
            last == n - m,
            i <= last,
            forall|j: int| 0 <= j < i ==> #[trigger] s@.subrange(j, j + m) != pat@,
        decreases last - i,
    {
        assert(s@.skip(i as int).take(m as int) =~= s@.subrange(i as int, i + m));
        if starts_with_at(s, i, pat) {
            return true;
        }
        if i == last {
            return false;
        }
        i += 1;
    }
}

} // verus!
