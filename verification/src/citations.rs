//! File citations in model output, `【F:<file>†L<start>】` or
//! `【F:<file>†L<start>-L<end>】`, rewritten into markdown links that open
//! the file at the start line in the user's editor:
//! `[<file>:<start>](<scheme>://file<absolute path>:<start>) `.
use vstd::prelude::*;
use crate::text::{chars_of, push_chars, string_from};

verus! {

/// The editor that opens file links.
#[derive(Debug, Clone, Copy, PartialEq, Eq, Structural)]
pub enum UriBasedFileOpener {
    VsCode,
    VsCodeInsiders,
    Windsurf,
    Cursor,
    /// Links are not rewritten.
    Disabled,
}

/// The URI scheme of an editor.
pub open spec fn scheme_of(o: UriBasedFileOpener) -> Option<Seq<char>> {
    match o {
        UriBasedFileOpener::VsCode => Some("vscode"@),
        UriBasedFileOpener::VsCodeInsiders => Some("vscode-insiders"@),
        UriBasedFileOpener::Windsurf => Some("windsurf"@),
        UriBasedFileOpener::Cursor => Some("cursor"@),
        UriBasedFileOpener::Disabled => None,
    }
}

impl UriBasedFileOpener {
    pub fn get_scheme(&self) -> (r: Option<&'static str>)
        ensures
            match r {
                Some(s) => scheme_of(*self) == Some(s@),
                None => scheme_of(*self) is None,
            },
    {
        match self {
            UriBasedFileOpener::VsCode => Some("vscode"),
            UriBasedFileOpener::VsCodeInsiders => Some("vscode-insiders"),
            UriBasedFileOpener::Windsurf => Some("windsurf"),
            UriBasedFileOpener::Cursor => Some("cursor"),
            UriBasedFileOpener::Disabled => None,
        }
    }
}

/// Number of ASCII digits of `s` from position `i` on.
pub open spec fn digits_run(s: Seq<char>, i: int) -> nat
    decreases s.len() - i,
{
    if 0 <= i < s.len() && '0' <= s[i] && s[i] <= '9' {
        1 + digits_run(s, i + 1)
    } else {
        0
    }
}

/// The first '†' at or after `i`.
pub open spec fn dagger_from(s: Seq<char>, i: int) -> Option<int>
    decreases s.len() - i,
{
    if i < 0 || i >= s.len() {
        None
    } else if s[i] == '†' {
        Some(i)
    } else {
        dagger_from(s, i + 1)
    }
}

/// The citation that starts at `i`, if any: where it ends, the file and
/// the start line.
pub open spec fn citation_at(s: Seq<char>, i: int) -> Option<(int, Seq<char>, Seq<char>)> {
    if !(0 <= i && i + 3 <= s.len() && s[i] == '【' && s[i + 1] == 'F' && s[i + 2] == ':') {
        None
    } else {
        match dagger_from(s, i + 3) {
            None => None,
            Some(b) => if b == i + 3 || !(b + 1 < s.len() && s[b + 1] == 'L') || digits_run(s, b + 2) == 0 {
                None
            } else {
                let c = b + 2 + digits_run(s, b + 2);
                let d = digits_run(s, c + 2);
                let end = if c + 1 < s.len() && s[c] == '-' && s[c + 1] == 'L' && d > 0 && c + 2 + d < s.len()
                    && s[c + 2 + d] == '】' {
                    Some(c + 2 + d + 1)
                } else if c < s.len() && s[c] == '】' {
                    Some(c + 1)
                } else {
                    None
                };
                match end {
                    Some(e) => Some((e, s.subrange(i + 3, b), s.subrange(b + 2, c))),
                    None => None,
                }
            },
        }
    }
}

/// The result of cleaning a path lexically (`path_clean::clean`), read
/// as UTF-8.
pub uninterp spec fn cleaned_path(p: Seq<char>) -> Seq<char>;

/// `path_clean::clean`.
#[verifier::external_body]
fn clean_path(p: &str) -> (r: String)
    ensures
        r@ == cleaned_path(p@),
{
    path_clean::clean(p).to_string_lossy().into_owned()
}

/// A path is absolute when it starts at the root.
pub open spec fn is_absolute(p: Seq<char>) -> bool {
    p.len() > 0 && p[0] == '/'
}

/// `cwd` joined with a relative path, with a '/' between them when `cwd`
/// does not end with one.
pub open spec fn join_path(cwd: Seq<char>, p: Seq<char>) -> Seq<char> {
    if cwd.len() > 0 && cwd.last() != '/' {
        cwd + seq!['/'] + p
    } else {
        cwd + p
    }
}

/// Backslashes turned into slashes.
pub open spec fn forward_slashes(p: Seq<char>) -> Seq<char> {
    p.map_values(|c: char| if c == '\\' { '/' } else { c })
}

/// The absolute path of a cited file.
pub open spec fn citation_path(file: Seq<char>, cwd: Seq<char>) -> Seq<char> {
    forward_slashes(cleaned_path(if is_absolute(file) { file } else { join_path(cwd, file) }))
}

/// The link that replaces a citation.
pub open spec fn citation_link(file: Seq<char>, line: Seq<char>, scheme: Seq<char>, cwd: Seq<char>) -> Seq<char> {
    seq!['['] + file + seq![':'] + line + seq![']', '('] + scheme + "://file"@ + citation_path(file, cwd)
        + seq![':'] + line + seq![')', ' ']
}

/// `s` from position `i` on, each citation replaced by its link, left to
/// right.
pub open spec fn rewritten_from(s: Seq<char>, i: int, scheme: Seq<char>, cwd: Seq<char>) -> Seq<char>
    decreases s.len() - i,
{
    if i < 0 || i >= s.len() {
        Seq::empty()
    } else {
        match citation_at(s, i) {
            Some((e, file, line)) => if e > i {
                citation_link(file, line, scheme, cwd) + rewritten_from(s, e, scheme, cwd)
            } else {
                seq![s[i]] + rewritten_from(s, i + 1, scheme, cwd)
            },
            None => seq![s[i]] + rewritten_from(s, i + 1, scheme, cwd),
        }
    }
}

/// The rewritten text: unchanged when links are disabled.
pub open spec fn rewrite_citations(s: Seq<char>, opener: UriBasedFileOpener, cwd: Seq<char>) -> Seq<char> {
    match scheme_of(opener) {
        Some(scheme) => rewritten_from(s, 0, scheme, cwd),
        None => s,
    }
}

fn digits_end(s: &[char], i: usize) -> (r: usize)
    requires
        i <= s@.len(),
    ensures
        r == i + digits_run(s@, i as int),
        r <= s@.len(),
{
    let n = s.len();
    let mut k = i;
    while k < n && '0' <= s[k] && s[k] <= '9'
        invariant
            n == s@.len(),
            i <= k <= n,
            digits_run(s@, i as int) == (k - i) + digits_run(s@, k as int),
        decreases n - k,
    {
        k += 1;
    }
    k
}

fn dagger_from_exec(s: &[char], i: usize) -> (r: Option<usize>)
    ensures
        match r {
            Some(b) => dagger_from(s@, i as int) == Some(b as int) && i <= b < s@.len(),
            None => dagger_from(s@, i as int) is None,
        },
{
    let n = s.len();
    let mut k = i;
    while k < n
        invariant
            n == s@.len(),
            i <= k,
            dagger_from(s@, i as int) == dagger_from(s@, k as int),
        decreases n - k,
    {
        if s[k] == '†' {
            return Some(k);
        }
        k += 1;
    }
    None
}

/// The citation starting at `i`: its end, and the bounds of the file and
/// of the start line.
fn citation_at_exec(s: &[char], i: usize) -> (r: Option<(usize, usize, usize, usize, usize)>)
    requires
        i <= s@.len(),
    ensures
        match r {
            Some((e, fa, fb, la, lb)) => {
                &&& i < e <= s@.len()
                &&& fa <= fb <= s@.len()
                &&& la <= lb <= s@.len()
                &&& citation_at(s@, i as int) == Some(
                    (e as int, s@.subrange(fa as int, fb as int), s@.subrange(la as int, lb as int)),
                )
            },
            None => citation_at(s@, i as int) is None,
        },
{
    let n = s.len();
    if !(n >= 3 && i <= n - 3 && s[i] == '【' && s[i + 1] == 'F' && s[i + 2] == ':') {
        return None;
    }
    let b = match dagger_from_exec(s, i + 3) {
        Some(b) => b,
        None => {
            return None;
        },
    };
    if b == i + 3 || !(b + 1 < n && s[b + 1] == 'L') {
        return None;
    }
    let c = digits_end(s, b + 2);
    if c == b + 2 {
        return None;
    }
    let e = if c < n - 1 && s[c] == '-' && s[c + 1] == 'L' {
        let d_end = digits_end(s, c + 2);
        if d_end > c + 2 && d_end < n && s[d_end] == '】' {
            Some(d_end + 1)
        } else if s[c] == '】' {
            Some(c + 1)
        } else {
            None
        }
    } else if c < n && s[c] == '】' {
        Some(c + 1)
    } else {
        None
    };
    match e {
        Some(e) => Some((e, i + 3, b, b + 2, c)),
        None => None,
    }
}

fn push_str(v: &mut Vec<char>, s: &str)
    ensures
        final(v)@ == old(v)@ + s@,
{
    let c = chars_of(s);
    push_chars(v, &c);
}

/// The absolute path of a cited file.
fn citation_path_exec(file: &[char], cwd: &[char]) -> (r: Vec<char>)
    ensures
        r@ == citation_path(file@, cwd@),
{
    let mut p: Vec<char> = Vec::new();
    if file.len() > 0 && file[0] == '/' {
        push_chars(&mut p, file);
    } else {
        push_chars(&mut p, cwd);
        if cwd.len() > 0 && cwd[cwd.len() - 1] != '/' {
            p.push('/');
        }
        push_chars(&mut p, file);
        proof {
            if cwd@.len() > 0 {
                assert(cwd@.last() == cwd@[cwd@.len() - 1]);
            }
        }
    }
    let cleaned = clean_path(string_from(&p).as_str());
    let c = chars_of(cleaned.as_str());
    let mut out: Vec<char> = Vec::new();
    let mut k: usize = 0;
    while k < c.len()
        invariant
            k <= c@.len(),
            out@ == forward_slashes(c@.take(k as int)),
        decreases c.len() - k,
    {
        out.push(if c[k] == '\\' {
            '/'
        } else {
            c[k]
        });
        proof {
            assert(c@.take(k + 1) =~= c@.take(k as int).push(c@[k as int]));
            assert(forward_slashes(c@.take(k + 1)) =~= forward_slashes(c@.take(k as int)).push(
                if c@[k as int] == '\\' {
                    '/'
                } else {
                    c@[k as int]
                },
            ));
        }
        k += 1;
    }
    proof {
        assert(c@.take(c@.len() as int) =~= c@);
        assert(p@ == if is_absolute(file@) {
            file@
        } else {
            join_path(cwd@, file@)
        });
    }
    out
}

/// Rewrite the file citations of `src` into links for the editor
/// `file_opener`, resolving relative paths against `cwd`. Text without
/// citations, or a disabled editor, leaves `src` unchanged.
pub fn rewrite_file_citations(src: &str, file_opener: UriBasedFileOpener, cwd: &str) -> (r: String)
    ensures
        r@ == rewrite_citations(src@, file_opener, cwd@),
{
    let scheme = match file_opener.get_scheme() {
        Some(s) => s,
        None => {
            return String::from_str(src);
        },
    };
    let s = chars_of(src);
    let w = chars_of(cwd);
    let sc = chars_of(scheme);
    let n = s.len();
    let mut out: Vec<char> = Vec::new();
    let mut i: usize = 0;
    while i < n
        invariant
            n == s@.len(),
            i <= n,
            out@ + rewritten_from(s@, i as int, sc@, w@) == rewritten_from(s@, 0, sc@, w@),
        decreases n - i,
    {
        let ghost before = out@;
        match citation_at_exec(&s, i) {
            Some((e, fa, fb, la, lb)) => {
                if e > i {
                    let file = &s[fa..fb];
                    let line = &s[la..lb];
                    out.push('[');
                    push_chars(&mut out, file);
                    out.push(':');
                    push_chars(&mut out, line);
                    out.push(']');
                    out.push('(');
                    push_chars(&mut out, &sc);
                    push_str(&mut out, "://file");
                    let path = citation_path_exec(file, &w);
                    push_chars(&mut out, &path);
                    out.push(':');
                    push_chars(&mut out, line);
                    out.push(')');
                    out.push(' ');
                    proof {
                        assert(out@ =~= before + citation_link(file@, line@, sc@, w@));
                    }
                    i = e;
                } else {
                    out.push(s[i]);
                    i += 1;
                }
            },
            None => {
                out.push(s[i]);
                i += 1;
            },
        }
    }
    proof {
        assert(out@ + Seq::<char>::empty() =~= out@);
    }
    string_from(&out)
}

/// Text in which no citation starts is left unchanged.
pub proof fn law_text_without_citations_unchanged(s: Seq<char>, opener: UriBasedFileOpener, cwd: Seq<char>)
    requires
        forall|i: int| 0 <= i < s.len() ==> #[trigger] citation_at(s, i) is None,
    ensures
        rewrite_citations(s, opener, cwd) == s,
{
    match scheme_of(opener) {
        Some(scheme) => {
            lemma_unchanged_from(s, 0, scheme, cwd);
            assert(s.skip(0) =~= s);
        },
        None => {},
    }
}

proof fn lemma_unchanged_from(s: Seq<char>, i: int, scheme: Seq<char>, cwd: Seq<char>)
    requires
        0 <= i <= s.len(),
        forall|k: int| 0 <= k < s.len() ==> #[trigger] citation_at(s, k) is None,
    ensures
        rewritten_from(s, i, scheme, cwd) == s.skip(i),
    decreases s.len() - i,
{
    if i < s.len() {
        assert(citation_at(s, i) is None);
        lemma_unchanged_from(s, i + 1, scheme, cwd);
        assert(seq![s[i]] + s.skip(i + 1) =~= s.skip(i));
    } else {
        assert(s.skip(i) =~= Seq::<char>::empty());
    }
}

} // verus!
