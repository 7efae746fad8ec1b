//! Text logic of the chat composer: the `@file` token under the cursor,
//! replacing it with a chosen path, and the placeholders that stand for
//! large pastes and attached images.
use vstd::prelude::*;
use crate::text::{
    chars_of, chars_within, char_index_at_or_before, is_whitespace, is_ws, leading_non_ws,
    leading_ws, skip_non_ws_backward, skip_non_ws_forward, skip_ws_forward, string_from,
    trailing_non_ws,
};

verus! {

/// A token without its leading '@', when it has one.
pub open spec fn strip_at(t: Option<Seq<char>>) -> Option<Seq<char>> {
    match t {
        Some(x) => if x.len() > 0 && x[0] == '@' {
            Some(x.drop_first())
        } else {
            None
        },
        None => None,
    }
}

/// The whitespace-delimited token that contains character position `p`
/// (it may start before `p`), if it is not empty.
pub open spec fn token_left(s: Seq<char>, p: int) -> Option<Seq<char>> {
    let sl = p - trailing_non_ws(s.take(p));
    let el = p + leading_non_ws(s.skip(p));
    if sl < el {
        Some(s.subrange(sl, el))
    } else {
        None
    }
}

/// The token that starts after the whitespace following position `p`, if
/// it is not empty.
pub open spec fn token_right(s: Seq<char>, p: int) -> Option<Seq<char>> {
    let sr = p + leading_ws(s.skip(p));
    let er = sr + leading_non_ws(s.skip(sr));
    if sr < er {
        Some(s.subrange(sr, er))
    } else {
        None
    }
}

/// The `@token` the cursor (at character position `p`) is on, without its
/// '@'. On whitespace the token that follows wins, a lone "@" before the
/// cursor gives nothing; on an '@' the token that starts there wins;
/// otherwise the token containing the cursor wins.
pub open spec fn at_token_at(s: Seq<char>, p: int) -> Option<Seq<char>> {
    let la = strip_at(token_left(s, p));
    let ra = strip_at(token_right(s, p));
    if p < s.len() && is_ws(s[p]) {
        if ra is Some {
            ra
        } else if token_left(s, p) == Some(seq!['@']) {
            None
        } else {
            la
        }
    } else if p < s.len() && s[p] == '@' {
        if ra is Some {
            ra
        } else {
            la
        }
    } else if la is Some {
        la
    } else {
        ra
    }
}

/// The `@token` under a byte-offset cursor: the cursor is first moved back
/// to the nearest char boundary at or before it.
pub open spec fn at_token(s: Seq<char>, cursor: int) -> Option<Seq<char>> {
    at_token_at(s, chars_within(s, cursor) as int)
}

fn strip_at_exec(s: &[char], a: usize, b: usize) -> (r: Option<Vec<char>>)
    requires
        a <= b <= s@.len(),
    ensures
        match r {
            Some(v) => strip_at(if a < b {
                Some(s@.subrange(a as int, b as int))
            } else {
                None
            }) == Some(v@),
            None => strip_at(if a < b {
                Some(s@.subrange(a as int, b as int))
            } else {
                None
            }) is None,
        },
{
    if a < b && s[a] == '@' {
        let mut v: Vec<char> = Vec::new();
        let mut k = a + 1;
        while k < b
            invariant
                a < b <= s@.len(),
                a + 1 <= k <= b,
                v@ == s@.subrange(a + 1, k as int),
            decreases b - k,
        {
            v.push(s[k]);
            proof {
                assert(s@.subrange(a + 1, k + 1) =~= s@.subrange(a + 1, k as int).push(s@[k as int]));
            }
            k += 1;
        }
        proof {
            assert(s@.subrange(a as int, b as int)[0] == s@[a as int]);
            assert(s@.subrange(a as int, b as int).drop_first() =~= s@.subrange(a + 1, b as int));
        }
        Some(v)
    } else {
        proof {
            if a < b {
                assert(s@.subrange(a as int, b as int)[0] == s@[a as int]);
            }
        }
        None
    }
}

/// The `@token` at character position `p` of `s`, without its '@'.
pub fn at_token_chars(s: &[char], p: usize) -> (r: Option<Vec<char>>)
    requires
        p <= s@.len(),
    ensures
        match r {
            Some(t) => at_token_at(s@, p as int) == Some(t@),
            None => at_token_at(s@, p as int) is None,
        },
{
    let n = s.len();
    let ghost sv = s@;
    let sl = skip_non_ws_backward(s, 0, p);
    let el = skip_non_ws_forward(s, p, n);
    let sr = skip_ws_forward(s, p, n);
    let er = skip_non_ws_forward(s, sr, n);
    proof {
        assert(sv.subrange(0, p as int) =~= sv.take(p as int));
        assert(sv.subrange(p as int, n as int) =~= sv.skip(p as int));
        assert(sv.subrange(sr as int, n as int) =~= sv.skip(sr as int));
    }
    let la = strip_at_exec(s, sl, el);
    let ra = strip_at_exec(s, sr, er);
    let at_ws = p < n && is_whitespace(s[p]);
    if at_ws {
        if ra.is_some() {
            ra
        } else if el == sl + 1 && s[sl] == '@' {
            proof {
                assert(sv.subrange(sl as int, el as int) =~= seq!['@']);
            }
            None
        } else {
            proof {
                if sl < el && token_left(sv, p as int) == Some(seq!['@']) {
                    assert(sv.subrange(sl as int, el as int).len() == 1);
                    assert(sv.subrange(sl as int, el as int)[0] == sv[sl as int]);
                }
            }
            la
        }
    } else if p < n && s[p] == '@' {
        if ra.is_some() {
            ra
        } else {
            la
        }
    } else if la.is_some() {
        la
    } else {
        ra
    }
}

/// Extract the `@token` the cursor (a byte offset into `text`) is on,
/// without the leading '@'. A lone '@' gives an empty query.
pub fn current_at_token(text: &str, cursor: usize) -> (r: Option<String>)
    ensures
        match r {
            Some(t) => at_token(text@, cursor as int) == Some(t@),
            None => at_token(text@, cursor as int) is None,
        },
{
    let s = chars_of(text);
    let p = char_index_at_or_before(&s, cursor);
    match at_token_chars(&s, p) {
        Some(v) => Some(string_from(&v)),
        None => None,
    }
}

} // verus!

verus! {

/// Pastes longer than this many characters are shown as a placeholder.
pub const LARGE_PASTE_CHAR_THRESHOLD: usize = 1000;

/// `"[Pasted Content <n> chars]"`.
pub open spec fn paste_placeholder_text(n: nat) -> Seq<char> {
    "[Pasted Content "@ + crate::text::decimal(n) + " chars]"@
}

/// `"[image <w>x<h> <format>]"`.
pub open spec fn image_placeholder_text(w: nat, h: nat, format: Seq<char>) -> Seq<char> {
    "[image "@ + crate::text::decimal(w) + "x"@ + crate::text::decimal(h) + " "@ + format + "]"@
}

fn push_str_chars(out: &mut Vec<char>, s: &str)
    ensures
        final(out)@ == old(out)@ + s@,
{
    let v = chars_of(s);
    crate::text::push_chars(out, &v);
}

/// The placeholder shown for a large paste of `char_count` characters.
pub fn paste_placeholder(char_count: usize) -> (r: String)
    ensures
        r@ == paste_placeholder_text(char_count as nat),
{
    let mut v: Vec<char> = Vec::new();
    push_str_chars(&mut v, "[Pasted Content ");
    crate::text::push_decimal(&mut v, char_count as u64);
    push_str_chars(&mut v, " chars]");
    string_from(&v)
}

/// The placeholder shown for an attached image.
pub fn image_placeholder(width: u32, height: u32, format_label: &str) -> (r: String)
    ensures
        r@ == image_placeholder_text(width as nat, height as nat, format_label@),
{
    let mut v: Vec<char> = Vec::new();
    push_str_chars(&mut v, "[image ");
    crate::text::push_decimal(&mut v, width as u64);
    push_str_chars(&mut v, "x");
    crate::text::push_decimal(&mut v, height as u64);
    push_str_chars(&mut v, " ");
    push_str_chars(&mut v, format_label);
    push_str_chars(&mut v, "]");
    string_from(&v)
}

/// A path looks like an image when, ignoring ASCII case, it ends with
/// `.png`, `.jpg` or `.jpeg`.
pub open spec fn is_image_path_spec(path: Seq<char>) -> bool {
    let l = crate::text::ascii_lower(path);
    crate::text::ends_with(l, ".png"@) || crate::text::ends_with(l, ".jpg"@)
        || crate::text::ends_with(l, ".jpeg"@)
}

pub fn is_image_path(path: &str) -> (b: bool)
    ensures
        b == is_image_path_spec(path@),
{
    let p = chars_of(path);
    let lower = crate::text::to_ascii_lower(&p);
    let png = chars_of(".png");
    let jpg = chars_of(".jpg");
    let jpeg = chars_of(".jpeg");
    crate::text::ends_with_chars(&lower, &png) || crate::text::ends_with_chars(&lower, &jpg)
        || crate::text::ends_with_chars(&lower, &jpeg)
}

/// The byte offset `b` falls on a char boundary of `s` (and within it).
pub open spec fn on_char_boundary(s: Seq<char>, b: int) -> bool {
    crate::text::byte_len(s.take(chars_within(s, b) as int)) == b
}

/// Bounds (character indices) of the whitespace-delimited token around the
/// character position `p`.
pub open spec fn token_bounds(s: Seq<char>, p: int) -> (int, int) {
    (p - trailing_non_ws(s.take(p)), p + leading_non_ws(s.skip(p)))
}

/// Replace the token under the cursor (a byte offset on a char boundary)
/// with `path` followed by a space. Returns the new text and the new cursor,
/// placed just after the inserted space.
pub fn insert_selected_path(text: &str, cursor: usize, path: &str) -> (r: (String, usize))
    requires
        on_char_boundary(text@, cursor as int),
        crate::text::byte_len(text@) <= usize::MAX,
    ensures
        ({
            let p = chars_within(text@, cursor as int) as int;
            let (a, b) = token_bounds(text@, p);
            &&& r.0@ == text@.take(a) + path@ + seq![' '] + text@.skip(b)
            &&& r.1 == crate::text::byte_len(text@.take(a)) + crate::text::byte_len(path@) + 1
                || (r.1 == usize::MAX && crate::text::byte_len(text@.take(a))
                + crate::text::byte_len(path@) + 1 > usize::MAX)
        }),
{
    let s = chars_of(text);
    let n = s.len();
    let p = char_index_at_or_before(&s, cursor);
    let a = skip_non_ws_backward(&s, 0, p);
    let b = skip_non_ws_forward(&s, p, n);
    proof {
        assert(s@.subrange(0, p as int) =~= s@.take(p as int));
        assert(s@.subrange(p as int, n as int) =~= s@.skip(p as int));
    }
    let pc = chars_of(path);
    let mut out: Vec<char> = Vec::new();
    let head = &s[0..a];
    let tail = &s[b..n];
    crate::text::push_chars(&mut out, head);
    crate::text::push_chars(&mut out, &pc);
    out.push(' ');
    crate::text::push_chars(&mut out, tail);
    proof {
        assert(head@ =~= text@.take(a as int));
        assert(tail@ =~= text@.skip(b as int));
        crate::text::lemma_byte_len_take_mono(s@, a as int, a as int);
    }
    let start_bytes = crate::text::byte_offset_of(&s, a);
    let path_bytes = path_byte_len(&pc);
    let c = start_bytes.saturating_add(path_bytes).saturating_add(1);
    (string_from(&out), c)
}

/// Byte length of the UTF-8 encoding of `v`, saturating at `usize::MAX`.
fn path_byte_len(v: &[char]) -> (r: usize)
    ensures
        r == crate::text::byte_len(v@) || (r == usize::MAX && crate::text::byte_len(v@)
            > usize::MAX),
{
    let mut i: usize = 0;
    let mut total: usize = 0;
    let n = v.len();
    proof {
        assert(v@.take(0) =~= Seq::<char>::empty());
        assert(vstd::utf8::encode_utf8(Seq::<char>::empty()) =~= Seq::<u8>::empty());
    }
    while i < n
        invariant
            n == v@.len(),
            i <= n,
            total == crate::text::byte_len(v@.take(i as int)),
        decreases n - i,
    {
        let w = crate::text::utf8_width(v[i]);
        proof {
            assert(v@.take(i + 1) =~= v@.take(i as int).push(v@[i as int]));
            crate::text::lemma_byte_len_push(v@.take(i as int), v@[i as int]);
            crate::text::lemma_byte_len_take_mono(v@, i + 1, n as int);
        }
        if w > usize::MAX - total {
            proof {
                assert(v@.take(n as int) =~= v@);
            }
            return usize::MAX;
        }
        total = total + w;
        i += 1;
    }
    proof {
        assert(v@.take(n as int) =~= v@);
    }
    total
}

} // verus!
