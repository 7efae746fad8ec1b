//! The editable text of the composer: a sequence of characters and a
//! cursor between two of them.
//!
//! Positions inside the text area are character indices; the byte offsets
//! that callers see (`cursor`, `set_cursor`) are those of the UTF-8
//! encoding, a cursor given in bytes being moved back to the nearest char
//! boundary.
use vstd::prelude::*;
use crate::key::{KeyCode, KeyEvent};
use crate::text::{byte_len, chars_of, chars_within, string_from};

verus! {

/// Number of characters at the end of `s` that follow its last newline.
pub open spec fn since_nl(s: Seq<char>) -> nat
    decreases s.len(),
{
    if s.len() == 0 || s.last() == '\n' {
        0
    } else {
        1 + since_nl(s.drop_last())
    }
}

/// Number of characters at the start of `s` before its first newline.
pub open spec fn until_nl(s: Seq<char>) -> nat
    decreases s.len(),
{
    if s.len() == 0 || s[0] == '\n' {
        0
    } else {
        1 + until_nl(s.drop_first())
    }
}

/// Start of the line that holds position `p`.
pub open spec fn line_start(s: Seq<char>, p: int) -> int {
    p - since_nl(s.take(p))
}

/// End of the line that holds position `p` (the position of its newline,
/// or the end of the text).
pub open spec fn line_end(s: Seq<char>, p: int) -> int {
    p + until_nl(s.skip(p))
}

pub open spec fn min_int(a: int, b: int) -> int {
    if a <= b {
        a
    } else {
        b
    }
}

/// Cursor after Up: the same column on the previous line (or its end when
/// it is shorter); on the first line, the start of the text.
pub open spec fn cursor_up(s: Seq<char>, p: int) -> int {
    let ls = line_start(s, p);
    if ls == 0 {
        0
    } else {
        let pls = line_start(s, ls - 1);
        pls + min_int(p - ls, ls - 1 - pls)
    }
}

/// Cursor after Down: the same column on the next line (or its end when it
/// is shorter); on the last line, the end of the text.
pub open spec fn cursor_down(s: Seq<char>, p: int) -> int {
    let le = line_end(s, p);
    if le >= s.len() {
        s.len() as int
    } else {
        let nls = le + 1;
        nls + min_int(p - line_start(s, p), until_nl(s.skip(nls)) as int)
    }
}

/// `s` with `t` inserted at position `p`.
pub open spec fn insert_at(s: Seq<char>, p: int, t: Seq<char>) -> Seq<char> {
    s.take(p) + t + s.skip(p)
}

/// `s` with the characters in `[a, b)` replaced by `t`.
pub open spec fn splice(s: Seq<char>, a: int, b: int, t: Seq<char>) -> Seq<char> {
    s.take(a) + t + s.skip(b)
}

/// Where a cursor at `p` ends up when `[a, b)` is replaced by `n`
/// characters: unchanged before the range, shifted after it, and just after
/// the new text when it was inside.
pub open spec fn cursor_after_splice(p: int, a: int, b: int, n: int) -> int {
    if p <= a {
        p
    } else if p >= b {
        p - (b - a) + n
    } else {
        a + n
    }
}

/// The effect of a key on the text and cursor: printable characters and
/// newlines (Enter, Ctrl+J) are inserted, Backspace and Delete remove the
/// character before or under the cursor, and the arrow, Home and End keys
/// move the cursor. Other keys change nothing.
pub open spec fn key_edit(s: Seq<char>, p: int, key: KeyEvent) -> (Seq<char>, int) {
    let m = key.modifiers;
    match key.code {
        KeyCode::Char(c) => if !m.control && !m.alt {
            (insert_at(s, p, seq![c]), p + 1)
        } else if m.control && !m.alt && c == 'j' {
            (insert_at(s, p, seq!['\n']), p + 1)
        } else {
            (s, p)
        },
        KeyCode::Enter => (insert_at(s, p, seq!['\n']), p + 1),
        KeyCode::Backspace => if p > 0 {
            (splice(s, p - 1, p, Seq::empty()), p - 1)
        } else {
            (s, p)
        },
        KeyCode::Delete => if p < s.len() {
            (splice(s, p, p + 1, Seq::empty()), p)
        } else {
            (s, p)
        },
        KeyCode::Left => (s, if p > 0 {
            p - 1
        } else {
            0
        }),
        KeyCode::Right => (s, if p < s.len() {
            p + 1
        } else {
            p
        }),
        KeyCode::Home => (s, line_start(s, p)),
        KeyCode::End => (s, line_end(s, p)),
        KeyCode::Up => (s, cursor_up(s, p)),
        KeyCode::Down => (s, cursor_down(s, p)),
        _ => (s, p),
    }
}

/// Byte offset of character position `k`, saturating at `usize::MAX`.
pub open spec fn byte_offset_sat(s: Seq<char>, k: int) -> usize {
    if byte_len(s.take(k)) <= usize::MAX {
        byte_len(s.take(k)) as usize
    } else {
        usize::MAX
    }
}

pub struct TextArea {
    chars: Vec<char>,
    cursor: usize,
}

proof fn lemma_since_nl_step(s: Seq<char>, i: int)
    requires
        0 < i <= s.len(),
        s[i - 1] != '\n',
    ensures
        since_nl(s.take(i)) == 1 + since_nl(s.take(i - 1)),
{
    assert(s.take(i).drop_last() =~= s.take(i - 1));
    assert(s.take(i).last() == s[i - 1]);
}

proof fn lemma_until_nl_step(s: Seq<char>, i: int)
    requires
        0 <= i < s.len(),
        s[i] != '\n',
    ensures
        until_nl(s.skip(i)) == 1 + until_nl(s.skip(i + 1)),
{
    assert(s.skip(i).drop_first() =~= s.skip(i + 1));
    assert(s.skip(i)[0] == s[i]);
}

/// Start of the line holding position `p`.
fn find_line_start(s: &[char], p: usize) -> (r: usize)
    requires
        p <= s@.len(),
    ensures
        r == line_start(s@, p as int),
        r <= p,
{
    let mut i = p;
    while i > 0 && s[i - 1] != '\n'
        invariant
            i <= p <= s@.len(),
            since_nl(s@.take(p as int)) == (p - i) + since_nl(s@.take(i as int)),
        decreases i,
    {
        proof {
            lemma_since_nl_step(s@, i as int);
        }
        i -= 1;
    }
    proof {
        if i > 0 {
            assert(s@.take(i as int).last() == s@[i - 1]);
        }
    }
    i
}

/// End of the line holding position `p`.
fn find_line_end(s: &[char], p: usize) -> (r: usize)
    requires
        p <= s@.len(),
    ensures
        r == line_end(s@, p as int),
        p <= r <= s@.len(),
{
    let n = s.len();
    let mut i = p;
    while i < n && s[i] != '\n'
        invariant
            n == s@.len(),
            p <= i <= n,
            until_nl(s@.skip(p as int)) == (i - p) + until_nl(s@.skip(i as int)),
        decreases n - i,
    {
        proof {
            lemma_until_nl_step(s@, i as int);
        }
        i += 1;
    }
    proof {
        if i < n {
            assert(s@.skip(i as int)[0] == s@[i as int]);
        }
    }
    i
}

impl TextArea {
    pub closed spec fn text_view(&self) -> Seq<char> {
        self.chars@
    }

    /// The cursor as a character position.
    pub closed spec fn cursor_view(&self) -> int {
        self.cursor as int
    }

    pub open spec fn wf(&self) -> bool {
        0 <= self.cursor_view() <= self.text_view().len()
    }

    /// An empty text area.
    pub fn new() -> (r: Self)
        ensures
            r.wf(),
            r.text_view() == Seq::<char>::empty(),
            r.cursor_view() == 0,
    {
        TextArea { chars: Vec::new(), cursor: 0 }
    }

    /// The whole text.
    pub fn text(&self) -> (r: String)
        ensures
            r@ == self.text_view(),
    {
        string_from(&self.chars)
    }

    /// The characters of the text.
    pub fn chars(&self) -> (r: &[char])
        ensures
            r@ == self.text_view(),
    {
        self.chars.as_slice()
    }

    pub fn is_empty(&self) -> (b: bool)
        ensures
            b == (self.text_view().len() == 0),
    {
        self.chars.len() == 0
    }

    /// The cursor as a character position.
    pub fn cursor_char(&self) -> (r: usize)
        ensures
            r == self.cursor_view(),
    {
        self.cursor
    }

    /// The cursor as a byte offset into the text.
    pub fn cursor(&self) -> (r: usize)
        requires
            self.wf(),
        ensures
            r == byte_offset_sat(self.text_view(), self.cursor_view()),
    {
        let mut i: usize = 0;
        let mut bytes: usize = 0;
        let k = self.cursor;
        proof {
            assert(self.chars@.take(0) =~= Seq::<char>::empty());
            assert(vstd::utf8::encode_utf8(Seq::<char>::empty()) =~= Seq::<u8>::empty());
        }
        while i < k
            invariant
                k == self.cursor,
                k <= self.chars@.len(),
                i <= k,
                bytes == byte_len(self.chars@.take(i as int)),
            decreases k - i,
        {
            let w = crate::text::utf8_width(self.chars[i]);
            proof {
                assert(self.chars@.take(i + 1) =~= self.chars@.take(i as int).push(
                    self.chars@[i as int],
                ));
                crate::text::lemma_byte_len_push(self.chars@.take(i as int), self.chars@[i as int]);
                crate::text::lemma_byte_len_take_mono(self.chars@, i + 1, k as int);
            }
            if w > usize::MAX - bytes {
                return usize::MAX;
            }
            bytes = bytes + w;
            i += 1;
        }
        bytes
    }

    /// Move the cursor to a byte offset, clamped to the text and moved back
    /// to the nearest char boundary.
    pub fn set_cursor(&mut self, pos: usize)
        ensures
            final(self).wf(),
            final(self).text_view() == old(self).text_view(),
            final(self).cursor_view() == chars_within(old(self).text_view(), pos as int),
    {
        self.cursor = crate::text::char_index_at_or_before(&self.chars, pos);
    }

    /// Move the cursor to a character position, clamped to the text.
    pub fn set_cursor_char(&mut self, k: usize)
        ensures
            final(self).wf(),
            final(self).text_view() == old(self).text_view(),
            final(self).cursor_view() == if k <= old(self).text_view().len() {
                k as int
            } else {
                old(self).text_view().len() as int
            },
    {
        self.cursor = if k <= self.chars.len() {
            k
        } else {
            self.chars.len()
        };
    }

    /// Replace the whole text; the cursor keeps its byte offset, clamped to
    /// the new text.
    pub fn set_text(&mut self, s: &str)
        requires
            old(self).wf(),
        ensures
            final(self).wf(),
            final(self).text_view() == s@,
            final(self).cursor_view() == chars_within(
                s@,
                byte_offset_sat(old(self).text_view(), old(self).cursor_view()) as int,
            ),
    {
        let b = self.cursor();
        self.chars = chars_of(s);
        self.cursor = crate::text::char_index_at_or_before(&self.chars, b);
    }

    /// Replace the whole text with the characters of `v`, keeping the byte
    /// offset of the cursor as `set_text` does.
    pub fn set_chars(&mut self, v: Vec<char>)
        requires
            old(self).wf(),
        ensures
            final(self).wf(),
            final(self).text_view() == v@,
            final(self).cursor_view() == chars_within(
                v@,
                byte_offset_sat(old(self).text_view(), old(self).cursor_view()) as int,
            ),
    {
        let b = self.cursor();
        self.chars = v;
        self.cursor = crate::text::char_index_at_or_before(&self.chars, b);
    }

    /// Replace the characters in `[a, b)` with `t`.
    pub fn replace_range(&mut self, a: usize, b: usize, t: &[char])
        requires
            old(self).wf(),
            a <= b <= old(self).text_view().len(),
        ensures
            final(self).wf(),
            final(self).text_view() == splice(old(self).text_view(), a as int, b as int, t@),
            final(self).cursor_view() == cursor_after_splice(
                old(self).cursor_view(),
                a as int,
                b as int,
                t@.len() as int,
            ),
    {
        let n = self.chars.len();
        let mut out: Vec<char> = Vec::new();
        crate::text::push_chars(&mut out, &self.chars[0..a]);
        crate::text::push_chars(&mut out, t);
        crate::text::push_chars(&mut out, &self.chars[b..n]);
        proof {
            assert(self.chars@.subrange(0, a as int) =~= self.chars@.take(a as int));
            assert(self.chars@.subrange(b as int, n as int) =~= self.chars@.skip(b as int));
        }
        let p = self.cursor;
        let tl = t.len();
        let total = out.len();
        assert(total == a + tl + (n - b));
        let np = if p <= a {
            p
        } else if p >= b {
            p - b + a + tl
        } else {
            a + tl
        };
        self.chars = out;
        self.cursor = np;
    }

    /// Insert `t` at the cursor and move the cursor after it.
    pub fn insert_chars(&mut self, t: &[char])
        requires
            old(self).wf(),
        ensures
            final(self).wf(),
            final(self).text_view() == insert_at(
                old(self).text_view(),
                old(self).cursor_view(),
                t@,
            ),
            final(self).cursor_view() == old(self).cursor_view() + t@.len(),
    {
        let p = self.cursor;
        self.replace_range(p, p, t);
        let total = self.chars.len();
        assert(total == p + t@.len() + (old(self).text_view().len() - p));
        self.cursor = p + t.len();
        proof {
            assert(splice(old(self).text_view(), p as int, p as int, t@) =~= insert_at(
                old(self).text_view(),
                p as int,
                t@,
            ));
        }
    }

    /// Insert `s` at the cursor and move the cursor after it.
    pub fn insert_str(&mut self, s: &str)
        requires
            old(self).wf(),
        ensures
            final(self).wf(),
            final(self).text_view() == insert_at(
                old(self).text_view(),
                old(self).cursor_view(),
                s@,
            ),
            final(self).cursor_view() == old(self).cursor_view() + s@.len(),
    {
        let v = chars_of(s);
        self.insert_chars(&v);
    }

    /// Move the cursor to the end of its line.
    pub fn move_cursor_to_end_of_line(&mut self)
        requires
            old(self).wf(),
        ensures
            final(self).wf(),
            final(self).text_view() == old(self).text_view(),
            final(self).cursor_view() == line_end(old(self).text_view(), old(self).cursor_view()),
    {
        self.cursor = find_line_end(&self.chars, self.cursor);
    }

    /// Apply a key to the text and cursor.
    pub fn input(&mut self, key: KeyEvent)
        requires
            old(self).wf(),
        ensures
            final(self).wf(),
            (final(self).text_view(), final(self).cursor_view()) == key_edit(
                old(self).text_view(),
                old(self).cursor_view(),
                key,
            ),
    {
        let p = self.cursor;
        let n = self.chars.len();
        let m = key.modifiers;
        match key.code {
            KeyCode::Char(c) => {
                if !m.control && !m.alt {
                    let v = vec![c];
                    self.insert_chars(&v);
                } else if m.control && !m.alt && c == 'j' {
                    let v = vec!['\n'];
                    self.insert_chars(&v);
                }
            },
            KeyCode::Enter => {
                let v = vec!['\n'];
                self.insert_chars(&v);
            },
            KeyCode::Backspace => {
                if p > 0 {
                    let e: Vec<char> = Vec::new();
                    self.replace_range(p - 1, p, &e);
                }
            },
            KeyCode::Delete => {
                if p < n {
                    let e: Vec<char> = Vec::new();
                    self.replace_range(p, p + 1, &e);
                }
            },
            KeyCode::Left => {
                if p > 0 {
                    self.cursor = p - 1;
                }
            },
            KeyCode::Right => {
                if p < n {
                    self.cursor = p + 1;
                }
            },
            KeyCode::Home => {
                self.cursor = find_line_start(&self.chars, p);
            },
            KeyCode::End => {
                self.cursor = find_line_end(&self.chars, p);
            },
            KeyCode::Up => {
                let ls = find_line_start(&self.chars, p);
                if ls == 0 {
                    self.cursor = 0;
                } else {
                    let pls = find_line_start(&self.chars, ls - 1);
                    let col = p - ls;
                    let plen = ls - 1 - pls;
                    self.cursor = pls + if col <= plen {
                        col
                    } else {
                        plen
                    };
                }
            },
            KeyCode::Down => {
                let le = find_line_end(&self.chars, p);
                if le >= n {
                    self.cursor = n;
                } else {
                    let ls = find_line_start(&self.chars, p);
                    let nls = le + 1;
                    let nle = find_line_end(&self.chars, nls);
                    let col = p - ls;
                    let nlen = nle - nls;
                    self.cursor = nls + if col <= nlen {
                        col
                    } else {
                        nlen
                    };
                }
            },
            _ => {},
        }
    }
}

} // verus!
