//! Formatting of tool results for display: compact one-line JSON and
//! truncation by grapheme clusters.
use vstd::prelude::*;
use unicode_segmentation::UnicodeSegmentation;
use crate::text::{chars_of, push_chars, string_from};

verus! {

/// The extended grapheme clusters of a text, as segmented by the
/// `unicode-segmentation` crate.
pub uninterp spec fn extended_graphemes(s: Seq<char>) -> Seq<Seq<char>>;

/// Concatenation of a sequence of character sequences.
pub open spec fn flatten(gs: Seq<Seq<char>>) -> Seq<char>
    decreases gs.len(),
{
    if gs.len() == 0 {
        Seq::empty()
    } else {
        flatten(gs.drop_last()) + gs.last()
    }
}

/// `UnicodeSegmentation::graphemes(text, true)`, each cluster copied into a
/// `String`. The crate yields consecutive non-empty slices of `text` that
/// start at its beginning and end at its end, so the clusters are non-empty
/// and together spell `text`.
#[verifier::external_body]
fn graphemes_of(text: &str) -> (r: Vec<String>)
    ensures
        r@.map_values(|g: String| g@) == extended_graphemes(text@),
        flatten(r@.map_values(|g: String| g@)) == text@,
        forall|i: int| 0 <= i < r@.len() ==> (#[trigger] r@[i])@.len() > 0,
{
    text.graphemes(true).map(|g| g.to_string()).collect()
}

/// The pretty-printed form of JSON text, if it parses as a JSON value
/// (`serde_json::to_string_pretty` of `serde_json::from_str`).
pub uninterp spec fn pretty_json(s: Seq<char>) -> Option<Seq<char>>;

/// Parse `text` as a `serde_json::Value` and pretty-print it; `None` when it
/// is not JSON. Printing a parsed value falls back to its compact form,
/// though printing a `Value` does not fail.
#[verifier::external_body]
fn json_to_pretty(text: &str) -> (r: Option<String>)
    ensures
        match r {
            Some(p) => pretty_json(text@) == Some(p@),
            None => pretty_json(text@) is None,
        },
{
    serde_json::from_str::<serde_json::Value>(text).ok().map(
        |v| serde_json::to_string_pretty(&v).unwrap_or_else(|_| v.to_string()),
    )
}

/// Truncation of `text` to `max` graphemes given its clusters `gs`: texts
/// with more clusters are cut to `max - 3` clusters followed by "..." (or
/// to `max` clusters when `max < 3`).
pub open spec fn truncated(text: Seq<char>, gs: Seq<Seq<char>>, max: nat) -> Seq<char> {
    if gs.len() > max {
        if max >= 3 {
            flatten(gs.take(max - 3)) + "..."@
        } else {
            flatten(gs.take(max as int))
        }
    } else {
        text
    }
}

/// Truncate `text` to `max_graphemes` grapheme clusters, never splitting a
/// cluster.
pub fn truncate_text(text: &str, max_graphemes: usize) -> (r: String)
    ensures
        r@ == truncated(text@, extended_graphemes(text@), max_graphemes as nat),
{
    let gs = graphemes_of(text);
    truncate_clusters(text, &gs, max_graphemes)
}

/// Truncation of `text`, whose grapheme clusters are `gs`, to `max` clusters.
pub fn truncate_clusters(text: &str, gs: &Vec<String>, max: usize) -> (r: String)
    ensures
        r@ == truncated(text@, gs@.map_values(|g: String| g@), max as nat),
{
    let ghost gv = gs@.map_values(|g: String| g@);
    if gs.len() > max {
        let keep = if max >= 3 {
            max - 3
        } else {
            max
        };
        let mut out: Vec<char> = Vec::new();
        let mut i: usize = 0;
        proof {
            assert(gv.take(0) =~= Seq::<Seq<char>>::empty());
        }
        while i < keep
            invariant
                keep <= gs@.len(),
                gv == gs@.map_values(|g: String| g@),
                i <= keep,
                out@ == flatten(gv.take(i as int)),
            decreases keep - i,
        {
            let g = chars_of(gs[i].as_str());
            push_chars(&mut out, &g);
            proof {
                assert(gv.take(i + 1).drop_last() =~= gv.take(i as int));
                assert(gv.take(i + 1).last() == gs@[i as int]@);
            }
            i += 1;
        }
        if max >= 3 {
            out.push('.');
            out.push('.');
            out.push('.');
            proof {
                reveal_strlit("...");
                assert(out@ =~= flatten(gv.take(keep as int)) + "..."@);
            }
        }
        string_from(&out)
    } else {
        String::from_str(text)
    }
}

/// State of the JSON compactor: whether it is inside a string literal and
/// whether the next character is escaped.
pub open spec fn compact_from(
    s: Seq<char>,
    i: int,
    in_string: bool,
    escape_next: bool,
    out: Seq<char>,
) -> Seq<char>
    decreases s.len() - i,
{
    if i < 0 || i >= s.len() {
        out
    } else {
        let ch = s[i];
        if ch == '"' && !escape_next {
            compact_from(s, i + 1, !in_string, escape_next, out.push(ch))
        } else if ch == '\\' && in_string {
            compact_from(s, i + 1, in_string, !escape_next, out.push(ch))
        } else if (ch == '\n' || ch == '\r') && !in_string {
            compact_from(s, i + 1, in_string, escape_next, out)
        } else if (ch == ' ' || ch == '\t') && !in_string {
            let add = i + 1 < s.len() && out.len() > 0 && (out.last() == ':' || out.last() == ',')
                && !(s[i + 1] == '}' || s[i + 1] == ']');
            compact_from(s, i + 1, in_string, escape_next, if add { out.push(' ') } else { out })
        } else {
            compact_from(
                s,
                i + 1,
                in_string,
                if escape_next && in_string {
                    false
                } else {
                    escape_next
                },
                out.push(ch),
            )
        }
    }
}

/// The single-line form of pretty-printed JSON: newlines outside strings are
/// dropped and whitespace outside strings is kept only as one space after a
/// ':' or ',' that is not followed by a closing bracket.
pub open spec fn compact_json(pretty: Seq<char>) -> Seq<char> {
    compact_from(pretty, 0, false, false, Seq::empty())
}

/// Compact pretty-printed JSON onto one line (see [`compact_json`]).
pub fn compact_pretty_json(pretty: &str) -> (r: String)
    ensures
        r@ == compact_json(pretty@),
{
    let s = chars_of(pretty);
    let n = s.len();
    let mut out: Vec<char> = Vec::new();
    let mut in_string = false;
    let mut escape_next = false;
    let mut i: usize = 0;
    while i < n
        invariant
            n == s@.len(),
            s@ == pretty@,
            i <= n,
            compact_from(s@, i as int, in_string, escape_next, out@) == compact_json(pretty@),
        decreases n - i,
    {
        let ch = s[i];
        if ch == '"' && !escape_next {
            in_string = !in_string;
            out.push(ch);
        } else if ch == '\\' && in_string {
            escape_next = !escape_next;
            out.push(ch);
        } else if (ch == '\n' || ch == '\r') && !in_string {
        } else if (ch == ' ' || ch == '\t') && !in_string {
            if i + 1 < n && out.len() > 0 {
                let last = out[out.len() - 1];
                let next = s[i + 1];
                if (last == ':' || last == ',') && !(next == '}' || next == ']') {
                    out.push(' ');
                }
            }
        } else {
            if escape_next && in_string {
                escape_next = false;
            }
            out.push(ch);
        }
        i += 1;
    }
    string_from(&out)
}

/// Format JSON text on a single line with a space after each ':' and ',',
/// which wraps well in the terminal; `None` when the text is not JSON.
pub fn format_json_compact(text: &str) -> (r: Option<String>)
    ensures
        match pretty_json(text@) {
            Some(p) => r matches Some(c) && c@ == compact_json(p),
            None => r is None,
        },
{
    match json_to_pretty(text) {
        Some(p) => Some(compact_pretty_json(p.as_str())),
        None => None,
    }
}

/// A tool result cut to `max_lines` lines of `line_width` cells, one
/// grapheme less per line: compacted first when it is JSON.
pub open spec fn formatted_tool_result(text: Seq<char>, max_lines: nat, line_width: nat) -> Seq<char> {
    let max = if max_lines * line_width >= max_lines {
        (max_lines * line_width - max_lines) as nat
    } else {
        0nat
    };
    match pretty_json(text) {
        Some(p) => truncated(compact_json(p), extended_graphemes(compact_json(p)), max),
        None => truncated(text, extended_graphemes(text), max),
    }
}

/// Truncate a tool result to fit `max_lines` lines of `line_width` cells,
/// allowing one grapheme less per line; JSON is compacted first.
pub fn format_and_truncate_tool_result(text: &str, max_lines: usize, line_width: usize) -> (r:
    String)
    requires
        max_lines * line_width <= usize::MAX,
    ensures
        r@ == formatted_tool_result(text@, max_lines as nat, line_width as nat),
{
    let max_graphemes = (max_lines * line_width).saturating_sub(max_lines);
    match format_json_compact(text) {
        Some(formatted) => truncate_text(formatted.as_str(), max_graphemes),
        None => truncate_text(text, max_graphemes),
    }
}

/// The body of a JSON string literal: characters other than '"' and '\\',
/// each backslash escaping the character after it.
pub open spec fn json_string_body(t: Seq<char>) -> bool
    decreases t.len(),
{
    if t.len() == 0 {
        true
    } else if t[0] == '"' {
        false
    } else if t[0] == '\\' {
        t.len() >= 2 && json_string_body(t.skip(2))
    } else {
        json_string_body(t.drop_first())
    }
}

proof fn lemma_body_kept(s: Seq<char>, i: int, t: Seq<char>, out: Seq<char>)
    requires
        0 <= i,
        i + t.len() <= s.len(),
        s.subrange(i, i + t.len()) == t,
        json_string_body(t),
    ensures
        compact_from(s, i, true, false, out) == compact_from(s, i + t.len(), true, false, out + t),
    decreases t.len(),
{
    if t.len() == 0 {
        assert(out + t =~= out);
    } else if t[0] == '\\' {
        assert(s[i] == t[0]);
        assert(s[i + 1] == t[1]);
        let rest = t.skip(2);
        assert(s.subrange(i + 2, i + 2 + rest.len()) =~= rest);
        assert(compact_from(s, i, true, false, out) == compact_from(s, i + 1, true, true, out.push(t[0])));
        assert(compact_from(s, i + 1, true, true, out.push(t[0])) == compact_from(
            s,
            i + 2,
            true,
            false,
            out.push(t[0]).push(t[1]),
        ));
        lemma_body_kept(s, i + 2, rest, out.push(t[0]).push(t[1]));
        assert(out.push(t[0]).push(t[1]) + rest =~= out + t);
    } else {
        assert(s[i] == t[0]);
        let rest = t.drop_first();
        assert(s.subrange(i + 1, i + 1 + rest.len()) =~= rest);
        assert(compact_from(s, i, true, false, out) == compact_from(s, i + 1, true, false, out.push(t[0])));
        lemma_body_kept(s, i + 1, rest, out.push(t[0]));
        assert(out.push(t[0]) + rest =~= out + t);
    }
}

/// Compacting leaves every JSON string literal as it is: from outside a
/// string, an opening quote, a string body (escaped quotes and spaces
/// included) and the closing quote are copied unchanged, and compaction
/// goes on after it as outside a string.
pub proof fn law_string_literals_kept(s: Seq<char>, i: int, t: Seq<char>, out: Seq<char>)
    requires
        0 <= i,
        i + t.len() + 2 <= s.len(),
        s[i] == '"',
        s.subrange(i + 1, i + 1 + t.len()) == t,
        s[i + 1 + t.len()] == '"',
        json_string_body(t),
    ensures
        compact_from(s, i, false, false, out) == compact_from(
            s,
            i + t.len() + 2,
            false,
            false,
            out + seq!['"'] + t + seq!['"'],
        ),
{
    lemma_body_kept(s, i + 1, t, out.push('"'));
    assert(out.push('"') + t =~= out + seq!['"'] + t);
    assert((out + seq!['"'] + t).push('"') =~= out + seq!['"'] + t + seq!['"']);
}

/// A lone JSON string literal compacts to itself.
pub proof fn law_string_literal_compacts_to_itself(t: Seq<char>)
    requires
        json_string_body(t),
    ensures
        compact_json(seq!['"'] + t + seq!['"']) == seq!['"'] + t + seq!['"'],
{
    let s = seq!['"'] + t + seq!['"'];
    assert(s.subrange(1, 1 + t.len() as int) =~= t);
    law_string_literals_kept(s, 0, t, Seq::empty());
    assert(Seq::<char>::empty() + seq!['"'] + t + seq!['"'] =~= s);
}

} // verus!
