//! Rendering of command lines for display.
use vstd::prelude::*;
use crate::text::{chars_of, push_chars, string_from, str_eq};

verus! {

/// Words joined by single spaces (`[String]::join(" ")`).
pub open spec fn join_with_spaces(ws: Seq<Seq<char>>) -> Seq<char>
    decreases ws.len(),
{
    if ws.len() == 0 {
        Seq::empty()
    } else if ws.len() == 1 {
        ws[0]
    } else {
        join_with_spaces(ws.drop_last()) + seq![' '] + ws.last()
    }
}

/// Some word holds a NUL character.
pub open spec fn any_word_has_nul(ws: Seq<Seq<char>>) -> bool {
    exists|i: int| 0 <= i < ws.len() && (#[trigger] ws[i]).contains('\0')
}

/// The shell-quoted command line produced by `shlex::try_join` when it
/// succeeds.
pub uninterp spec fn shlex_joined(ws: Seq<Seq<char>>) -> Seq<char>;

/// `shlex::try_join`: quotes each word for a POSIX shell and joins them with
/// single spaces. The only error it reports is a word holding a NUL
/// character.
#[verifier::external_body]
fn shlex_try_join(words: &[String]) -> (r: Option<String>)
    ensures
        r is None <==> any_word_has_nul(words@.map_values(|w: String| w@)),
        r matches Some(s) ==> s@ == shlex_joined(words@.map_values(|w: String| w@)),
{
    shlex::try_join(words.iter().map(|s| s.as_str())).ok()
}

/// Join the words with single spaces.
pub fn join_words(words: &[String]) -> (r: String)
    ensures
        r@ == join_with_spaces(words@.map_values(|w: String| w@)),
{
    let ghost ws = words@.map_values(|w: String| w@);
    let mut out: Vec<char> = Vec::new();
    let n = words.len();
    let mut i: usize = 0;
    proof {
        assert(ws.take(0) =~= Seq::<Seq<char>>::empty());
    }
    while i < n
        invariant
            n == words@.len(),
            ws == words@.map_values(|w: String| w@),
            i <= n,
            out@ == join_with_spaces(ws.take(i as int)),
        decreases n - i,
    {
        let w = chars_of(words[i].as_str());
        let ghost before = out@;
        if i > 0 {
            out.push(' ');
        }
        push_chars(&mut out, &w);
        proof {
            assert(ws.take(i + 1).drop_last() =~= ws.take(i as int));
            assert(ws.take(i + 1).last() == w@);
            if i == 0 {
                assert(ws.take(1).len() == 1);
                assert(out@ =~= ws.take(1)[0]);
            } else {
                assert(out@ =~= before + seq![' '] + w@);
            }
        }
        i += 1;
    }
    proof {
        assert(ws.take(n as int) =~= ws);
    }
    string_from(&out)
}

/// The command quoted for a shell, or simply joined with spaces when a word
/// cannot be quoted.
pub fn escape_command(command: &[String]) -> (r: String)
    ensures
        any_word_has_nul(command@.map_values(|w: String| w@)) ==> r@ == join_with_spaces(
            command@.map_values(|w: String| w@),
        ),
        !any_word_has_nul(command@.map_values(|w: String| w@)) ==> r@ == shlex_joined(
            command@.map_values(|w: String| w@),
        ),
{
    match shlex_try_join(command) {
        Some(s) => s,
        None => join_words(command),
    }
}

/// A `bash -lc <script>` invocation is shown as its script; any other
/// command is shown quoted.
pub open spec fn is_bash_lc(ws: Seq<Seq<char>>) -> bool {
    ws.len() == 3 && ws[0] == "bash"@ && ws[1] == "-lc"@
}

pub fn strip_bash_lc_and_escape(command: &[String]) -> (r: String)
    ensures
        is_bash_lc(command@.map_values(|w: String| w@)) ==> r@ == command@[2]@,
        !is_bash_lc(command@.map_values(|w: String| w@)) ==> {
            &&& any_word_has_nul(command@.map_values(|w: String| w@)) ==> r@ == join_with_spaces(
                command@.map_values(|w: String| w@),
            )
            &&& !any_word_has_nul(command@.map_values(|w: String| w@)) ==> r@ == shlex_joined(
                command@.map_values(|w: String| w@),
            )
        },
{
    if command.len() == 3 && str_eq(command[0].as_str(), "bash") && str_eq(command[1].as_str(), "-lc") {
        command[2].clone()
    } else {
        proof {
            let ws = command@.map_values(|w: String| w@);
            if command@.len() == 3 {
                assert(ws[0] == command@[0]@);
                assert(ws[1] == command@[1]@);
            }
        }
        escape_command(command)
    }
}

} // verus!
