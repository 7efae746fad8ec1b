//! State of the slash-command popup: the active filter and the selected row.
use vstd::prelude::*;
use crate::slash_command::{SlashCommand, all_commands, built_in_slash_commands, command_name};
use crate::text::{
    ascii_lower, chars_of, first_line, first_line_bounds, first_token, leading_ws, lines,
    skip_non_ws_forward, skip_ws_forward, starts_with, starts_with_at, to_ascii_lower, trim_start,
};

verus! {

/// At most this many commands are shown at once.
pub const MAX_POPUP_ROWS: usize = 5;

/// A command is listed when the filter is empty or its name starts with the
/// lower-cased filter.
pub open spec fn matches_filter(filter: Seq<char>, c: SlashCommand) -> bool {
    filter.len() == 0 || starts_with(command_name(c), ascii_lower(filter))
}

/// The commands listed for a filter, in presentation order.
pub open spec fn filtered(filter: Seq<char>) -> Seq<SlashCommand> {
    all_commands().filter(|c: SlashCommand| matches_filter(filter, c))
}

/// The filter derived from the composer text: the first token after the
/// leading '/' of the first line, or empty when the first line does not
/// start with '/'.
pub open spec fn filter_for_text(text: Seq<char>) -> Seq<char> {
    let l = first_line(text);
    if l.len() > 0 && l[0] == '/' {
        first_token(trim_start(l.drop_first()))
    } else {
        Seq::empty()
    }
}

/// Where the selection lands after the filter changes: cleared when
/// nothing matches, otherwise kept (starting at the top) and clamped to the
/// last match.
pub open spec fn reselect(prev: Option<usize>, len: nat) -> Option<usize> {
    if len == 0 {
        None
    } else {
        let want = match prev {
            Some(i) => i as int,
            None => 0,
        };
        Some((if want < len - 1 { want } else { len - 1 }) as usize)
    }
}

pub struct CommandPopup {
    command_filter: Vec<char>,
    all_commands: Vec<(&'static str, SlashCommand)>,
    selected_idx: Option<usize>,
}

impl CommandPopup {
    /// The current filter.
    pub closed spec fn filter(&self) -> Seq<char> {
        self.command_filter@
    }

    /// The currently selected row of the filtered list, if any.
    pub closed spec fn selected(&self) -> Option<usize> {
        self.selected_idx
    }

    /// The popup holds every built-in command with its name.
    pub closed spec fn lists_all(&self) -> bool {
        &&& self.all_commands@.len() == all_commands().len()
        &&& forall|i: int|
            0 <= i < self.all_commands@.len() ==> (#[trigger] self.all_commands@[i]).1
                == all_commands()[i] && self.all_commands@[i].0@ == command_name(
                all_commands()[i],
            )
    }

    /// The popup lists every built-in command and its selection, if any,
    /// names a listed row.
    pub closed spec fn wf(&self) -> bool {
        &&& self.lists_all()
        &&& match self.selected_idx {
            Some(i) => i < filtered(self.command_filter@).len(),
            None => true,
        }
    }

    pub fn new() -> (r: Self)
        ensures
            r.wf(),
            r.filter() == Seq::<char>::empty(),
            r.selected() == None::<usize>,
    {
        CommandPopup { command_filter: Vec::new(), all_commands: built_in_slash_commands(), selected_idx: None }
    }

    /// Update the filter from the composer text and clamp the selection to
    /// the new list of matches.
    pub fn on_composer_text_change(&mut self, text: String)
        requires
            old(self).wf(),
        ensures
            final(self).wf(),
            final(self).filter() == filter_for_text(text@),
            final(self).selected() == reselect(
                old(self).selected(),
                filtered(filter_for_text(text@)).len(),
            ),
    {
        let cs = chars_of(text.as_str());
        let (a, b) = first_line_bounds(&cs);
        let ghost l = first_line(text@);
        let mut filter: Vec<char> = Vec::new();
        if b > a && cs[a] == '/' {
            let t0 = skip_ws_forward(&cs, a + 1, b);
            let t1 = skip_non_ws_forward(&cs, t0, b);
            let mut k = t0;
            while k < t1
                invariant
                    t0 <= k <= t1 <= cs@.len(),
                    filter@ == cs@.subrange(t0 as int, k as int),
                decreases t1 - k,
            {
                filter.push(cs[k]);
                proof {
                    assert(cs@.subrange(t0 as int, k + 1) =~= cs@.subrange(t0 as int, k as int).push(
                        cs@[k as int],
                    ));
                }
                k += 1;
            }
            proof {
                assert(l[0] == cs@[a as int]);
                assert(l.drop_first() =~= cs@.subrange(a + 1, b as int));
                let ts = trim_start(l.drop_first());
                assert(ts =~= cs@.subrange(t0 as int, b as int));
                assert(first_token(ts) =~= cs@.subrange(t0 as int, t1 as int));
            }
        } else {
            proof {
                if l.len() > 0 {
                    assert(l[0] == cs@[a as int]);
                }
            }
            assert(filter@ =~= Seq::<char>::empty());
        }
        self.command_filter = filter;
        let matches_len = self.filtered_commands().len();
        self.selected_idx = if matches_len == 0 {
            None
        } else {
            let want = match self.selected_idx {
                Some(i) => i,
                None => 0,
            };
            Some(if want < matches_len - 1 { want } else { matches_len - 1 })
        };
    }

    /// Preferred height: the number of listed commands clamped to
    /// `1..=MAX_POPUP_ROWS`.
    pub fn calculate_required_height(&self) -> (h: u16)
        requires
            self.wf(),
        ensures
            h == clamp_rows(filtered(self.filter()).len()),
    {
        let n = self.filtered_commands().len();
        if n < 1 {
            1
        } else if n > MAX_POPUP_ROWS {
            MAX_POPUP_ROWS as u16
        } else {
            n as u16
        }
    }

    /// The commands that match the current filter by prefix, in
    /// presentation order.
    pub fn filtered_commands(&self) -> (r: Vec<SlashCommand>)
        requires
            self.lists_all(),
        ensures
            r@ == filtered(self.filter()),
    {
        let lower = to_ascii_lower(&self.command_filter);
        let empty = self.command_filter.len() == 0;
        let ghost pred = |c: SlashCommand| matches_filter(self.command_filter@, c);
        let mut r: Vec<SlashCommand> = Vec::new();
        let n = self.all_commands.len();
        let mut i: usize = 0;
        while i < n
            invariant
                n == self.all_commands@.len(),
                n == all_commands().len(),
                forall|j: int|
                    0 <= j < self.all_commands@.len() ==> (#[trigger] self.all_commands@[j]).1
                        == all_commands()[j] && self.all_commands@[j].0@ == command_name(
                        all_commands()[j],
                    ),
                lower@ == ascii_lower(self.command_filter@),
                empty == (self.command_filter@.len() == 0),
                pred == (|c: SlashCommand| matches_filter(self.command_filter@, c)),
                i <= n,
                r@ == all_commands().take(i as int).filter(pred),
            decreases n - i,
        {
            let (name, cmd) = self.all_commands[i];
            let name_chars = chars_of(name);
            let keep = empty || starts_with_at(&name_chars, 0, &lower);
            proof {
                assert(name_chars@.skip(0) =~= name_chars@);
                assert(keep == pred(all_commands()[i as int]));
                reveal_with_fuel(Seq::<_>::filter, 1);
                assert(all_commands().take(i + 1).drop_last() =~= all_commands().take(i as int));
            }
            if keep {
                r.push(cmd);
            }
            i += 1;
        }
        proof {
            assert(all_commands().take(n as int) =~= all_commands());
        }
        r
    }

    /// Move the selection cursor one step up.
    pub fn move_up(&mut self)
        requires
            old(self).wf(),
        ensures
            final(self).wf(),
            final(self).filter() == old(self).filter(),
            final(self).selected() == match old(self).selected() {
                Some(i) => Some((if i > 0 { i - 1 } else { 0 }) as usize),
                None => if filtered(old(self).filter()).len() > 0 {
                    Some(0usize)
                } else {
                    None
                },
            },
    {
        if let Some(idx) = self.selected_idx {
            if idx > 0 {
                self.selected_idx = Some(idx - 1);
            }
        } else if self.filtered_commands().len() > 0 {
            self.selected_idx = Some(0);
        }
    }

    /// Move the selection cursor one step down.
    pub fn move_down(&mut self)
        requires
            old(self).wf(),
        ensures
            final(self).wf(),
            final(self).filter() == old(self).filter(),
            final(self).selected() == if filtered(old(self).filter()).len() == 0 {
                None
            } else {
                match old(self).selected() {
                    Some(i) => Some(
                        (if i + 1 < filtered(old(self).filter()).len() {
                            i + 1
                        } else {
                            i as int
                        }) as usize,
                    ),
                    None => Some(0usize),
                }
            },
    {
        let matches_len = self.filtered_commands().len();
        if matches_len == 0 {
            self.selected_idx = None;
            return;
        }
        match self.selected_idx {
            Some(idx) => {
                if idx + 1 < matches_len {
                    self.selected_idx = Some(idx + 1);
                }
            },
            None => {
                self.selected_idx = Some(0);
            },
        }
    }

    /// The currently selected command, if any.
    pub fn selected_command(&self) -> (r: Option<SlashCommand>)
        requires
            self.wf(),
        ensures
            self.selected() matches Some(i) ==> i < filtered(self.filter()).len(),
            r == match self.selected() {
                Some(i) => Some(filtered(self.filter())[i as int]),
                None => None,
            },
    {
        let matches = self.filtered_commands();
        match self.selected_idx {
            Some(idx) => Some(matches[idx]),
            None => None,
        }
    }
}

/// Row count clamped to `1..=MAX_POPUP_ROWS`.
pub open spec fn clamp_rows(n: nat) -> int {
    if n < 1 {
        1
    } else if n > MAX_POPUP_ROWS {
        MAX_POPUP_ROWS as int
    } else {
        n as int
    }
}

} // verus!

verus! {

/// Command names are told apart by their first two characters.
proof fn lemma_names_distinct_by_prefix(c: SlashCommand, d: SlashCommand)
    ensures
        command_name(c).len() >= 3,
        command_name(c)[0] == command_name(d)[0] && command_name(c)[1] == command_name(d)[1]
            ==> c == d,
{
}

/// Names are already lower case.
proof fn lemma_names_lower(c: SlashCommand)
    ensures
        ascii_lower(command_name(c)) == command_name(c),
{
    assert(ascii_lower(command_name(c)) =~= command_name(c));
}

/// Each command appears in the list once, at its own index.
pub open spec fn command_index(c: SlashCommand) -> int {
    match c {
        SlashCommand::Model => 0,
        SlashCommand::Approvals => 1,
        SlashCommand::New => 2,
        SlashCommand::Init => 3,
        SlashCommand::Compact => 4,
        SlashCommand::Diff => 5,
        SlashCommand::Mention => 6,
        SlashCommand::Status => 7,
        SlashCommand::Mcp => 8,
        SlashCommand::Logout => 9,
        SlashCommand::Quit => 10,
    }
}

proof fn lemma_filter_single<A>(s: Seq<A>, pred: spec_fn(A) -> bool, k: int)
    requires
        0 <= k < s.len(),
        pred(s[k]),
        forall|i: int| 0 <= i < s.len() && i != k ==> !pred(#[trigger] s[i]),
    ensures
        s.filter(pred) == seq![s[k]],
    decreases s.len(),
{
    reveal_with_fuel(Seq::<_>::filter, 1);
    if k == s.len() - 1 {
        lemma_filter_none(s.drop_last(), pred);
        assert(s.drop_last().filter(pred) =~= Seq::<A>::empty());
        assert(Seq::<A>::empty().push(s[k]) =~= seq![s[k]]);
    } else {
        assert forall|i: int| 0 <= i < s.drop_last().len() && i != k implies !pred(
            #[trigger] s.drop_last()[i],
        ) by {
            assert(s.drop_last()[i] == s[i]);
        }
        lemma_filter_single(s.drop_last(), pred, k);
        assert(!pred(s[s.len() - 1]));
    }
}

proof fn lemma_filter_none<A>(s: Seq<A>, pred: spec_fn(A) -> bool)
    requires
        forall|i: int| 0 <= i < s.len() ==> !pred(#[trigger] s[i]),
    ensures
        s.filter(pred) == Seq::<A>::empty(),
    decreases s.len(),
{
    reveal_with_fuel(Seq::<_>::filter, 1);
    if s.len() > 0 {
        assert forall|i: int| 0 <= i < s.drop_last().len() implies !pred(
            #[trigger] s.drop_last()[i],
        ) by {
            assert(s.drop_last()[i] == s[i]);
        }
        lemma_filter_none(s.drop_last(), pred);
        assert(!pred(s[s.len() - 1]));
    }
}

/// Typing a command's full name lists exactly that command: no command name
/// is a prefix of another, and names are lower case.
pub proof fn law_exact_name_lists_only_that_command(c: SlashCommand)
    ensures
        filtered(command_name(c)) == seq![c],
{
    let ac = all_commands();
    let f = command_name(c);
    lemma_names_lower(c);
    let pred = |d: SlashCommand| matches_filter(f, d);
    assert(ac[command_index(c)] == c);
    assert(command_name(c).take(command_name(c).len() as int) =~= command_name(c));
    assert(pred(c));
    assert forall|i: int| 0 <= i < ac.len() && i != command_index(c) implies !pred(#[trigger] ac[i]) by {
        let d = ac[i];
        lemma_names_distinct_by_prefix(c, d);
        if starts_with(command_name(d), f) {
            assert(command_name(d).take(f.len() as int)[0] == f[0]);
            assert(command_name(d).take(f.len() as int)[1] == f[1]);
        }
    }
    lemma_filter_single(ac, pred, command_index(c));
}

} // verus!
