//! Shell-style history navigation (Up/Down) for the chat composer.
//!
//! The history spans entries persisted by earlier sessions (fetched on
//! demand, identified by offset in the persistent log) followed by the
//! messages submitted during this session. Navigation decides what the
//! composer should show next; the caller applies the returned effect to the
//! text area or forwards the fetch request.
use std::collections::HashMap;
use vstd::prelude::*;
use crate::text::str_eq;

verus! {

broadcast use vstd::std_specs::hash::group_hash_axioms;

/// What the caller must do after a navigation step.
#[derive(Debug, PartialEq, Eq)]
pub enum HistoryEffect {
    /// Nothing to apply.
    Nothing,
    /// Replace the composer text with this history entry.
    ReplaceText(String),
    /// The persistent entry is not cached yet: ask for it.
    RequestEntry { log_id: u64, offset: usize },
}

/// State machine behind Up/Down history navigation in the composer.
pub struct ChatComposerHistory {
    history_log_id: Option<u64>,
    history_entry_count: usize,
    local_history: Vec<String>,
    fetched_history: HashMap<usize, String>,
    history_cursor: Option<usize>,
    last_history_text: Option<String>,
}

/// Abstract state of the history.
pub struct HistoryView {
    pub log_id: Option<u64>,
    pub entry_count: nat,
    pub local: Seq<Seq<char>>,
    pub fetched: Map<usize, Seq<char>>,
    pub cursor: Option<usize>,
    pub last_text: Option<Seq<char>>,
}

impl HistoryView {
    /// Number of entries reachable by navigation.
    pub open spec fn total(self) -> nat {
        self.entry_count + self.local.len()
    }

    /// The text known for entry `idx`, if any: a local entry, or a fetched
    /// persistent one.
    pub open spec fn known_text(self, idx: int) -> Option<Seq<char>> {
        if idx >= self.entry_count {
            if idx - self.entry_count < self.local.len() {
                Some(self.local[idx - self.entry_count])
            } else {
                None
            }
        } else if self.fetched.contains_key(idx as usize) {
            Some(self.fetched[idx as usize])
        } else {
            None
        }
    }

    /// The effect of showing entry `idx`.
    pub open spec fn populate_effect(self, idx: int) -> Option<(Option<Seq<char>>, Option<(u64, usize)>)> {
        match self.known_text(idx) {
            Some(t) => Some((Some(t), None)),
            None => match self.log_id {
                Some(id) => Some((None, Some((id, idx as usize)))),
                None => None,
            },
        }
    }

    /// The browsing cursor, when set, names an entry.
    pub open spec fn wf(self) -> bool {
        match self.cursor {
            Some(c) => c < self.total(),
            None => true,
        }
    }
}

/// The abstract text of an effect: what replaces the composer text, or
/// what is requested.
pub open spec fn effect_matches(
    e: HistoryEffect,
    text: Option<Seq<char>>,
    req: Option<(u64, usize)>,
) -> bool {
    match e {
        HistoryEffect::Nothing => text is None && req is None,
        HistoryEffect::ReplaceText(t) => text == Some(t@) && req is None,
        HistoryEffect::RequestEntry { log_id, offset } => text is None && req == Some((log_id, offset)),
    }
}

impl ChatComposerHistory {
    pub closed spec fn view(&self) -> HistoryView {
        HistoryView {
            log_id: self.history_log_id,
            entry_count: self.history_entry_count as nat,
            local: self.local_history@.map_values(|s: String| s@),
            fetched: self.fetched_history@.map_values(|s: String| s@),
            cursor: self.history_cursor,
            last_text: match self.last_history_text {
                Some(t) => Some(t@),
                None => None,
            },
        }
    }

    pub fn new() -> (r: Self)
        ensures
            r.view().log_id is None,
            r.view().entry_count == 0,
            r.view().local.len() == 0,
            r.view().fetched == Map::<usize, Seq<char>>::empty(),
            r.view().cursor is None,
            r.view().last_text is None,
            r.view().wf(),
    {
        let r = ChatComposerHistory {
            history_log_id: None,
            history_entry_count: 0,
            local_history: Vec::new(),
            fetched_history: HashMap::new(),
            history_cursor: None,
            last_history_text: None,
        };
        assert(r.view().fetched =~= Map::<usize, Seq<char>>::empty());
        r
    }

    /// Whether one more entry can still be counted in a `usize`.
    pub fn has_room(&self) -> (b: bool)
        ensures
            b == (self.view().total() < usize::MAX),
    {
        self.local_history.len() < usize::MAX - self.history_entry_count
    }

    /// Update metadata when a new session is configured: the persistent log
    /// is replaced, and everything cached or recorded is forgotten.
    pub fn set_metadata(&mut self, log_id: u64, entry_count: usize)
        ensures
            final(self).view().log_id == Some(log_id),
            final(self).view().entry_count == entry_count,
            final(self).view().local.len() == 0,
            final(self).view().fetched == Map::<usize, Seq<char>>::empty(),
            final(self).view().cursor is None,
            final(self).view().last_text is None,
            final(self).view().wf(),
    {
        self.history_log_id = Some(log_id);
        self.history_entry_count = entry_count;
        self.fetched_history.clear();
        self.local_history.clear();
        self.history_cursor = None;
        self.last_history_text = None;
        assert(self.view().fetched =~= Map::<usize, Seq<char>>::empty());
    }

    /// Record a message submitted in this session so it can be recalled;
    /// empty messages are ignored. Recording ends any browsing.
    pub fn record_local_submission(&mut self, text: &str)
        requires
            old(self).view().wf(),
        ensures
            final(self).view().wf(),
            text@.len() == 0 ==> final(self).view() == old(self).view(),
            text@.len() > 0 ==> {
                &&& final(self).view().local == old(self).view().local.push(text@)
                &&& final(self).view().cursor is None
                &&& final(self).view().last_text is None
                &&& final(self).view().log_id == old(self).view().log_id
                &&& final(self).view().entry_count == old(self).view().entry_count
                &&& final(self).view().fetched == old(self).view().fetched
            },
    {
        if !text.is_empty() {
            let ghost before = self.local_history@;
            self.local_history.push(String::from_str(text));
            self.history_cursor = None;
            self.last_history_text = None;
            assert(self.local_history@.map_values(|s: String| s@) =~= before.map_values(
                |s: String| s@,
            ).push(text@));
        }
    }

    /// Should Up/Down be treated as history navigation given the composer
    /// text and its cursor (a byte offset)? Only when there is history, and
    /// either the composer is empty or it still shows the last recalled
    /// entry with the cursor at the start.
    pub fn should_handle_navigation(&self, text: &str, cursor: usize) -> (b: bool)
        ensures
            b == (self.view().total() > 0 && (text@.len() == 0 || (cursor == 0
                && self.view().last_text == Some(text@)))),
    {
        if self.history_entry_count == 0 && self.local_history.len() == 0 {
            return false;
        }
        if text.is_empty() {
            return true;
        }
        if cursor != 0 {
            return false;
        }
        match &self.last_history_text {
            Some(prev) => str_eq(prev.as_str(), text),
            None => false,
        }
    }

    /// Handle Up. Returns whether the key was consumed and the effect to
    /// apply. From outside browsing it goes to the newest entry; at the
    /// oldest entry it stays put.
    pub fn navigate_up(&mut self) -> (r: (bool, HistoryEffect))
        requires
            old(self).view().wf(),
            old(self).view().total() <= usize::MAX,
        ensures
            final(self).view().wf(),
            final(self).view().log_id == old(self).view().log_id,
            final(self).view().entry_count == old(self).view().entry_count,
            final(self).view().local == old(self).view().local,
            final(self).view().fetched == old(self).view().fetched,
            old(self).view().total() == 0 ==> r.0 == false && r.1 == HistoryEffect::Nothing
                && final(self).view() == old(self).view(),
            old(self).view().total() > 0 && old(self).view().cursor == Some(0usize) ==> r.0
                && r.1 == HistoryEffect::Nothing && final(self).view() == old(self).view(),
            old(self).view().total() > 0 && old(self).view().cursor != Some(0usize) ==> {
                let next = match old(self).view().cursor {
                    Some(c) => c - 1,
                    None => old(self).view().total() - 1,
                };
                &&& r.0
                &&& final(self).view().cursor == cursor_after_up(old(self).view().total(), old(self).view().cursor)
                &&& final(self).view().cursor == Some(next as usize)
                &&& populated(old(self).view(), final(self).view(), next, r.1)
            },
    {
        let total = self.history_entry_count + self.local_history.len();
        if total == 0 {
            return (false, HistoryEffect::Nothing);
        }
        let next_idx = match self.history_cursor {
            None => total - 1,
            Some(0) => {
                return (true, HistoryEffect::Nothing);
            },
            Some(idx) => idx - 1,
        };
        self.history_cursor = Some(next_idx);
        let e = self.populate_history_at_index(next_idx);
        (true, e)
    }

    /// Handle Down. Returns whether the key was consumed and the effect to
    /// apply. Moving past the newest entry clears the composer and ends
    /// browsing.
    pub fn navigate_down(&mut self) -> (r: (bool, HistoryEffect))
        requires
            old(self).view().wf(),
            old(self).view().total() <= usize::MAX,
        ensures
            final(self).view().wf(),
            final(self).view().log_id == old(self).view().log_id,
            final(self).view().entry_count == old(self).view().entry_count,
            final(self).view().local == old(self).view().local,
            final(self).view().fetched == old(self).view().fetched,
            old(self).view().total() == 0 || old(self).view().cursor is None ==> r.0 == false
                && r.1 == HistoryEffect::Nothing && final(self).view() == old(self).view(),
            old(self).view().total() > 0 && old(self).view().cursor is Some ==> {
                let c = old(self).view().cursor->0;
                &&& r.0
                &&& final(self).view().cursor == cursor_after_down(old(self).view().total(), old(self).view().cursor)
                &&& c + 1 >= old(self).view().total() ==> {
                    &&& final(self).view().cursor is None
                    &&& final(self).view().last_text == Some(Seq::<char>::empty())
                    &&& r.1 matches HistoryEffect::ReplaceText(t) && t@.len() == 0
                }
                &&& c + 1 < old(self).view().total() ==> {
                    &&& final(self).view().cursor == Some((c + 1) as usize)
                    &&& populated(old(self).view(), final(self).view(), c + 1, r.1)
                }
            },
    {
        let total = self.history_entry_count + self.local_history.len();
        if total == 0 {
            return (false, HistoryEffect::Nothing);
        }
        let next_idx_opt = match self.history_cursor {
            None => {
                return (false, HistoryEffect::Nothing);
            },
            Some(idx) => if idx + 1 >= total {
                None
            } else {
                Some(idx + 1)
            },
        };
        match next_idx_opt {
            Some(idx) => {
                self.history_cursor = Some(idx);
                let e = self.populate_history_at_index(idx);
                (true, e)
            },
            None => {
                self.history_cursor = None;
                let empty = String::new();
                self.last_history_text = Some(String::new());
                (true, HistoryEffect::ReplaceText(empty))
            },
        }
    }

    /// Integrate the response to a fetch request. A response for another
    /// log is ignored; otherwise the entry is cached and, when the cursor
    /// is still on it, returned so the composer can show it.
    pub fn on_entry_response(&mut self, log_id: u64, offset: usize, entry: Option<String>) -> (r:
        Option<String>)
        requires
            old(self).view().wf(),
        ensures
            final(self).view().wf(),
            old(self).view().log_id != Some(log_id) || entry is None ==> r is None
                && final(self).view() == old(self).view(),
            old(self).view().log_id == Some(log_id) && entry is Some ==> {
                let t = entry->0@;
                &&& final(self).view().fetched == old(self).view().fetched.insert(offset, t)
                &&& final(self).view().log_id == old(self).view().log_id
                &&& final(self).view().entry_count == old(self).view().entry_count
                &&& final(self).view().local == old(self).view().local
                &&& final(self).view().cursor == old(self).view().cursor
                &&& old(self).view().cursor == Some(offset) ==> (r matches Some(s) && s@ == t
                    && final(self).view().last_text == Some(t))
                &&& old(self).view().cursor != Some(offset) ==> (r is None
                    && final(self).view().last_text == old(self).view().last_text)
            },
    {
        if self.history_log_id != Some(log_id) {
            return None;
        }
        let text = match entry {
            Some(t) => t,
            None => {
                return None;
            },
        };
        let ghost before = self.fetched_history@;
        self.fetched_history.insert(offset, text.clone());
        assert(self.fetched_history@.map_values(|s: String| s@) =~= before.map_values(
            |s: String| s@,
        ).insert(offset, text@));
        if self.history_cursor == Some(offset) {
            self.last_history_text = Some(text.clone());
            return Some(text);
        }
        None
    }

    fn populate_history_at_index(&mut self, global_idx: usize) -> (e: HistoryEffect)
        requires
            global_idx < old(self).view().total(),
        ensures
            final(self).view().cursor == old(self).view().cursor,
            final(self).view().log_id == old(self).view().log_id,
            final(self).view().entry_count == old(self).view().entry_count,
            final(self).view().local == old(self).view().local,
            final(self).view().fetched == old(self).view().fetched,
            populated(old(self).view(), final(self).view(), global_idx as int, e),
    {
        if global_idx >= self.history_entry_count {
            let t = self.local_history[global_idx - self.history_entry_count].clone();
            self.last_history_text = Some(t.clone());
            HistoryEffect::ReplaceText(t)
        } else {
            match self.fetched_history.get(&global_idx) {
                Some(text) => {
                    let t = text.clone();
                    self.last_history_text = Some(t.clone());
                    HistoryEffect::ReplaceText(t)
                },
                None => match self.history_log_id {
                    Some(log_id) => HistoryEffect::RequestEntry { log_id, offset: global_idx },
                    None => HistoryEffect::Nothing,
                },
            }
        }
    }
}

/// Where Up moves the cursor (when there is history): from outside
/// browsing to the newest entry, otherwise one entry older, stopping at the
/// oldest.
pub open spec fn cursor_after_up(total: nat, cursor: Option<usize>) -> Option<usize> {
    match cursor {
        None => Some((total - 1) as usize),
        Some(c) => Some((if c > 0 { c - 1 } else { 0 }) as usize),
    }
}

/// Where Down moves the cursor: one entry newer, or out of browsing past
/// the newest entry.
pub open spec fn cursor_after_down(total: nat, cursor: Option<usize>) -> Option<usize> {
    match cursor {
        None => None,
        Some(c) => if c + 1 < total {
            Some((c + 1) as usize)
        } else {
            None
        },
    }
}

/// Up followed by Down returns to the entry being browsed, unless it was
/// already the oldest; Up from outside browsing lands on the newest entry,
/// and Down from the newest entry leaves browsing.
pub proof fn law_up_then_down_returns(total: nat, c: usize)
    requires
        0 < c < total,
    ensures
        cursor_after_down(total, cursor_after_up(total, Some(c))) == Some(c),
        total <= usize::MAX ==> cursor_after_up(total, None) == Some((total - 1) as usize),
        total <= usize::MAX + 1 ==> cursor_after_down(total, Some((total - 1) as usize)) is None,
{
}

/// Showing entry `idx`: a known entry replaces the text and becomes the
/// last recalled text; an unknown persistent entry is requested (when the
/// log is known) and the last recalled text is kept.
pub open spec fn populated(pre: HistoryView, post: HistoryView, idx: int, e: HistoryEffect) -> bool {
    match pre.known_text(idx) {
        Some(t) => (e matches HistoryEffect::ReplaceText(s) && s@ == t) && post.last_text == Some(t),
        None => post.last_text == pre.last_text && match pre.log_id {
            Some(id) => e == HistoryEffect::RequestEntry { log_id: id, offset: idx as usize },
            None => e == HistoryEffect::Nothing,
        },
    }
}

} // verus!
