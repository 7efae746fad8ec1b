//! State of the `@file` search popup: the query being searched, the matches
//! shown and the selected row.
use vstd::prelude::*;
use crate::text::{chars_of, starts_with, str_eq};

verus! {

/// Maximum number of suggestions shown in the popup.
pub const MAX_RESULTS: usize = 8;

/// One file-search result: its score, its path relative to the search
/// directory and the matched character positions, if known.
pub struct FileMatch {
    pub score: u32,
    pub path: String,
    pub indices: Option<Vec<u32>>,
}

pub struct FileSearchPopup {
    display_query: String,
    pending_query: String,
    waiting: bool,
    matches: Vec<FileMatch>,
    selected_idx: Option<usize>,
}

impl FileSearchPopup {
    /// Query whose matches are shown.
    pub closed spec fn display_query(&self) -> Seq<char> {
        self.display_query@
    }

    /// Latest query typed by the user.
    pub closed spec fn pending_query(&self) -> Seq<char> {
        self.pending_query@
    }

    /// Whether results for the pending query are still awaited.
    pub closed spec fn is_waiting(&self) -> bool {
        self.waiting
    }

    /// Paths of the matches shown.
    pub closed spec fn match_paths(&self) -> Seq<Seq<char>> {
        self.matches@.map_values(|m: FileMatch| m.path@)
    }

    pub closed spec fn selected(&self) -> Option<usize> {
        self.selected_idx
    }

    /// The selection, when set, names a shown match.
    pub closed spec fn wf(&self) -> bool {
        match self.selected_idx {
            Some(i) => i < self.matches@.len(),
            None => true,
        }
    }

    pub fn new() -> (r: Self)
        ensures
            r.wf(),
            r.display_query().len() == 0,
            r.pending_query().len() == 0,
            r.is_waiting(),
            r.match_paths().len() == 0,
            r.selected() is None,
    {
        FileSearchPopup {
            display_query: String::new(),
            pending_query: String::new(),
            waiting: true,
            matches: Vec::new(),
            selected_idx: None,
        }
    }

    /// Show the hint for an empty query: nothing searched, nothing shown.
    pub fn set_empty_prompt(&mut self)
        ensures
            final(self).wf(),
            final(self).display_query().len() == 0,
            final(self).pending_query().len() == 0,
            !final(self).is_waiting(),
            final(self).match_paths().len() == 0,
            final(self).selected() is None,
    {
        self.display_query = String::new();
        self.pending_query = String::new();
        self.waiting = false;
        self.matches = Vec::new();
        self.selected_idx = None;
    }

    /// Start waiting for results of a new query. The current matches are
    /// kept while the new query extends the one they were found for.
    pub fn set_query(&mut self, query: &str)
        requires
            old(self).wf(),
        ensures
            final(self).wf(),
            query@ == old(self).pending_query() ==> *final(self) == *old(self),
            query@ != old(self).pending_query() ==> {
                &&& final(self).pending_query() == query@
                &&& final(self).is_waiting()
                &&& final(self).display_query() == old(self).display_query()
                &&& if starts_with(query@, old(self).display_query()) {
                    final(self).match_paths() == old(self).match_paths() && final(self).selected()
                        == old(self).selected()
                } else {
                    final(self).match_paths().len() == 0 && final(self).selected() is None
                }
            },
    {
        if str_eq(query, self.pending_query.as_str()) {
            return;
        }
        let q = chars_of(query);
        let d = chars_of(self.display_query.as_str());
        let keep_existing = crate::text::starts_with_at(&q, 0, &d);
        proof {
            assert(q@.skip(0) =~= q@);
        }
        self.pending_query = String::from_str(query);
        self.waiting = true;
        if !keep_existing {
            self.matches = Vec::new();
            self.selected_idx = None;
            assert(self.matches@.map_values(|m: FileMatch| m.path@) =~= Seq::<Seq<char>>::empty());
        }
    }

    /// Replace the matches when results arrive for the pending query;
    /// stale results are ignored. The first match becomes selected.
    pub fn set_matches(&mut self, query: &str, matches: Vec<FileMatch>)
        requires
            old(self).wf(),
        ensures
            final(self).wf(),
            query@ != old(self).pending_query() ==> *final(self) == *old(self),
            query@ == old(self).pending_query() ==> {
                &&& final(self).display_query() == query@
                &&& final(self).pending_query() == old(self).pending_query()
                &&& !final(self).is_waiting()
                &&& final(self).match_paths() == matches@.map_values(|m: FileMatch| m.path@)
                &&& final(self).selected() == if matches@.len() == 0 {
                    None
                } else {
                    Some(0usize)
                }
            },
    {
        if !str_eq(query, self.pending_query.as_str()) {
            return;
        }
        self.display_query = String::from_str(query);
        self.matches = matches;
        self.waiting = false;
        self.selected_idx = if self.matches.len() == 0 {
            None
        } else {
            Some(0)
        };
    }

    /// Move the selection up one row, stopping at the first.
    pub fn move_up(&mut self)
        requires
            old(self).wf(),
        ensures
            final(self).wf(),
            final(self).match_paths() == old(self).match_paths(),
            final(self).display_query() == old(self).display_query(),
            final(self).pending_query() == old(self).pending_query(),
            final(self).is_waiting() == old(self).is_waiting(),
            final(self).selected() == match old(self).selected() {
                Some(i) => Some((if i > 0 { i - 1 } else { 0 }) as usize),
                None => None,
            },
    {
        if let Some(idx) = self.selected_idx {
            if idx > 0 {
                self.selected_idx = Some(idx - 1);
            }
        }
    }

    /// Move the selection down one row, stopping at the last; with nothing
    /// selected the first match is selected.
    pub fn move_down(&mut self)
        requires
            old(self).wf(),
        ensures
            final(self).wf(),
            final(self).match_paths() == old(self).match_paths(),
            final(self).display_query() == old(self).display_query(),
            final(self).pending_query() == old(self).pending_query(),
            final(self).is_waiting() == old(self).is_waiting(),
            final(self).selected() == match old(self).selected() {
                Some(i) => Some(
                    (if i + 1 < old(self).match_paths().len() {
                        i + 1
                    } else {
                        i as int
                    }) as usize,
                ),
                None => if old(self).match_paths().len() > 0 {
                    Some(0usize)
                } else {
                    None
                },
            },
    {
        if let Some(idx) = self.selected_idx {
            if idx < self.matches.len() - 1 {
                self.selected_idx = Some(idx + 1);
            }
        } else if self.matches.len() > 0 {
            self.selected_idx = Some(0);
        }
    }

    /// Path of the selected match, if any.
    pub fn selected_match(&self) -> (r: Option<&str>)
        requires
            self.wf(),
        ensures
            match self.selected() {
                Some(i) => r matches Some(p) && p@ == self.match_paths()[i as int],
                None => r is None,
            },
    {
        match self.selected_idx {
            Some(idx) => Some(self.matches[idx].path.as_str()),
            None => None,
        }
    }

    /// Preferred height: one row while nothing has matched, otherwise the
    /// number of matches up to `MAX_RESULTS`, plus two border rows.
    pub fn calculate_required_height(&self) -> (h: u16)
        ensures
            h == 2 + if self.match_paths().len() == 0 {
                1
            } else if self.match_paths().len() > MAX_RESULTS {
                MAX_RESULTS as int
            } else {
                self.match_paths().len() as int
            },
    {
        let n = self.matches.len();
        let rows: u16 = if n == 0 {
            1
        } else if n > MAX_RESULTS {
            MAX_RESULTS as u16
        } else {
            n as u16
        };
        rows + 2
    }

    /// Paths and matched positions of the rows to render.
    pub fn visible_matches(&self) -> (r: Vec<(String, Option<Vec<u32>>)>)
        ensures
            r@.len() == if self.match_paths().len() > MAX_RESULTS {
                MAX_RESULTS as int
            } else {
                self.match_paths().len() as int
            },
            forall|i: int| 0 <= i < r@.len() ==> (#[trigger] r@[i]).0@ == self.match_paths()[i],
    {
        let mut r: Vec<(String, Option<Vec<u32>>)> = Vec::new();
        let n = if self.matches.len() > MAX_RESULTS {
            MAX_RESULTS
        } else {
            self.matches.len()
        };
        let mut i: usize = 0;
        while i < n
            invariant
                n <= self.matches@.len(),
                i <= n,
                r@.len() == i,
                forall|j: int| 0 <= j < i ==> (#[trigger] r@[j]).0@ == self.matches@[j].path@,
            decreases n - i,
        {
            let m = &self.matches[i];
            r.push((m.path.clone(), clone_indices(&m.indices)));
            i += 1;
        }
        r
    }
}

fn clone_indices(v: &Option<Vec<u32>>) -> (r: Option<Vec<u32>>)
    ensures
        r is Some == v is Some,
        r is Some ==> r->0@ == v->0@,
{
    match v {
        Some(x) => Some(x.clone()),
        None => None,
    }
}

} // verus!
