//! How the chat widget groups the commands the agent runs into transcript
//! cells: commands that start while another one runs stack into one active
//! cell, finished commands wait until nothing runs any more and then enter
//! the transcript in the order they finished, and a header is shown only on
//! the first command of a run of consecutive command cells.
use vstd::prelude::*;
use crate::diff_render::{lines_view, StyledLine};
use crate::history_cell::{
    exec_command_lines, exec_generic_rows, parsed_command_rows, CommandOutput, ParsedCommand,
};
use crate::insert_history::Color;

verus! {

/// The map described by a list of keyed entries, later entries winning.
pub open spec fn to_map<V>(s: Seq<(Seq<char>, V)>) -> Map<Seq<char>, V>
    decreases s.len(),
{
    if s.len() == 0 {
        Map::empty()
    } else {
        to_map(s.drop_last()).insert(s.last().0, s.last().1)
    }
}

/// No key occurs twice.
pub open spec fn keys_distinct<V>(s: Seq<(Seq<char>, V)>) -> bool {
    forall|i: int, j: int| 0 <= i < j < s.len() ==> s[i].0 != s[j].0
}

proof fn lemma_to_map_dom<V>(s: Seq<(Seq<char>, V)>, k: Seq<char>)
    ensures
        to_map(s).contains_key(k) <==> exists|i: int| 0 <= i < s.len() && s[i].0 == k,
    decreases s.len(),
{
    if s.len() > 0 {
        let t = s.drop_last();
        lemma_to_map_dom(t, k);
        if to_map(s).contains_key(k) {
            if k == s.last().0 {
                assert(s[s.len() - 1].0 == k);
            } else {
                let i = choose|i: int| 0 <= i < t.len() && t[i].0 == k;
                assert(s[i].0 == k);
            }
        }
        if exists|i: int| 0 <= i < s.len() && s[i].0 == k {
            let i = choose|i: int| 0 <= i < s.len() && s[i].0 == k;
            if i < s.len() - 1 {
                assert(t[i].0 == k);
            }
        }
    }
}

proof fn lemma_to_map_value<V>(s: Seq<(Seq<char>, V)>, i: int)
    requires
        keys_distinct(s),
        0 <= i < s.len(),
    ensures
        to_map(s).contains_key(s[i].0),
        to_map(s)[s[i].0] == s[i].1,
    decreases s.len(),
{
    let t = s.drop_last();
    if i < s.len() - 1 {
        assert(keys_distinct(t));
        assert(t[i] == s[i]);
        lemma_to_map_value(t, i);
    }
}

proof fn lemma_to_map_remove<V>(s: Seq<(Seq<char>, V)>, i: int)
    requires
        keys_distinct(s),
        0 <= i < s.len(),
    ensures
        keys_distinct(s.remove(i)),
        to_map(s.remove(i)) == to_map(s).remove(s[i].0),
{
    let t = s.remove(i);
    assert(keys_distinct(t)) by {
        assert forall|a: int, b: int| 0 <= a < b < t.len() implies t[a].0 != t[b].0 by {
            let a2 = if a < i { a } else { a + 1 };
            let b2 = if b < i { b } else { b + 1 };
            assert(t[a] == s[a2] && t[b] == s[b2]);
        }
    }
    let k = s[i].0;
    assert forall|x: Seq<char>| #[trigger] to_map(t).contains_key(x) <==> to_map(s).remove(k).contains_key(x) by {
        lemma_to_map_dom(t, x);
        lemma_to_map_dom(s, x);
        if to_map(t).contains_key(x) {
            let j = choose|j: int| 0 <= j < t.len() && t[j].0 == x;
            let j2 = if j < i { j } else { j + 1 };
            assert(t[j] == s[j2]);
        }
        if to_map(s).remove(k).contains_key(x) {
            let j = choose|j: int| 0 <= j < s.len() && s[j].0 == x;
            assert(j != i);
            let j2 = if j < i { j } else { j - 1 };
            assert(t[j2] == s[j]);
        }
    }
    assert forall|x: Seq<char>| #[trigger] to_map(t).contains_key(x) implies to_map(t)[x] == to_map(s).remove(k)[x] by {
        lemma_to_map_dom(t, x);
        let j = choose|j: int| 0 <= j < t.len() && t[j].0 == x;
        let j2 = if j < i { j } else { j + 1 };
        assert(t[j] == s[j2]);
        lemma_to_map_value(t, j);
        lemma_to_map_value(s, j2);
    }
    assert(to_map(t) =~= to_map(s).remove(k));
}

proof fn lemma_to_map_empty<V>(s: Seq<(Seq<char>, V)>)
    ensures
        (to_map(s) == Map::<Seq<char>, V>::empty()) <==> s.len() == 0,
{
    if s.len() > 0 {
        lemma_to_map_dom(s, s[0].0);
        assert(!Map::<Seq<char>, V>::empty().contains_key(s[0].0));
    }
}

/// The output of a cell, borrowed.
pub open spec fn output_ref(o: &Option<CommandOutput>) -> Option<&CommandOutput> {
    match o {
        Some(x) => Some(x),
        None => None,
    }
}

/// A command the agent is running: what it runs and how it was parsed.
pub struct RunningCommand {
    pub command: Vec<String>,
    pub parsed_cmd: Vec<ParsedCommand>,
}

/// A cell of the transcript that shows commands: while it is active it
/// has no output yet and more parsed commands may join it.
pub struct ExecCell {
    pub command: Vec<String>,
    pub parsed: Vec<ParsedCommand>,
    pub output: Option<CommandOutput>,
    pub include_header: bool,
}

/// What a command cell holds.
pub struct CellView {
    pub command: Seq<String>,
    pub parsed: Seq<ParsedCommand>,
    pub output: Option<CommandOutput>,
    pub include_header: bool,
}

impl ExecCell {
    pub open spec fn view(&self) -> CellView {
        CellView {
            command: self.command@,
            parsed: self.parsed@,
            output: self.output,
            include_header: self.include_header,
        }
    }

    /// The lines of the cell; `elapsed_secs` is how long an active command
    /// has been running.
    pub fn display_lines(&self, elapsed_secs: Option<u64>, color: Color) -> (r: Vec<StyledLine>)
        ensures
            self.parsed@.len() == 0 ==> lines_view(r@) == exec_generic_rows(
                self.command@.map_values(|w: String| w@),
                output_ref(&self.output),
                elapsed_secs,
            ),
            self.parsed@.len() > 0 ==> lines_view(r@) == parsed_command_rows(
                self.parsed@,
                output_ref(&self.output),
                elapsed_secs,
                color,
            ),
    {
        let r = exec_command_lines(&self.command, &self.parsed, self.output.as_ref(), elapsed_secs, color);
        r
    }
}

/// A finished command waiting for the others to finish.
pub type PendingView = (Seq<String>, Seq<ParsedCommand>, CommandOutput);

/// Abstract state of command grouping.
pub struct ExecCellsView {
    /// The running commands by call id.
    pub running: Map<Seq<char>, (Seq<String>, Seq<ParsedCommand>)>,
    pub active: Option<CellView>,
    pub pending: Seq<PendingView>,
    /// Whether the cell last added to the transcript shows commands.
    pub last_was_exec: bool,
}

/// A command starts: it is recorded as running under its call id, and its
/// parsed form joins the active cell, or opens one that carries a header
/// unless the transcript already ends with a command cell.
pub open spec fn begin_step(
    v: ExecCellsView,
    call_id: Seq<char>,
    command: Seq<String>,
    parsed: Seq<ParsedCommand>,
) -> ExecCellsView {
    ExecCellsView {
        running: v.running.insert(call_id, (command, parsed)),
        active: match v.active {
            Some(c) => Some(CellView { parsed: c.parsed + parsed, ..c }),
            None => Some(CellView { command, parsed, output: None, include_header: !v.last_was_exec }),
        },
        ..v
    }
}

/// The cells made of finished commands, in the order they finished; only
/// the first may carry a header.
pub open spec fn completed_cells(pending: Seq<PendingView>, last_was_exec: bool) -> Seq<CellView> {
    Seq::new(
        pending.len(),
        |j: int|
            CellView {
                command: pending[j].0,
                parsed: pending[j].1,
                output: Some(pending[j].2),
                include_header: j == 0 && !last_was_exec,
            },
    )
}

/// A command ends: it leaves the running commands (an unknown call id
/// stands for itself, unparsed) and waits with its output; when nothing
/// runs any more the active cell is dropped and every waiting command
/// enters the transcript.
pub open spec fn end_step(v: ExecCellsView, call_id: String, output: CommandOutput) -> (ExecCellsView, Seq<CellView>) {
    let (command, parsed) = if v.running.contains_key(call_id@) {
        v.running[call_id@]
    } else {
        (seq![call_id], Seq::empty())
    };
    let running = v.running.remove(call_id@);
    let pending = v.pending.push((command, parsed, output));
    if running == Map::<Seq<char>, (Seq<String>, Seq<ParsedCommand>)>::empty() {
        (
            ExecCellsView { running, active: None, pending: Seq::empty(), last_was_exec: true },
            completed_cells(pending, v.last_was_exec),
        )
    } else {
        (ExecCellsView { running, pending, ..v }, Seq::empty())
    }
}

/// The active cell enters the transcript, if there is one.
pub open spec fn flush_step(v: ExecCellsView) -> (ExecCellsView, Option<CellView>) {
    match v.active {
        Some(c) => (ExecCellsView { active: None, last_was_exec: true, ..v }, Some(c)),
        None => (v, None),
    }
}

/// Another cell enters the transcript: the active cell goes first, and a
/// cell with visible lines ends the run of command cells.
pub open spec fn add_cell_step(v: ExecCellsView, has_display_lines: bool) -> (ExecCellsView, Option<CellView>) {
    let (w, flushed) = flush_step(v);
    (ExecCellsView { last_was_exec: if has_display_lines { false } else { w.last_was_exec }, ..w }, flushed)
}


/// The views of finished commands.
pub open spec fn pending_view(s: Seq<(Vec<String>, Vec<ParsedCommand>, CommandOutput)>) -> Seq<PendingView> {
    s.map_values(|p: (Vec<String>, Vec<ParsedCommand>, CommandOutput)| (p.0@, p.1@, p.2))
}

/// The view of an optional cell.
pub open spec fn opt_cell_view(o: Option<ExecCell>) -> Option<CellView> {
    match o {
        Some(c) => Some(c.view()),
        None => None,
    }
}

/// The views of a list of cells.
pub open spec fn cells_view(s: Seq<ExecCell>) -> Seq<CellView> {
    s.map_values(|c: ExecCell| c.view())
}

fn clone_strings(v: &Vec<String>) -> (r: Vec<String>)
    ensures
        r@ == v@,
{
    let mut r: Vec<String> = Vec::new();
    let mut i: usize = 0;
    while i < v.len()
        invariant
            i <= v@.len(),
            r@ == v@.take(i as int),
        decreases v.len() - i,
    {
        r.push(v[i].clone());
        proof {
            assert(v@.take(i + 1) =~= v@.take(i as int).push(v@[i as int]));
        }
        i += 1;
    }
    assert(v@.take(v@.len() as int) =~= v@);
    r
}

fn clone_opt_string(o: &Option<String>) -> (r: Option<String>)
    ensures
        r == *o,
{
    match o {
        Some(s) => Some(s.clone()),
        None => None,
    }
}

fn clone_parsed(p: &ParsedCommand) -> (r: ParsedCommand)
    ensures
        r == *p,
{
    match p {
        ParsedCommand::Read { cmd, name } => ParsedCommand::Read { cmd: cmd.clone(), name: name.clone() },
        ParsedCommand::ListFiles { cmd, path } => ParsedCommand::ListFiles {
            cmd: cmd.clone(),
            path: clone_opt_string(path),
        },
        ParsedCommand::Search { cmd, query, path } => ParsedCommand::Search {
            cmd: cmd.clone(),
            query: clone_opt_string(query),
            path: clone_opt_string(path),
        },
        ParsedCommand::Format { cmd } => ParsedCommand::Format { cmd: cmd.clone() },
        ParsedCommand::Test { cmd } => ParsedCommand::Test { cmd: cmd.clone() },
        ParsedCommand::Lint { cmd } => ParsedCommand::Lint { cmd: cmd.clone() },
        ParsedCommand::Unknown { cmd } => ParsedCommand::Unknown { cmd: cmd.clone() },
        ParsedCommand::Noop { cmd } => ParsedCommand::Noop { cmd: cmd.clone() },
    }
}

fn clone_parsed_vec(v: &Vec<ParsedCommand>) -> (r: Vec<ParsedCommand>)
    ensures
        r@ == v@,
{
    let mut r: Vec<ParsedCommand> = Vec::new();
    let mut i: usize = 0;
    while i < v.len()
        invariant
            i <= v@.len(),
            r@ == v@.take(i as int),
        decreases v.len() - i,
    {
        r.push(clone_parsed(&v[i]));
        proof {
            assert(v@.take(i + 1) =~= v@.take(i as int).push(v@[i as int]));
        }
        i += 1;
    }
    assert(v@.take(v@.len() as int) =~= v@);
    r
}

/// The command cells of a chat: the running commands by call id, the
/// active cell, the finished commands waiting for the others, and whether
/// the transcript ends with a command cell.
pub struct ExecCells {
    running: Vec<(String, RunningCommand)>,
    active: Option<ExecCell>,
    pending: Vec<(Vec<String>, Vec<ParsedCommand>, CommandOutput)>,
    last_history_was_exec: bool,
}

impl ExecCells {
    pub closed spec fn entries(&self) -> Seq<(Seq<char>, (Seq<String>, Seq<ParsedCommand>))> {
        self.running@.map_values(
            |e: (String, RunningCommand)| (e.0@, (e.1.command@, e.1.parsed_cmd@)),
        )
    }

    /// No call id is recorded twice.
    pub closed spec fn wf(&self) -> bool {
        keys_distinct(self.entries())
    }

    pub closed spec fn view(&self) -> ExecCellsView {
        ExecCellsView {
            running: to_map(self.entries()),
            active: opt_cell_view(self.active),
            pending: pending_view(self.pending@),
            last_was_exec: self.last_history_was_exec,
        }
    }

    /// Nothing runs and the transcript holds no command cell yet.
    pub fn new() -> (r: Self)
        ensures
            r.wf(),
            r.view() == (ExecCellsView {
                running: Map::empty(),
                active: None,
                pending: Seq::empty(),
                last_was_exec: false,
            }),
    {
        let r = ExecCells { running: Vec::new(), active: None, pending: Vec::new(), last_history_was_exec: false };
        proof {
            assert(r.entries() =~= Seq::empty());
            assert(to_map(r.entries()) =~= Map::empty());
            assert(r.view().pending =~= Seq::empty());
        }
        r
    }

    fn find(&self, call_id: &String) -> (r: Option<usize>)
        ensures
            r matches Some(i) ==> i < self.entries().len() && self.entries()[i as int].0 == call_id@,
            r is None ==> forall|i: int| 0 <= i < self.entries().len() ==> self.entries()[i].0 != call_id@,
    {
        let mut i: usize = 0;
        while i < self.running.len()
            invariant
                i <= self.running@.len(),
                forall|j: int| 0 <= j < i ==> self.entries()[j].0 != call_id@,
            decreases self.running.len() - i,
        {
            if self.running[i].0 == *call_id {
                return Some(i);
            }
            i += 1;
        }
        None
    }

    /// Record `call_id` as running `command`, replacing what it ran before.
    fn record_running(&mut self, call_id: String, command: Vec<String>, parsed_cmd: Vec<ParsedCommand>)
        requires
            old(self).wf(),
        ensures
            final(self).wf(),
            final(self).view() == (ExecCellsView {
                running: old(self).view().running.insert(call_id@, (command@, parsed_cmd@)),
                ..old(self).view()
            }),
    {
        let ghost s0 = self.entries();
        let ghost k = call_id@;
        let ghost v = (command@, parsed_cmd@);
        let found = self.find(&call_id);
        let ghost s1 = s0;
        match found {
            Some(i) => {
                self.running.remove(i);
                proof {
                    lemma_to_map_remove(s0, i as int);
                    assert(self.entries() =~= s0.remove(i as int));
                    s1 = s0.remove(i as int);
                    assert forall|j: int| 0 <= j < s1.len() implies s1[j].0 != k by {
                        let j2 = if j < i { j } else { j + 1 };
                        assert(s1[j] == s0[j2]);
                    }
                }
            },
            None => {},
        }
        self.running.push((call_id, RunningCommand { command, parsed_cmd }));
        proof {
            assert(self.entries() =~= s1.push((k, v)));
            assert(keys_distinct(self.entries()));
            lemma_to_map_dom(s0, k);
            assert(to_map(s1.push((k, v))) == to_map(s1).insert(k, v)) by {
                assert(s1.push((k, v)).drop_last() =~= s1);
            }
            if found is None {
                assert(to_map(s0).insert(k, v) =~= to_map(s1).insert(k, v));
            } else {
                assert(to_map(s0).insert(k, v) =~= to_map(s0).remove(k).insert(k, v));
            }
            assert(self.view().pending =~= old(self).view().pending);
        }
    }

    /// A command starts. It is recorded as running under its call id; its
    /// parsed form joins the active cell, or opens one, with a header unless
    /// the transcript already ends with a command cell.
    pub fn handle_exec_begin_now(&mut self, call_id: String, command: Vec<String>, parsed_cmd: Vec<ParsedCommand>)
        requires
            old(self).wf(),
        ensures
            final(self).wf(),
            final(self).view() == begin_step(old(self).view(), call_id@, command@, parsed_cmd@),
    {
        let ghost v0 = self.view();
        let ghost p0 = parsed_cmd@;
        let command2 = clone_strings(&command);
        let parsed2 = clone_parsed_vec(&parsed_cmd);
        self.record_running(call_id, command2, parsed2);
        let include_header = !self.last_history_was_exec;
        let mut active: Option<ExecCell> = None;
        std::mem::swap(&mut active, &mut self.active);
        let mut parsed_cmd = parsed_cmd;
        match active {
            Some(mut c) => {
                c.parsed.append(&mut parsed_cmd);
                self.active = Some(c);
            },
            None => {
                self.active = Some(ExecCell { command, parsed: parsed_cmd, output: None, include_header });
            },
        }
        proof {
            assert(self.view() =~= begin_step(v0, call_id@, command@, p0));
        }
    }

    /// Take `call_id` out of the running commands: what it ran, or the call
    /// id itself, unparsed, when it was not recorded.
    fn take_running(&mut self, call_id: String) -> (r: (Vec<String>, Vec<ParsedCommand>))
        requires
            old(self).wf(),
        ensures
            final(self).wf(),
            final(self).view() == (ExecCellsView {
                running: old(self).view().running.remove(call_id@),
                ..old(self).view()
            }),
            old(self).view().running.contains_key(call_id@) ==> (r.0@, r.1@) == old(
                self,
            ).view().running[call_id@],
            !old(self).view().running.contains_key(call_id@) ==> r.0@ == seq![call_id] && r.1@.len() == 0,
    {
        let ghost s0 = self.entries();
        let ghost k = call_id@;
        proof {
            lemma_to_map_dom(s0, k);
        }
        match self.find(&call_id) {
            Some(i) => {
                let (_, rc) = self.running.remove(i);
                proof {
                    lemma_to_map_remove(s0, i as int);
                    lemma_to_map_value(s0, i as int);
                    assert(self.entries() =~= s0.remove(i as int));
                    assert(self.view().pending =~= old(self).view().pending);
                }
                (rc.command, rc.parsed_cmd)
            },
            None => {
                proof {
                    assert(to_map(s0).remove(k) =~= to_map(s0));
                }
                let mut command: Vec<String> = Vec::new();
                command.push(call_id);
                proof {
                    assert(command@ =~= seq![call_id]);
                }
                (command, Vec::new())
            },
        }
    }

    /// A command ends with `output`. It leaves the running commands and
    /// waits; when nothing runs any more, the active cell is dropped and
    /// the cells of all waiting commands are returned, in the order the
    /// commands ended, for the transcript.
    pub fn handle_exec_end_now(&mut self, call_id: String, output: CommandOutput) -> (r: Vec<ExecCell>)
        requires
            old(self).wf(),
        ensures
            final(self).wf(),
            (final(self).view(), cells_view(r@)) == end_step(old(self).view(), call_id, output),
    {
        let ghost v0 = self.view();
        let ghost id = call_id;
        let (command, parsed) = self.take_running(call_id);
        self.pending.push((command, parsed, output));
        let ghost all = self.view().pending;
        proof {
            assert(all =~= v0.pending.push((command@, parsed@, output)));
            let (c2, p2) = if v0.running.contains_key(id@) {
                v0.running[id@]
            } else {
                (seq![id], Seq::empty())
            };
            assert(c2 == command@ && p2 =~= parsed@);
            assert(all == v0.pending.push((c2, p2, output)));
            lemma_to_map_empty(self.entries());
        }
        let mut out: Vec<ExecCell> = Vec::new();
        if self.running.len() == 0 {
            self.active = None;
            let mut pending: Vec<(Vec<String>, Vec<ParsedCommand>, CommandOutput)> = Vec::new();
            std::mem::swap(&mut pending, &mut self.pending);
            let ghost last0 = v0.last_was_exec;
            let ghost n = all.len();
            proof {
                assert(self.entries() =~= Seq::empty());
                assert(v0.running.remove(id@) == Map::<Seq<char>, (Seq<String>, Seq<ParsedCommand>)>::empty());
            }
            while pending.len() > 0
                invariant
                    self.wf(),
                    n == all.len(),
                    self.running@.len() == 0,
                    self.active is None,
                    self.pending@.len() == 0,
                    out@.len() + pending@.len() == n,
                    pending_view(pending@) == all.skip(out@.len() as int),
                    cells_view(out@) == completed_cells(all, last0).take(out@.len() as int),
                    self.last_history_was_exec == (last0 || out@.len() > 0),
                decreases pending@.len(),
            {
                let ghost k: int = out@.len() as int;
                let ghost pv = pending@;
                proof {
                    assert(pending_view(pv)[0] == all.skip(k)[0]);
                    assert(all.skip(k)[0] == all[k]);
                }
                let (c, p, o) = pending.remove(0);
                let include_header = !self.last_history_was_exec;
                out.push(ExecCell { command: c, parsed: p, output: Some(o), include_header });
                self.last_history_was_exec = true;
                proof {
                    assert(pending_view(pending@) =~= pending_view(pv).drop_first());
                    assert(cells_view(out@) =~= completed_cells(all, last0).take(k + 1));
                    assert(all.skip(k + 1) =~= all.skip(k).drop_first());
                }
            }
            proof {
                assert(completed_cells(all, last0).take(n as int) =~= completed_cells(all, last0));
                assert(self.entries() =~= Seq::empty());
                assert(self.view().pending =~= Seq::empty());
            }
        }
        proof {
            assert(self.view() =~= end_step(v0, id, output).0);
            assert(cells_view(out@) =~= end_step(v0, id, output).1);
        }
        out
    }

    /// The active cell enters the transcript, if there is one.
    pub fn flush_active_exec_cell(&mut self) -> (r: Option<ExecCell>)
        requires
            old(self).wf(),
        ensures
            final(self).wf(),
            (final(self).view(), opt_cell_view(r)) == flush_step(old(self).view()),
    {
        let mut active: Option<ExecCell> = None;
        std::mem::swap(&mut active, &mut self.active);
        if active.is_some() {
            self.last_history_was_exec = true;
        }
        proof {
            assert(self.view() =~= flush_step(old(self).view()).0);
        }
        active
    }

    /// Another cell enters the transcript: the active cell, returned here,
    /// goes before it, and a cell with visible lines ends the run of command
    /// cells.
    pub fn add_to_history(&mut self, has_display_lines: bool) -> (r: Option<ExecCell>)
        requires
            old(self).wf(),
        ensures
            final(self).wf(),
            (final(self).view(), opt_cell_view(r)) == add_cell_step(old(self).view(), has_display_lines),
    {
        let flushed = self.flush_active_exec_cell();
        if has_display_lines {
            self.last_history_was_exec = false;
        }
        proof {
            assert(self.view() =~= add_cell_step(old(self).view(), has_display_lines).0);
        }
        flushed
    }

    /// A stream of agent text finished: the next command shows its header.
    pub fn on_stream_finished(&mut self)
        requires
            old(self).wf(),
        ensures
            final(self).wf(),
            final(self).view() == (ExecCellsView { last_was_exec: false, ..old(self).view() }),
    {
        self.last_history_was_exec = false;
        proof {
            assert(self.view() =~= (ExecCellsView { last_was_exec: false, ..old(self).view() }));
        }
    }

    /// The turn ended (completed or failed): no command is running any more.
    pub fn clear_running(&mut self)
        requires
            old(self).wf(),
        ensures
            final(self).wf(),
            final(self).view() == (ExecCellsView { running: Map::empty(), ..old(self).view() }),
    {
        self.running.clear();
        proof {
            assert(self.entries() =~= Seq::empty());
            assert(self.view() =~= (ExecCellsView { running: Map::empty(), ..old(self).view() }));
        }
    }

    /// The running turn was interrupted: the active cell is dropped and no
    /// command is running any more.
    pub fn interrupt(&mut self)
        requires
            old(self).wf(),
        ensures
            final(self).wf(),
            final(self).view() == (ExecCellsView { running: Map::empty(), active: None, ..old(self).view() }),
    {
        self.active = None;
        self.running.clear();
        proof {
            assert(self.entries() =~= Seq::empty());
            assert(self.view() =~= (ExecCellsView { running: Map::empty(), active: None, ..old(self).view() }));
        }
    }

    /// The cell shown below the transcript while commands run.
    pub fn active_exec_cell(&self) -> (r: Option<&ExecCell>)
        ensures
            match r {
                Some(c) => self.view().active == Some(c.view()),
                None => self.view().active is None,
            },
    {
        match &self.active {
            Some(c) => Some(c),
            None => None,
        }
    }
}

/// Nothing runs, no cell is active and no finished command waits.
pub open spec fn idle(v: ExecCellsView) -> bool {
    &&& v.running == Map::<Seq<char>, (Seq<String>, Seq<ParsedCommand>)>::empty()
    &&& v.active is None
    &&& v.pending.len() == 0
}

/// A command that starts and ends while nothing else runs enters the
/// transcript right away as one cell with its output, headed unless the
/// transcript already ends with a command cell.
pub proof fn law_begin_then_end_reports_command(
    v: ExecCellsView,
    call_id: String,
    command: Seq<String>,
    parsed: Seq<ParsedCommand>,
    output: CommandOutput,
)
    requires
        idle(v),
    ensures
        end_step(begin_step(v, call_id@, command, parsed), call_id, output).1 == seq![
            CellView { command, parsed, output: Some(output), include_header: !v.last_was_exec },
        ],
        idle(end_step(begin_step(v, call_id@, command, parsed), call_id, output).0),
        end_step(begin_step(v, call_id@, command, parsed), call_id, output).0.last_was_exec,
{
    let w = begin_step(v, call_id@, command, parsed);
    assert(w.running.remove(call_id@) =~= Map::empty());
    let e = end_step(w, call_id, output);
    assert(w.pending.push((command, parsed, output)) =~= seq![(command, parsed, output)]);
    assert(e.1 =~= seq![CellView { command, parsed, output: Some(output), include_header: !v.last_was_exec }]);
}

/// Commands that overlap are reported only when the last of them ends, in
/// the order they ended, and only the first of them carries a header.
pub proof fn law_overlapping_commands_reported_in_end_order(
    v: ExecCellsView,
    a: String,
    b: String,
    ca: Seq<String>,
    pa: Seq<ParsedCommand>,
    cb: Seq<String>,
    pb: Seq<ParsedCommand>,
    oa: CommandOutput,
    ob: CommandOutput,
)
    requires
        idle(v),
        a@ != b@,
    ensures
        ({
            let s1 = begin_step(begin_step(v, a@, ca, pa), b@, cb, pb);
            let (s2, first) = end_step(s1, b, ob);
            let (s3, second) = end_step(s2, a, oa);
            &&& first.len() == 0
            &&& second == seq![
                CellView { command: cb, parsed: pb, output: Some(ob), include_header: !v.last_was_exec },
                CellView { command: ca, parsed: pa, output: Some(oa), include_header: false },
            ]
            &&& idle(s3)
        }),
{
    let s0 = begin_step(v, a@, ca, pa);
    let s1 = begin_step(s0, b@, cb, pb);
    assert(s1.running.remove(b@) =~= Map::empty().insert(a@, (ca, pa)));
    assert(s1.running.remove(b@).contains_key(a@));
    assert(s1.running.remove(b@) != Map::<Seq<char>, (Seq<String>, Seq<ParsedCommand>)>::empty());
    let (s2, first) = end_step(s1, b, ob);
    assert(s2.running.contains_key(a@));
    assert(s2.running.remove(a@) =~= Map::empty());
    let (s3, second) = end_step(s2, a, oa);
    assert(s2.pending.push((ca, pa, oa)) =~= seq![(cb, pb, ob), (ca, pa, oa)]);
    assert(second =~= seq![
        CellView { command: cb, parsed: pb, output: Some(ob), include_header: !v.last_was_exec },
        CellView { command: ca, parsed: pa, output: Some(oa), include_header: false },
    ]);
}

/// After finished commands enter the transcript, the next command joins
/// their run: its cell carries no header.
pub proof fn law_consecutive_commands_share_header(
    v: ExecCellsView,
    ended: String,
    output: CommandOutput,
    next: Seq<char>,
    command: Seq<String>,
    parsed: Seq<ParsedCommand>,
)
    requires
        end_step(v, ended, output).1.len() > 0,
    ensures
        begin_step(end_step(v, ended, output).0, next, command, parsed).active == Some(
            CellView { command, parsed, output: None, include_header: false },
        ),
{
}

/// A cell with visible lines between two commands ends the run: the next
/// command's cell carries a header again.
pub proof fn law_visible_cell_restores_header(
    v: ExecCellsView,
    next: Seq<char>,
    command: Seq<String>,
    parsed: Seq<ParsedCommand>,
)
    ensures
        begin_step(add_cell_step(v, true).0, next, command, parsed).active == Some(
            CellView { command, parsed, output: None, include_header: true },
        ),
{
}

} // verus!
