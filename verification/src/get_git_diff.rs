//! The steps of computing the Git diff of the working directory: the diff
//! of tracked files followed by a diff of every untracked file against the
//! null device. Outside a repository (or without `git`) the result is
//! `(false, "")`.
//!
//! The caller runs each `git` command that a step asks for and reports its
//! outcome to `GitDiffRun::on_outcome`.
use vstd::prelude::*;
use crate::text::{split_inclusive_nl, spans_of, string_from, trim};

verus! {

/// What running a `git` command gave.
#[derive(Debug)]
pub enum GitOutcome {
    /// The command ran: whether it succeeded, its exit code and its
    /// standard output (decoded as UTF-8, invalid bytes replaced).
    Exited { success: bool, code: Option<i32>, stdout: String },
    /// The command could not be started; `not_found` when `git` (or a
    /// file) was not found.
    SpawnFailed { not_found: bool, message: String },
}

/// Why the diff could not be computed.
#[derive(Debug, PartialEq, Eq)]
pub enum GitDiffError {
    /// The command could not be started.
    Io { not_found: bool, message: String },
    /// The command exited with an unexpected status.
    CommandFailed { args: Vec<String> },
}

/// What to do next.
#[derive(Debug)]
pub enum GitDiffStep {
    /// Run `git` with these arguments and report the outcome.
    Run(Vec<String>),
    /// The diff is computed: whether the directory is in a repository, and
    /// the diff.
    Done(Result<(bool, String), GitDiffError>),
}

#[derive(Debug, Clone, Copy, PartialEq, Eq, Structural)]
pub enum GitDiffStage {
    CheckRepo,
    WorktreeDiff,
    ListUntracked,
    Untracked,
    Finished,
}

/// The untracked files named in the output of `git ls-files`: its lines,
/// trimmed, without the empty ones.
pub open spec fn untracked_files(out: Seq<char>) -> Seq<Seq<char>> {
    split_inclusive_nl(out).map_values(|l: Seq<char>| trim(l)).filter(|l: Seq<char>| l.len() > 0)
}

/// `git diff` reports differences with exit code 1; both 0 and 1 are
/// success for a diff.
pub open spec fn diff_accepted(success: bool, code: Option<i32>) -> bool {
    success || code == Some(1i32)
}

fn strs(v: &[&str]) -> (r: Vec<String>)
    ensures
        r@.len() == v@.len(),
        forall|i: int| 0 <= i < v@.len() ==> #[trigger] r@[i]@ == v@[i]@,
{
    let mut r: Vec<String> = Vec::new();
    let mut i: usize = 0;
    while i < v.len()
        invariant
            i <= v@.len(),
            r@.len() == i,
            forall|k: int| 0 <= k < i ==> #[trigger] r@[k]@ == v@[k]@,
        decreases v.len() - i,
    {
        r.push(String::from_str(v[i]));
        i += 1;
    }
    r
}

pub open spec fn views(v: Seq<String>) -> Seq<Seq<char>> {
    v.map_values(|s: String| s@)
}

/// Arguments of the repository check.
pub fn check_repo_args() -> (r: Vec<String>)
    ensures
        views(r@) == seq!["rev-parse"@, "--is-inside-work-tree"@],
{
    let r = strs(&["rev-parse", "--is-inside-work-tree"]);
    assert(views(r@) =~= seq!["rev-parse"@, "--is-inside-work-tree"@]);
    r
}

/// Arguments of the diff of tracked files.
pub fn worktree_diff_args() -> (r: Vec<String>)
    ensures
        views(r@) == seq!["diff"@, "--color"@],
{
    let r = strs(&["diff", "--color"]);
    assert(views(r@) =~= seq!["diff"@, "--color"@]);
    r
}

/// Arguments of the listing of untracked files.
pub fn list_untracked_args() -> (r: Vec<String>)
    ensures
        views(r@) == seq!["ls-files"@, "--others"@, "--exclude-standard"@],
{
    let r = strs(&["ls-files", "--others", "--exclude-standard"]);
    assert(views(r@) =~= seq!["ls-files"@, "--others"@, "--exclude-standard"@]);
    r
}

/// Arguments of the diff of an untracked file against the null device.
pub fn unworktree_diff_args(null_device: &str, file: &str) -> (r: Vec<String>)
    ensures
        views(r@) == seq!["diff"@, "--color"@, "--no-index"@, "--"@, null_device@, file@],
{
    let r = strs(&["diff", "--color", "--no-index", "--", null_device, file]);
    assert(views(r@) =~= seq!["diff"@, "--color"@, "--no-index"@, "--"@, null_device@, file@]);
    r
}

/// Parse the output of `git ls-files` into file names.
pub fn parse_untracked(out: &str) -> (r: Vec<String>)
    ensures
        views(r@) == untracked_files(out@),
{
    let s = crate::text::chars_of(out);
    let pieces = crate::text::split_inclusive_bounds(&s);
    let ghost ps = split_inclusive_nl(out@);
    let ghost tr = ps.map_values(|l: Seq<char>| trim(l));
    let ghost pred = |l: Seq<char>| l.len() > 0;
    let mut r: Vec<String> = Vec::new();
    let mut i: usize = 0;
    proof {
        assert(tr.take(0).filter(pred) =~= Seq::<Seq<char>>::empty());
    }
    while i < pieces.len()
        invariant
            s@ == out@,
            spans_of(s@, pieces@) == ps,
            crate::text::bounds_within(pieces@, s@.len() as int),
            ps == split_inclusive_nl(out@),
            tr == ps.map_values(|l: Seq<char>| trim(l)),
            pred == (|l: Seq<char>| l.len() > 0),
            i <= pieces@.len(),
            views(r@) == tr.take(i as int).filter(pred),
        decreases pieces.len() - i,
    {
        let (a, b) = pieces[i];
        proof {
            assert(spans_of(s@, pieces@)[i as int] == s@.subrange(a as int, b as int));
        }
        let (x, y) = crate::text::trim_bounds(&s, a, b);
        proof {
            assert(tr[i as int] == trim(ps[i as int]));
            assert(tr.take(i + 1).drop_last() =~= tr.take(i as int));
            assert(tr.take(i + 1).last() == tr[i as int]);
            assert(tr.take(i + 1).filter(pred) == {
                let f = tr.take(i as int).filter(pred);
                if pred(tr[i as int]) {
                    f.push(tr[i as int])
                } else {
                    f
                }
            }) by {
                reveal(Seq::filter);
            }
        }
        if x < y {
            let ghost old_r = r@;
            r.push(string_from(&s[x..y]));
            proof {
                assert(views(r@) =~= views(old_r).push(s@.subrange(x as int, y as int)));
            }
        }
        i += 1;
    }
    proof {
        assert(tr.take(pieces@.len() as int) =~= tr);
    }
    r
}

/// Abstract state of a diff computation.
pub struct GitDiffView {
    pub stage: GitDiffStage,
    pub worktree_diff: Seq<char>,
    pub files: Seq<Seq<char>>,
    pub next: int,
    pub untracked: Seq<char>,
}

/// Abstract form of a step: the arguments to run, or the result.
pub enum StepView {
    Run(Seq<Seq<char>>),
    DoneOk(bool, Seq<char>),
    DoneIo(bool),
    DoneFailed(Seq<Seq<char>>),
}

pub open spec fn step_view(s: GitDiffStep) -> StepView {
    match s {
        GitDiffStep::Run(args) => StepView::Run(views(args@)),
        GitDiffStep::Done(Ok((inside, diff))) => StepView::DoneOk(inside, diff@),
        GitDiffStep::Done(Err(GitDiffError::Io { not_found, .. })) => StepView::DoneIo(not_found),
        GitDiffStep::Done(Err(GitDiffError::CommandFailed { args })) => StepView::DoneFailed(views(args@)),
    }
}

/// Abstract form of an outcome.
pub enum OutcomeView {
    Exited(bool, Option<i32>, Seq<char>),
    SpawnFailed(bool),
}

pub open spec fn outcome_view(o: GitOutcome) -> OutcomeView {
    match o {
        GitOutcome::Exited { success, code, stdout } => OutcomeView::Exited(success, code, stdout@),
        GitOutcome::SpawnFailed { not_found, .. } => OutcomeView::SpawnFailed(not_found),
    }
}

/// The step that follows the listing of untracked files, or the diff of
/// untracked file `next - 1`: the diff of the next file, or the result.
pub open spec fn next_file_step(v: GitDiffView, null_device: Seq<char>) -> StepView {
    if v.next < v.files.len() {
        StepView::Run(seq!["diff"@, "--color"@, "--no-index"@, "--"@, null_device, v.files[v.next]])
    } else {
        StepView::DoneOk(true, v.worktree_diff + v.untracked)
    }
}

/// One step of the computation: the state after an outcome, and what to
/// do next.
pub open spec fn git_diff_step(v: GitDiffView, o: OutcomeView, null_device: Seq<char>) -> (GitDiffView, StepView) {
    let fin = GitDiffView { stage: GitDiffStage::Finished, ..v };
    match v.stage {
        GitDiffStage::CheckRepo => match o {
            OutcomeView::Exited(success, _, _) => if success {
                (GitDiffView { stage: GitDiffStage::WorktreeDiff, ..v }, StepView::Run(seq!["diff"@, "--color"@]))
            } else {
                (fin, StepView::DoneOk(false, Seq::empty()))
            },
            OutcomeView::SpawnFailed(not_found) => if not_found {
                (fin, StepView::DoneOk(false, Seq::empty()))
            } else {
                (fin, StepView::DoneIo(false))
            },
        },
        GitDiffStage::WorktreeDiff => match o {
            OutcomeView::Exited(success, code, out) => if diff_accepted(success, code) {
                (
                    GitDiffView { stage: GitDiffStage::ListUntracked, worktree_diff: out, ..v },
                    StepView::Run(seq!["ls-files"@, "--others"@, "--exclude-standard"@]),
                )
            } else {
                (fin, StepView::DoneFailed(seq!["diff"@, "--color"@]))
            },
            OutcomeView::SpawnFailed(nf) => (fin, StepView::DoneIo(nf)),
        },
        GitDiffStage::ListUntracked => match o {
            OutcomeView::Exited(success, _, out) => if success {
                let v2 = GitDiffView {
                    stage: GitDiffStage::Untracked,
                    files: untracked_files(out),
                    next: 0,
                    untracked: Seq::empty(),
                    ..v
                };
                let s = next_file_step(v2, null_device);
                (
                    if s is Run {
                        GitDiffView { next: 1, ..v2 }
                    } else {
                        GitDiffView { stage: GitDiffStage::Finished, ..v2 }
                    },
                    s,
                )
            } else {
                (fin, StepView::DoneFailed(seq!["ls-files"@, "--others"@, "--exclude-standard"@]))
            },
            OutcomeView::SpawnFailed(nf) => (fin, StepView::DoneIo(nf)),
        },
        GitDiffStage::Untracked => {
            let added = match o {
                OutcomeView::Exited(success, code, out) => if diff_accepted(success, code) {
                    Some(out)
                } else {
                    None
                },
                OutcomeView::SpawnFailed(nf) => if nf {
                    Some(Seq::<char>::empty())
                } else {
                    None
                },
            };
            match added {
                Some(d) => {
                    let v2 = GitDiffView { untracked: v.untracked + d, ..v };
                    let s = next_file_step(v2, null_device);
                    (
                        if s is Run {
                            GitDiffView { next: v2.next + 1, ..v2 }
                        } else {
                            GitDiffView { stage: GitDiffStage::Finished, ..v2 }
                        },
                        s,
                    )
                },
                None => (
                    fin,
                    match o {
                        OutcomeView::SpawnFailed(nf) => StepView::DoneIo(nf),
                        OutcomeView::Exited(..) => StepView::DoneFailed(
                            seq!["diff"@, "--color"@, "--no-index"@, "--"@, null_device, v.files[v.next - 1]],
                        ),
                    },
                ),
            }
        },
        GitDiffStage::Finished => (v, StepView::DoneOk(false, Seq::empty())),
    }
}

/// A diff computation in progress.
pub struct GitDiffRun {
    stage: GitDiffStage,
    worktree_diff: String,
    files: Vec<String>,
    next: usize,
    untracked: Vec<char>,
    null_device: String,
}

impl GitDiffRun {
    pub closed spec fn view(&self) -> GitDiffView {
        GitDiffView {
            stage: self.stage,
            worktree_diff: self.worktree_diff@,
            files: views(self.files@),
            next: self.next as int,
            untracked: self.untracked@,
        }
    }

    pub closed spec fn null_device(&self) -> Seq<char> {
        self.null_device@
    }

    pub closed spec fn wf(&self) -> bool {
        &&& self.next <= self.files@.len()
        &&& (self.stage == GitDiffStage::Untracked ==> self.next >= 1)
    }

    /// Start: first check that the directory is inside a work tree.
    pub fn start(null_device: String) -> (r: (GitDiffRun, GitDiffStep))
        ensures
            r.0.wf(),
            r.0.view().stage == GitDiffStage::CheckRepo,
            r.0.null_device() == null_device@,
            step_view(r.1) == StepView::Run(seq!["rev-parse"@, "--is-inside-work-tree"@]),
    {
        let run = GitDiffRun {
            stage: GitDiffStage::CheckRepo,
            worktree_diff: String::new(),
            files: Vec::new(),
            next: 0,
            untracked: Vec::new(),
            null_device,
        };
        (run, GitDiffStep::Run(check_repo_args()))
    }

    fn next_file(&mut self) -> (r: GitDiffStep)
        requires
            old(self).next <= old(self).files@.len(),
        ensures
            final(self).wf(),
            step_view(r) == next_file_step(old(self).view(), old(self).null_device()),
            final(self).null_device() == old(self).null_device(),
            final(self).view() == if step_view(r) is Run {
                GitDiffView { next: old(self).view().next + 1, ..old(self).view() }
            } else {
                GitDiffView { stage: GitDiffStage::Finished, ..old(self).view() }
            },
    {
        if self.next < self.files.len() {
            let args = unworktree_diff_args(self.null_device.as_str(), self.files[self.next].as_str());
            proof {
                assert(views(self.files@)[self.next as int] == self.files@[self.next as int]@);
            }
            self.next = self.next + 1;
            GitDiffStep::Run(args)
        } else {
            self.stage = GitDiffStage::Finished;
            let mut all: Vec<char> = crate::text::chars_of(self.worktree_diff.as_str());
            crate::text::push_chars(&mut all, &self.untracked);
            GitDiffStep::Done(Ok((true, string_from(&all))))
        }
    }

    /// Take the outcome of the command asked for and decide the next step.
    pub fn on_outcome(&mut self, outcome: GitOutcome) -> (r: GitDiffStep)
        requires
            old(self).wf(),
        ensures
            final(self).wf(),
            final(self).null_device() == old(self).null_device(),
            (final(self).view(), step_view(r)) == git_diff_step(
                old(self).view(),
                outcome_view(outcome),
                old(self).null_device(),
            ),
    {
        match self.stage {
            GitDiffStage::CheckRepo => {
                self.stage = GitDiffStage::Finished;
                match outcome {
                    GitOutcome::Exited { success, .. } => {
                        if success {
                            self.stage = GitDiffStage::WorktreeDiff;
                            GitDiffStep::Run(worktree_diff_args())
                        } else {
                            GitDiffStep::Done(Ok((false, String::new())))
                        }
                    },
                    GitOutcome::SpawnFailed { not_found, message } => {
                        if not_found {
                            GitDiffStep::Done(Ok((false, String::new())))
                        } else {
                            GitDiffStep::Done(Err(GitDiffError::Io { not_found, message }))
                        }
                    },
                }
            },
            GitDiffStage::WorktreeDiff => {
                self.stage = GitDiffStage::Finished;
                match outcome {
                    GitOutcome::Exited { success, code, stdout } => {
                        if success || code == Some(1i32) {
                            self.stage = GitDiffStage::ListUntracked;
                            self.worktree_diff = stdout;
                            GitDiffStep::Run(list_untracked_args())
                        } else {
                            GitDiffStep::Done(Err(GitDiffError::CommandFailed { args: worktree_diff_args() }))
                        }
                    },
                    GitOutcome::SpawnFailed { not_found, message } => {
                        GitDiffStep::Done(Err(GitDiffError::Io { not_found, message }))
                    },
                }
            },
            GitDiffStage::ListUntracked => {
                match outcome {
                    GitOutcome::Exited { success, stdout, .. } => {
                        if success {
                            self.stage = GitDiffStage::Untracked;
                            self.files = parse_untracked(stdout.as_str());
                            self.next = 0;
                            self.untracked = Vec::new();
                            assert(self.untracked@ =~= Seq::<char>::empty());
                            self.next_file()
                        } else {
                            self.stage = GitDiffStage::Finished;
                            GitDiffStep::Done(Err(GitDiffError::CommandFailed { args: list_untracked_args() }))
                        }
                    },
                    GitOutcome::SpawnFailed { not_found, message } => {
                        self.stage = GitDiffStage::Finished;
                        GitDiffStep::Done(Err(GitDiffError::Io { not_found, message }))
                    },
                }
            },
            GitDiffStage::Untracked => {
                match outcome {
                    GitOutcome::Exited { success, code, stdout } => {
                        if success || code == Some(1i32) {
                            let d = crate::text::chars_of(stdout.as_str());
                            crate::text::push_chars(&mut self.untracked, &d);
                            self.next_file()
                        } else {
                            self.stage = GitDiffStage::Finished;
                            let args = unworktree_diff_args(
                                self.null_device.as_str(),
                                self.files[self.next - 1].as_str(),
                            );
                            proof {
                                assert(views(self.files@)[self.next - 1] == self.files@[self.next - 1]@);
                            }
                            GitDiffStep::Done(Err(GitDiffError::CommandFailed { args }))
                        }
                    },
                    GitOutcome::SpawnFailed { not_found, message } => {
                        if not_found {
                            proof {
                                assert(self.untracked@ + Seq::<char>::empty() =~= self.untracked@);
                            }
                            self.next_file()
                        } else {
                            self.stage = GitDiffStage::Finished;
                            GitDiffStep::Done(Err(GitDiffError::Io { not_found, message }))
                        }
                    },
                }
            },
            GitDiffStage::Finished => GitDiffStep::Done(Ok((false, String::new()))),
        }
    }
}

} // verus!

verus! {

/// The outcomes, in order, fed to successive steps from state `v`: the
/// state after the last one and the last step.
pub open spec fn run_outcomes(v: GitDiffView, outs: Seq<OutcomeView>, null_device: Seq<char>) -> (
    GitDiffView,
    StepView,
)
    decreases outs.len(),
{
    if outs.len() <= 1 {
        git_diff_step(v, outs[0], null_device)
    } else {
        run_outcomes(git_diff_step(v, outs[0], null_device).0, outs.drop_first(), null_device)
    }
}

/// The diffs, one after the other.
pub open spec fn concat_all(ds: Seq<Seq<char>>) -> Seq<char>
    decreases ds.len(),
{
    if ds.len() == 0 {
        Seq::empty()
    } else {
        ds[0] + concat_all(ds.drop_first())
    }
}

/// A successful `git` run printing `out`.
pub open spec fn ok_exit(out: Seq<char>) -> OutcomeView {
    OutcomeView::Exited(true, Some(0i32), out)
}

proof fn lemma_untracked_diffs(v: GitDiffView, ds: Seq<Seq<char>>, null_device: Seq<char>)
    requires
        v.stage == GitDiffStage::Untracked,
        1 <= v.next <= v.files.len(),
        ds.len() == v.files.len() - v.next + 1,
    ensures
        run_outcomes(v, ds.map_values(|d: Seq<char>| ok_exit(d)), null_device).1 == StepView::DoneOk(
            true,
            v.worktree_diff + v.untracked + concat_all(ds),
        ),
    decreases ds.len(),
{
    let outs = ds.map_values(|d: Seq<char>| ok_exit(d));
    let v2 = GitDiffView { untracked: v.untracked + ds[0], ..v };
    assert(concat_all(ds) == ds[0] + concat_all(ds.drop_first()));
    assert(v.worktree_diff + v.untracked + concat_all(ds) =~= v.worktree_diff + v2.untracked + concat_all(
        ds.drop_first(),
    ));
    if ds.len() == 1 {
        assert(concat_all(ds.drop_first()) =~= Seq::<char>::empty());
        assert(v.worktree_diff + v2.untracked + Seq::<char>::empty() =~= v.worktree_diff + v2.untracked);
    } else {
        let v3 = GitDiffView { next: v2.next + 1, ..v2 };
        assert(git_diff_step(v, outs[0], null_device).0 == v3);
        assert(outs.drop_first() =~= ds.drop_first().map_values(|d: Seq<char>| ok_exit(d)));
        lemma_untracked_diffs(v3, ds.drop_first(), null_device);
    }
}

/// Inside a work tree, when every `git` command succeeds, the result is the
/// diff of tracked files followed by the diff of each untracked file listed
/// by `git ls-files`, in the order listed.
pub proof fn law_diff_is_worktree_then_untracked(
    v: GitDiffView,
    check_out: Seq<char>,
    worktree: Seq<char>,
    listing: Seq<char>,
    ds: Seq<Seq<char>>,
    null_device: Seq<char>,
)
    requires
        v.stage == GitDiffStage::CheckRepo,
        ds.len() == untracked_files(listing).len(),
    ensures
        run_outcomes(
            v,
            seq![ok_exit(check_out), ok_exit(worktree), ok_exit(listing)] + ds.map_values(
                |d: Seq<char>| ok_exit(d),
            ),
            null_device,
        ).1 == StepView::DoneOk(true, worktree + concat_all(ds)),
{
    let outs = seq![ok_exit(check_out), ok_exit(worktree), ok_exit(listing)] + ds.map_values(
        |d: Seq<char>| ok_exit(d),
    );
    let v1 = git_diff_step(v, outs[0], null_device).0;
    let v2 = git_diff_step(v1, outs[1], null_device).0;
    assert(outs.drop_first()[0] == outs[1]);
    assert(outs.drop_first().drop_first()[0] == outs[2]);
    let files = untracked_files(listing);
    let o1 = outs.drop_first();
    let o2 = o1.drop_first();
    assert(run_outcomes(v, outs, null_device) == run_outcomes(v1, o1, null_device));
    assert(v1.stage == GitDiffStage::WorktreeDiff);
    assert(v2.stage == GitDiffStage::ListUntracked && v2.worktree_diff == worktree);
    assert(run_outcomes(v1, o1, null_device) == run_outcomes(v2, o2, null_device));
    if ds.len() == 0 {
        assert(outs =~= seq![ok_exit(check_out), ok_exit(worktree), ok_exit(listing)]);
        assert(concat_all(ds) =~= Seq::<char>::empty());
        assert(worktree + Seq::<char>::empty() + Seq::<char>::empty() =~= worktree + concat_all(ds));
        assert(outs.drop_first().drop_first().len() == 1);
    } else {
        let v3 = git_diff_step(v2, outs[2], null_device).0;
        assert(o2.drop_first() =~= ds.map_values(|d: Seq<char>| ok_exit(d)));
        assert(run_outcomes(v2, o2, null_device) == run_outcomes(v3, o2.drop_first(), null_device));
        assert(v3.stage == GitDiffStage::Untracked && v3.next == 1 && v3.files == files);
        assert(v3.worktree_diff == worktree && v3.untracked == Seq::<char>::empty());
        lemma_untracked_diffs(v3, ds, null_device);
        assert(worktree + Seq::<char>::empty() + concat_all(ds) =~= worktree + concat_all(ds));
    }
}

/// Outside a work tree (the check fails, or `git` is not installed) the
/// result is `(false, "")` at once.
pub proof fn law_outside_repo_is_empty(v: GitDiffView, o: OutcomeView, null_device: Seq<char>)
    requires
        v.stage == GitDiffStage::CheckRepo,
        o matches OutcomeView::Exited(success, _, _) && !success || o == OutcomeView::SpawnFailed(true),
    ensures
        git_diff_step(v, o, null_device).1 == StepView::DoneOk(false, Seq::empty()),
{
}

/// An untracked file that vanished before its diff ran (not found) adds
/// nothing and the computation goes on as if its diff were empty.
pub proof fn law_vanished_file_skipped(v: GitDiffView, null_device: Seq<char>)
    requires
        v.stage == GitDiffStage::Untracked,
    ensures
        git_diff_step(v, OutcomeView::SpawnFailed(true), null_device) == git_diff_step(
            v,
            ok_exit(Seq::empty()),
            null_device,
        ),
{
}

} // verus!
