//! Moving the files of photo groups to the trash: which files are asked
//! for, in which order, and what is reported of the batch. Removing a file
//! is the caller's part; the run is told what became of each file.

use crate::group::{PhotoGroupInfo, PhotoGroupView};
use crate::text::{holds, join_lines, joined, lemma_holds_part};
use vstd::prelude::*;
use vstd::string::*;

verus! {

/// What became of one file that was to be moved to the trash.
#[derive(Debug, Clone, PartialEq, Eq)]
pub enum TrashOutcome {
    /// No file was there any more.
    Missing,
    /// The file is in the trash.
    Moved,
    /// The file could not be moved; with the cause.
    Failed(String),
}

/// What a [`TrashOutcome`] holds, as mathematical values.
pub enum TrashOutcomeView {
    Missing,
    Moved,
    Failed(Seq<char>),
}

impl View for TrashOutcome {
    type V = TrashOutcomeView;

    open spec fn view(&self) -> TrashOutcomeView {
        match self {
            TrashOutcome::Missing => TrashOutcomeView::Missing,
            TrashOutcome::Moved => TrashOutcomeView::Moved,
            TrashOutcome::Failed(cause) => TrashOutcomeView::Failed(cause@),
        }
    }
}

/// A batch of files on their way to the trash: the paths to deal with, how
/// many of them have been dealt with, the paths that were moved, and the
/// messages of the failures.
#[derive(Debug, Clone, PartialEq, Eq)]
pub struct TrashRun {
    pub targets: Vec<String>,
    pub cursor: usize,
    pub moved: Vec<String>,
    pub failed: Vec<String>,
}

/// What a [`TrashRun`] holds, as mathematical values.
pub struct TrashRunView {
    pub targets: Seq<Seq<char>>,
    pub cursor: nat,
    pub moved: Seq<Seq<char>>,
    pub failed: Seq<Seq<char>>,
}

impl View for TrashRun {
    type V = TrashRunView;

    open spec fn view(&self) -> TrashRunView {
        TrashRunView {
            targets: self.targets.deep_view(),
            cursor: self.cursor as nat,
            moved: self.moved.deep_view(),
            failed: self.failed.deep_view(),
        }
    }
}

/// The paths of the files of all of `groups`, group by group.
pub open spec fn all_member_paths(groups: Seq<PhotoGroupView>) -> Seq<Seq<char>>
    decreases groups.len(),
{
    if groups.len() == 0 {
        seq![]
    } else {
        all_member_paths(groups.drop_last()) + groups.last().member_paths()
    }
}

/// The message of the failure to move the file at `path`.
pub open spec fn trash_failure(path: Seq<char>, cause: Seq<char>) -> Seq<char> {
    "Failed to move "@ + path + " to trash: "@ + cause
}

/// The message of a batch in which files could not be moved.
pub open spec fn trash_errors(failed: Seq<Seq<char>>) -> Seq<char> {
    "Some files failed to move to trash:\n"@ + joined(failed)
}

impl TrashRunView {
    /// The run at its start.
    pub open spec fn start(targets: Seq<Seq<char>>) -> TrashRunView {
        TrashRunView { targets: targets, cursor: 0, moved: seq![], failed: seq![] }
    }

    /// The path to deal with next, while one is left.
    pub open spec fn pending(self) -> Option<Seq<char>> {
        if self.cursor < self.targets.len() {
            Some(self.targets[self.cursor as int])
        } else {
            None
        }
    }

    /// The run after it was told what became of the pending file. A file
    /// that was not there is passed over; a file that was moved is listed;
    /// a failure is noted with its message. With no file pending nothing
    /// changes.
    pub open spec fn record(self, outcome: TrashOutcomeView) -> TrashRunView {
        match self.pending() {
            None => self,
            Some(path) => match outcome {
                TrashOutcomeView::Missing => TrashRunView { cursor: self.cursor + 1, ..self },
                TrashOutcomeView::Moved => TrashRunView {
                    cursor: self.cursor + 1,
                    moved: self.moved.push(path),
                    ..self
                },
                TrashOutcomeView::Failed(cause) => TrashRunView {
                    cursor: self.cursor + 1,
                    failed: self.failed.push(trash_failure(path, cause)),
                    ..self
                },
            },
        }
    }

    /// The run after it was told what became of one file after the other.
    pub open spec fn replay(self, outcomes: Seq<TrashOutcomeView>) -> TrashRunView
        decreases outcomes.len(),
    {
        if outcomes.len() == 0 {
            self
        } else {
            self.replay(outcomes.drop_last()).record(outcomes.last())
        }
    }

    /// What the batch reports: the paths that were moved, or, where a file
    /// could not be moved, the messages of all failures in one.
    pub open spec fn report(self) -> Result<Seq<Seq<char>>, Seq<char>> {
        if self.failed.len() > 0 {
            Err(trash_errors(self.failed))
        } else {
            Ok(self.moved)
        }
    }
}

/// The outcome of a batch as mathematical values.
pub open spec fn report_view(report: Result<Vec<String>, String>) -> Result<
    Seq<Seq<char>>,
    Seq<char>,
> {
    match report {
        Ok(lines) => Ok(lines.deep_view()),
        Err(message) => Err(message@),
    }
}

/// Plans the move of all files of `groups` to the trash: of each group the
/// JPEG file, then the RAW file, as far as the group has them.
pub fn move_to_trash(groups: &Vec<PhotoGroupInfo>) -> (run: TrashRun)
    ensures
        run@ == TrashRunView::start(all_member_paths(groups.deep_view())),
{
    let mut targets: Vec<String> = Vec::new();
    let mut i: usize = 0;
    assert(groups.deep_view().take(0) =~= seq![]);
    assert(targets.deep_view() =~= seq![]);
    while i < groups.len()
        invariant
            i <= groups.len(),
            targets.deep_view() == all_member_paths(groups.deep_view().take(i as int)),
        decreases groups.len() - i,
    {
        let ghost before = targets.deep_view();
        let ghost group = groups.deep_view()[i as int];
        assert(groups.deep_view().take(i + 1).drop_last() =~= groups.deep_view().take(i as int));
        assert(groups.deep_view().take(i + 1).last() == group);
        match &groups[i].jpg {
            Some(file) => {
                targets.push(file.path.clone());
            },
            None => {},
        }
        match &groups[i].raw {
            Some(file) => {
                targets.push(file.path.clone());
            },
            None => {},
        }
        assert(targets.deep_view() =~= before + group.member_paths());
        i = i + 1;
    }
    assert(groups.deep_view().take(groups.len() as int) =~= groups.deep_view());
    let run = TrashRun { targets: targets, cursor: 0, moved: Vec::new(), failed: Vec::new() };
    assert(run.moved.deep_view() =~= seq![]);
    assert(run.failed.deep_view() =~= seq![]);
    run
}

impl TrashRun {
    /// The path of the file to deal with next, while one is left.
    pub fn pending(&self) -> (path: Option<&String>)
        ensures
            path.deep_view() == self@.pending(),
    {
        if self.cursor < self.targets.len() {
            Some(&self.targets[self.cursor])
        } else {
            None
        }
    }

    /// Tells the run what became of the pending file.
    pub fn record(&mut self, outcome: TrashOutcome)
        ensures
            final(self)@ == old(self)@.record(outcome@),
    {
        if self.cursor >= self.targets.len() {
            return ;
        }
        let ghost before = self@;
        match outcome {
            TrashOutcome::Missing => {},
            TrashOutcome::Moved => {
                let path = self.targets[self.cursor].clone();
                self.moved.push(path);
                assert(self.moved.deep_view() =~= before.moved.push(before.pending()->0));
            },
            TrashOutcome::Failed(cause) => {
                let mut message = String::from_str("Failed to move ");
                message.append(self.targets[self.cursor].as_str());
                message.append(" to trash: ");
                message.append(cause.as_str());
                self.failed.push(message);
                assert(self.failed.deep_view() =~= before.failed.push(
                    trash_failure(before.pending()->0, cause@),
                ));
            },
        }
        self.cursor = self.cursor + 1;
    }

    /// Reports the batch: the paths that were moved, or, where a file could
    /// not be moved, the messages of all failures in one. Files that were
    /// moved stay in the trash either way.
    pub fn finish(self) -> (report: Result<Vec<String>, String>)
        ensures
            report_view(report) == self@.report(),
    {
        if self.failed.len() > 0 {
            let mut message = String::from_str("Some files failed to move to trash:\n");
            let lines = join_lines(&self.failed);
            message.append(lines.as_str());
            Err(message)
        } else {
            Ok(self.moved)
        }
    }
}

/// A file that was not there is passed over: it is no failure, and it is
/// not reported as moved.
pub proof fn law_missing_is_no_failure(run: TrashRunView)
    ensures
        run.record(TrashOutcomeView::Missing).failed == run.failed,
        run.record(TrashOutcomeView::Missing).moved == run.moved,
        run.record(TrashOutcomeView::Missing).report() == run.report(),
{
}

/// What was noted stays noted: a file that was moved is listed whatever
/// becomes of the files after it, a failure is never forgotten, and a batch
/// that has failed does not recover.
pub proof fn law_moved_stays_moved(run: TrashRunView, outcomes: Seq<TrashOutcomeView>)
    ensures
        run.moved.is_prefix_of(run.replay(outcomes).moved),
        run.failed.is_prefix_of(run.replay(outcomes).failed),
        run.report() is Err ==> run.replay(outcomes).report() is Err,
    decreases outcomes.len(),
{
    if outcomes.len() > 0 {
        law_moved_stays_moved(run, outcomes.drop_last());
    }
}

/// A batch that is told what became of its files one after the other fails
/// if and only if one of them could not be moved. Files that were not there
/// do not count.
pub proof fn law_batch_fails_on_failure(targets: Seq<Seq<char>>, outcomes: Seq<TrashOutcomeView>)
    requires
        outcomes.len() <= targets.len(),
    ensures
        TrashRunView::start(targets).replay(outcomes).report() is Err <==> exists|i: int|
            0 <= i < outcomes.len() && #[trigger] outcomes[i] is Failed,
{
    lemma_replay_cursor(TrashRunView::start(targets), outcomes);
    lemma_replay_failures(TrashRunView::start(targets), outcomes);
}

/// The paths among the first of `targets` whose outcome is that they were
/// moved, in their order.
pub open spec fn moved_among(targets: Seq<Seq<char>>, outcomes: Seq<TrashOutcomeView>) -> Seq<
    Seq<char>,
>
    recommends
        outcomes.len() <= targets.len(),
    decreases outcomes.len(),
{
    if outcomes.len() == 0 {
        seq![]
    } else {
        let earlier = moved_among(targets, outcomes.drop_last());
        match outcomes.last() {
            TrashOutcomeView::Moved => earlier.push(targets[outcomes.len() - 1]),
            _ => earlier,
        }
    }
}

/// The messages of the failures among the first of `targets`, in their
/// order.
pub open spec fn failures_among(targets: Seq<Seq<char>>, outcomes: Seq<TrashOutcomeView>) -> Seq<
    Seq<char>,
>
    recommends
        outcomes.len() <= targets.len(),
    decreases outcomes.len(),
{
    if outcomes.len() == 0 {
        seq![]
    } else {
        let earlier = failures_among(targets, outcomes.drop_last());
        match outcomes.last() {
            TrashOutcomeView::Failed(cause) => earlier.push(
                trash_failure(targets[outcomes.len() - 1], cause),
            ),
            _ => earlier,
        }
    }
}

/// A batch that is told what became of each of its files has dealt with all
/// of them, lists exactly the files that were moved, and notes exactly the
/// failures, each in the order of the files.
pub proof fn law_batch_accounts_for_every_file(
    targets: Seq<Seq<char>>,
    outcomes: Seq<TrashOutcomeView>,
)
    requires
        outcomes.len() <= targets.len(),
    ensures
        TrashRunView::start(targets).replay(outcomes).cursor == outcomes.len(),
        TrashRunView::start(targets).replay(outcomes).moved == moved_among(targets, outcomes),
        TrashRunView::start(targets).replay(outcomes).failed == failures_among(targets, outcomes),
        outcomes.len() == targets.len() ==> TrashRunView::start(targets).replay(
            outcomes,
        ).pending() is None,
    decreases outcomes.len(),
{
    lemma_replay_cursor(TrashRunView::start(targets), outcomes);
    if outcomes.len() > 0 {
        law_batch_accounts_for_every_file(targets, outcomes.drop_last());
        lemma_replay_cursor(TrashRunView::start(targets), outcomes.drop_last());
    }
}

/// Every outcome moves a run with enough targets on by one file.
proof fn lemma_replay_cursor(run: TrashRunView, outcomes: Seq<TrashOutcomeView>)
    requires
        run.cursor + outcomes.len() <= run.targets.len(),
    ensures
        run.replay(outcomes).cursor == run.cursor + outcomes.len(),
        run.replay(outcomes).targets == run.targets,
    decreases outcomes.len(),
{
    if outcomes.len() > 0 {
        lemma_replay_cursor(run, outcomes.drop_last());
    }
}

/// A run with enough targets notes a failure for every outcome that is one.
proof fn lemma_replay_failures(run: TrashRunView, outcomes: Seq<TrashOutcomeView>)
    requires
        run.cursor + outcomes.len() <= run.targets.len(),
    ensures
        run.replay(outcomes).failed.len() > run.failed.len() <==> exists|i: int|
            0 <= i < outcomes.len() && #[trigger] outcomes[i] is Failed,
        run.replay(outcomes).failed.len() >= run.failed.len(),
    decreases outcomes.len(),
{
    if outcomes.len() > 0 {
        let earlier = outcomes.drop_last();
        lemma_replay_cursor(run, earlier);
        lemma_replay_failures(run, earlier);
        if exists|i: int| 0 <= i < earlier.len() && #[trigger] earlier[i] is Failed {
            let i = choose|i: int| 0 <= i < earlier.len() && #[trigger] earlier[i] is Failed;
            assert(outcomes[i] is Failed);
        }
        if exists|i: int| 0 <= i < outcomes.len() && #[trigger] outcomes[i] is Failed {
            let i = choose|i: int| 0 <= i < outcomes.len() && #[trigger] outcomes[i] is Failed;
            if i < earlier.len() {
                assert(earlier[i] is Failed);
            }
        }
    }
}

/// A failure of the file system always carries the offending path and the
/// cause: the message of a file that could not be moved holds both.
pub proof fn law_trash_failure_names_path_and_cause(path: Seq<char>, cause: Seq<char>)
    ensures
        holds(trash_failure(path, cause), path),
        holds(trash_failure(path, cause), cause),
{
    let what = "Failed to move "@;
    let to = " to trash: "@;
    lemma_holds_part(what, path, to + cause);
    assert(what + path + (to + cause) =~= trash_failure(path, cause));
    lemma_holds_part(what + path + to, cause, seq![]);
    assert(what + path + to + cause + seq![] =~= trash_failure(path, cause));
}

} // verus!
