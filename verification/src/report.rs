//! What is reported of a patch whose batch has been carried out.

use vstd::prelude::*;

use crate::error::{ErrorKind, IoError};
use crate::mutation::FileMutationBatchOutcome;
use crate::patch::{AffectedPaths, AffectedView, AppliedPatchDelta, DeltaView};
use crate::path::names;
use crate::rollback::OutcomeView;
use crate::text::{join, joined};

verus! {

/// A patch that was not applied.
#[derive(Debug)]
pub struct ApplyPatchFailure {
    pub message: String,
    /// What may have changed.
    pub delta: AppliedPatchDelta,
    /// Whether some of the files may have changed and others not.
    pub indeterminate: bool,
}

/// What an [`ApplyPatchFailure`] says.
pub struct FailureView {
    pub message: Seq<char>,
    pub delta: DeltaView,
    pub indeterminate: bool,
}

impl View for ApplyPatchFailure {
    type V = FailureView;

    open spec fn view(&self) -> FailureView {
        FailureView {
            message: self.message@,
            delta: self.delta@,
            indeterminate: self.indeterminate,
        }
    }
}

/// What a patch changed, for the way its batch ended. After a refusal and after an undoing nothing
/// has changed; where the state is not known everything may have, and the delta is not exact.
pub open spec fn conclusion(outcome: OutcomeView, delta: DeltaView) -> Result<
    DeltaView,
    FailureView,
> {
    let unchanged = DeltaView { exact: true, changes: Seq::empty() };
    match outcome {
        OutcomeView::Committed => Ok(delta),
        OutcomeView::Rejected { error } => Err(
            FailureView {
                message: "Filesystem mutations were rejected: "@ + error,
                delta: unchanged,
                indeterminate: false,
            },
        ),
        OutcomeView::RolledBack { error } => Err(
            FailureView {
                message: "Filesystem mutations were rolled back: "@ + error,
                delta: unchanged,
                indeterminate: false,
            },
        ),
        OutcomeView::Indeterminate { error, .. } => Err(
            FailureView {
                message: "Filesystem mutations left an indeterminate state: "@ + error,
                delta: DeltaView { exact: false, changes: delta.changes },
                indeterminate: true,
            },
        ),
    }
}

fn failure(prefix: &str, error: &String, delta: AppliedPatchDelta, indeterminate: bool) -> (failure:
    ApplyPatchFailure)
    ensures
        failure@ == (FailureView { message: prefix@ + error@, delta: delta@, indeterminate }),
{
    let mut message: String = prefix.to_owned();
    message.append(error.as_str());
    ApplyPatchFailure { message, delta, indeterminate }
}

/// What a patch changed, for the way its batch ended.
pub fn conclude_batch(
    outcome: &FileMutationBatchOutcome,
    delta: AppliedPatchDelta,
) -> (concluded: Result<AppliedPatchDelta, ApplyPatchFailure>)
    ensures
        match conclusion(outcome@, delta@) {
            Ok(applied) => concluded is Ok && concluded->Ok_0@ == applied,
            Err(failure) => concluded is Err && concluded->Err_0@ == failure,
        },
{
    match outcome {
        FileMutationBatchOutcome::Committed => Ok(delta),
        FileMutationBatchOutcome::Rejected { error } => Err(
            failure(
                "Filesystem mutations were rejected: ",
                error,
                AppliedPatchDelta::empty(),
                false,
            ),
        ),
        FileMutationBatchOutcome::RolledBack { error } => Err(
            failure(
                "Filesystem mutations were rolled back: ",
                error,
                AppliedPatchDelta::empty(),
                false,
            ),
        ),
        FileMutationBatchOutcome::Indeterminate { error, .. } => {
            let mut delta = delta;
            delta.exact = false;
            Err(
                failure(
                    "Filesystem mutations left an indeterminate state: ",
                    error,
                    delta,
                    true,
                ),
            )
        },
    }
}

/// Whether the files are to be changed one by one, since the filesystem takes no batches.
pub fn falls_back_to_sequential(error: &IoError) -> (falls_back: bool)
    ensures
        falls_back == (error.kind == ErrorKind::Unsupported),
{
    error.kind == ErrorKind::Unsupported
}

/// A line for each of the paths, with `mark` before it.
pub open spec fn marked_lines(mark: Seq<char>, paths: Seq<Seq<char>>) -> Seq<char>
    decreases paths.len(),
{
    if paths.len() == 0 {
        Seq::empty()
    } else {
        marked_lines(mark, paths.drop_last()) + joined(mark, paths.last(), "\n"@)
    }
}

/// The summary of a patch that was applied: the files that were added, modified and deleted.
pub open spec fn summary_text(affected: AffectedView) -> Seq<char> {
    "Success. Updated the following files:\n"@ + marked_lines("A "@, affected.added)
        + marked_lines("M "@, affected.modified) + marked_lines("D "@, affected.deleted)
}

fn append_lines(text: &mut String, mark: &str, paths: &Vec<String>)
    ensures
        final(text)@ == old(text)@ + marked_lines(mark@, names(paths@)),
{
    let ghost start = text@;
    let ghost all = names(paths@);
    let mut index: usize = 0;
    proof {
        assert(all.take(0) =~= Seq::<Seq<char>>::empty());
        assert(text@ =~= start + marked_lines(mark@, all.take(0)));
    }
    while index < paths.len()
        invariant
            index <= paths.len(),
            all == names(paths@),
            text@ == start + marked_lines(mark@, all.take(index as int)),
        decreases paths.len() - index,
    {
        let line = join(mark, paths[index].as_str(), "\n");
        text.append(line.as_str());
        proof {
            let longer = all.take(index + 1);
            assert(longer.drop_last() =~= all.take(index as int));
            assert(text@ =~= start + marked_lines(mark@, longer));
        }
        index = index + 1;
    }
    assert(all.take(index as int) =~= all);
}

/// Writes the summary of a patch that was applied.
pub fn print_summary(affected: &AffectedPaths) -> (text: String)
    ensures
        text@ == summary_text(affected@),
{
    let mut text: String = "Success. Updated the following files:\n".to_owned();
    append_lines(&mut text, "A ", &affected.added);
    append_lines(&mut text, "M ", &affected.modified);
    append_lines(&mut text, "D ", &affected.deleted);
    text
}

/// A patch is reported as applied where its batch was committed, and only there, with everything
/// that it changed. Otherwise it is reported that nothing changed, or, where that is not known, that
/// anything in the patch may have; and the error of the batch ends the message.
pub proof fn law_report_is_what_the_batch_did(outcome: OutcomeView, delta: DeltaView)
    ensures
        conclusion(outcome, delta) is Ok <==> outcome is Committed,
        conclusion(outcome, delta) matches Ok(applied) ==> applied == delta,
        conclusion(outcome, delta) matches Err(failure) ==> {
            &&& failure.indeterminate <==> outcome is Indeterminate
            &&& failure.delta.exact <==> !failure.indeterminate
            &&& failure.delta.changes == if failure.indeterminate {
                delta.changes
            } else {
                Seq::empty()
            }
            &&& match outcome {
                OutcomeView::Committed => false,
                OutcomeView::Rejected { error } => ends_with(failure.message, error),
                OutcomeView::RolledBack { error } => ends_with(failure.message, error),
                OutcomeView::Indeterminate { error, .. } => ends_with(failure.message, error),
            }
        },
{
    if let Err(failure) = conclusion(outcome, delta) {
        let error = match outcome {
            OutcomeView::Rejected { error } => error,
            OutcomeView::RolledBack { error } => error,
            OutcomeView::Indeterminate { error, .. } => error,
            OutcomeView::Committed => Seq::empty(),
        };
        assert(failure.message.skip(failure.message.len() - error.len()) =~= error);
    }
}

/// Whether `text` ends with `end`.
pub open spec fn ends_with(text: Seq<char>, end: Seq<char>) -> bool {
    text.len() >= end.len() && text.skip(text.len() - end.len()) == end
}

/// Whether `line` stands in `text` from `start` on.
pub open spec fn stands_at(text: Seq<char>, line: Seq<char>, start: int) -> bool {
    0 <= start <= start + line.len() <= text.len() && text.subrange(start, start + line.len())
        == line
}

/// Each of the paths has its line among those of all, and the lines of earlier paths come first.
proof fn lemma_lines(mark: Seq<char>, paths: Seq<Seq<char>>, index: int) -> (start: int)
    requires
        0 <= index < paths.len(),
    ensures
        stands_at(marked_lines(mark, paths), mark + paths[index] + "\n"@, start),
        start == marked_lines(mark, paths.take(index)).len(),
    decreases paths.len(),
{
    let earlier = paths.drop_last();
    let text = marked_lines(mark, paths);
    let line = mark + paths[index] + "\n"@;
    if index == paths.len() - 1 {
        let start = marked_lines(mark, earlier).len() as int;
        assert(paths.take(index) =~= earlier);
        assert(text.subrange(start, start + line.len()) =~= line);
        start
    } else {
        let start = lemma_lines(mark, earlier, index);
        assert(paths.take(index) =~= earlier.take(index));
        assert(text.subrange(start, start + line.len()) =~= marked_lines(mark, earlier).subrange(
            start,
            start + line.len(),
        ));
        start
    }
}

/// The summary has a line for every file, marked with what became of it.
pub proof fn law_summary_has_a_line_for_each_file(affected: AffectedView, index: int)
    ensures
        0 <= index < affected.added.len() ==> exists|start: int| #[trigger]
            stands_at(summary_text(affected), "A "@ + affected.added[index] + "\n"@, start),
        0 <= index < affected.modified.len() ==> exists|start: int| #[trigger]
            stands_at(summary_text(affected), "M "@ + affected.modified[index] + "\n"@, start),
        0 <= index < affected.deleted.len() ==> exists|start: int| #[trigger]
            stands_at(summary_text(affected), "D "@ + affected.deleted[index] + "\n"@, start),
{
    let text = summary_text(affected);
    let head = "Success. Updated the following files:\n"@;
    let added = marked_lines("A "@, affected.added);
    let modified = marked_lines("M "@, affected.modified);
    let deleted = marked_lines("D "@, affected.deleted);
    if 0 <= index < affected.added.len() {
        let line = "A "@ + affected.added[index] + "\n"@;
        let start = lemma_lines("A "@, affected.added, index);
        let from = head.len() + start;
        assert(text.subrange(from, from + line.len()) =~= added.subrange(
            start,
            start + line.len(),
        ));
        assert(stands_at(text, line, from));
    }
    if 0 <= index < affected.modified.len() {
        let line = "M "@ + affected.modified[index] + "\n"@;
        let start = lemma_lines("M "@, affected.modified, index);
        let from = head.len() + added.len() + start;
        assert(text.subrange(from, from + line.len()) =~= modified.subrange(
            start,
            start + line.len(),
        ));
        assert(stands_at(text, line, from));
    }
    if 0 <= index < affected.deleted.len() {
        let line = "D "@ + affected.deleted[index] + "\n"@;
        let start = lemma_lines("D "@, affected.deleted, index);
        let from = head.len() + added.len() + modified.len() + start;
        assert(text.subrange(from, from + line.len()) =~= deleted.subrange(
            start,
            start + line.len(),
        ));
        assert(stands_at(text, line, from));
    }
}

} // verus!
