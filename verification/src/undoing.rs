//! Each file of a batch that fails is undone on its own: what cannot be undone elsewhere does not
//! keep it from being put back. And why a batch was undone is told.

use vstd::prelude::*;

use crate::apply::{apply_next, ApplyStage, ApplyStep, MutationError};
use crate::atomicity::{
    batch_after, batch_of, is_history, is_named, is_true_to, law_batch_is_all_or_nothing,
    law_reached_states_are_valid, lemma_own_place, lemma_shorter_history, target, World,
};
use crate::batch::{
    application_next, batch_checked, batch_failure, batch_next, batch_onward, batch_rolled,
    journal_of, ApplicationView, BatchNext, BatchView,
};
use crate::commitment::serves;
use crate::directories::keeps_directories;
use crate::error::IoErrorView;
use crate::file_system::{FsReply, Location};
use crate::mutation::{BatchLimits, FileMutationBatch};
use crate::parents::ParentError;
use crate::path::PathUri;
use crate::preflight::{is_fresh_target, preflight_next, PreflightNext, PreflightView};
use crate::report::stands_at;
use crate::restoration::lemma_look;
use crate::rollback::{
    directory_next, entry_next, failed_paths, failure_messages, is_directory_of, is_failure_of,
    noted, rollback_error_message, rollback_next, rollback_onward, rollback_outcome, DirectoryStage,
    DirectoryStep, EntryStage, EntryStep, JournalEntry, OutcomeView, RollbackFailure, RollbackNext,
    RollbackStage, RollbackView,
};
use crate::snapshot::SnapshotError;
use crate::text::{decimal_text, joined, separated};

verus! {

/// Whether the file of mutation `index` is above no other file of the batch.
pub open spec fn is_beside(batch: FileMutationBatch, index: int) -> bool {
    forall|other: int, levels: nat|
        0 <= other < batch.mutations@.len() && 1 <= levels <= target(batch, other).names.len()
            ==> target(batch, index) != #[trigger] target(batch, other).up(levels)
}

/// Whether nothing fails that undoing asks for mutation `index`, and what a failure of that mutation
/// has left behind can be seen.
pub open spec fn serves_undoing_of(
    index: int,
    before: World,
    state: BatchView,
    reply: FsReply,
) -> bool {
    match state {
        BatchView::Checking(_) => true,
        BatchView::Applying(application) => application.index == index ==> (
        application.stage matches ApplyStage::After { operation: Err(_), .. } ==> serves(
            before,
            state.request(),
            reply,
        )),
        BatchView::RollingBack(rollback) => rollback.stage is Entry
            && rollback.journal.last().mutation == index ==> {
            &&& serves(before, state.request(), reply)
            &&& reply matches FsReply::Done(done) ==> done is Ok
        },
    }
}

/// Whether the filesystem keeps its directories through the whole run of a batch, and serves what
/// undoing asks for mutation `index`. Anything else may fail, in the undoing too.
pub open spec fn is_undoing_of_served(
    index: int,
    batch: FileMutationBatch,
    limits: BatchLimits,
    replies: Seq<FsReply>,
    worlds: Seq<World>,
) -> bool {
    forall|k: int|
        0 <= k < replies.len() ==> {
            &&& batch_after(batch, limits, #[trigger] replies.take(k)) matches BatchNext::Pending(
                state,
            )
            &&& keeps_directories(worlds[k], state.request(), replies[k], worlds[k + 1])
            &&& serves_undoing_of(index, worlds[k], state, replies[k])
        }
}

/// Whether the failures are of other things than mutation `index`.
spec fn are_of_others(failures: Seq<RollbackFailure>, index: int) -> bool {
    forall|i: int|
        0 <= i < failures.len() ==> (#[trigger] failures[i] matches RollbackFailure::Entry {
            mutation,
            ..
        } ==> mutation != index)
}

/// Whether the journal is that of the first mutations, and the file of mutation `index`, where it is
/// among them, holds what the journal says, or what it held before.
spec fn is_journal_true_of(index: int, state: RollbackView, now: World) -> bool {
    &&& forall|i: int| 0 <= i < state.journal.len() ==> (#[trigger] state.journal[i]).mutation == i
    &&& 0 <= index < state.journal.len() ==> {
        let current = now.file_at(target(state.batch, index));
        current == state.preimages[index]@ || current == state.journal[index].postimage.image(
            state.batch.mutations@[index],
        )
    }
}

/// What holds of the file of mutation `index` while a batch stands at `state`.
spec fn holds(index: int, state: BatchView, now: World) -> bool {
    let batch = batch_of(state);
    let own = target(batch, index);
    match state {
        BatchView::Checking(checks) => checks.preimages.len() > index || checks.preimages.len()
            == index && checks.stage is Contents ==> !now.directories.contains(own),
        BatchView::Applying(application) => {
            &&& !now.directories.contains(own)
            &&& application.index > index ==> now.file_at(own) == batch.mutations@[index].after()
            &&& application.index == index ==> (application.stage matches ApplyStage::After {
                operation,
                snapshot,
            } ==> {
                &&& operation is Ok ==> now.file_at(own) == batch.mutations@[index].after()
                &&& snapshot is Contents ==> now.files.contains_key(own)
            })
        },
        BatchView::RollingBack(rollback) => {
            &&& !now.directories.contains(own)
            &&& are_of_others(rollback.failures, index)
            &&& is_journal_true_of(index, rollback, now)
            &&& rollback.journal.len() - 1 == index ==> match rollback.stage {
                RollbackStage::Entry(EntryStage::Checking(snapshot)) => snapshot is Contents
                    ==> now.files.contains_key(own),
                RollbackStage::Entry(EntryStage::Verifying(snapshot)) => {
                    &&& now.file_at(own) == rollback.preimages[index]@
                    &&& snapshot is Contents ==> now.files.contains_key(own)
                },
                _ => true,
            }
        },
    }
}

/// What holds of the file of mutation `index` at `next`.
spec fn holds_next(index: int, batch: FileMutationBatch, next: BatchNext, now: World) -> bool {
    match next {
        BatchNext::Pending(state) => holds(index, state, now),
        BatchNext::Done(OutcomeView::Indeterminate { possibly_mutated_paths, .. }) => !is_named(
            possibly_mutated_paths,
            target(batch, index),
        ),
        BatchNext::Done(_) => true,
    }
}

/// Failures of others do not name the file of mutation `index`.
proof fn lemma_not_named(failures: Seq<RollbackFailure>, batch: FileMutationBatch, index: int)
    requires
        0 <= index < batch.mutations@.len(),
        are_of_others(failures, index),
        forall|i: int| 0 <= i < failures.len() ==> is_failure_of(#[trigger] failures[i], batch),
        forall|i: int|
            0 <= i < batch.mutations@.len() ==> #[trigger] is_fresh_target(batch.mutations@, i),
    ensures
        !is_named(failed_paths(failures, batch), target(batch, index)),
    decreases failures.len(),
{
    if failures.len() > 0 {
        let earlier = failures.drop_last();
        assert forall|i: int| 0 <= i < earlier.len() implies (
        #[trigger] earlier[i] matches RollbackFailure::Entry { mutation, .. } ==> mutation
            != index) && is_failure_of(earlier[i], batch) by {
            assert(earlier[i] == failures[i]);
        }
        lemma_not_named(earlier, batch, index);
        let last = failures[failures.len() - 1];
        assert(is_failure_of(last, batch));
        let paths = failed_paths(failures, batch);
        let named = failed_paths(earlier, batch);
        if let RollbackFailure::Entry { mutation, .. } = last {
            let other = mutation as int;
            assert(is_fresh_target(batch.mutations@, index));
            assert(is_fresh_target(batch.mutations@, other));
            assert(batch.mutations@[other].path().place() != batch.mutations@[index].path().place());
            assert(paths == named.push(batch.mutations@[other].path()@));
            if is_named(paths, target(batch, index)) {
                let k = choose|k: int|
                    0 <= k < paths.len() && (#[trigger] paths[k]).native is Ok
                        && paths[k].native->Ok_0.place == target(batch, index);
                if k < named.len() {
                    assert(named[k] == paths[k]);
                }
            }
        }
    }
}

/// The undoing goes on, or ends.
proof fn lemma_onward(index: int, state: RollbackView, now: World)
    requires
        0 <= index < state.batch.mutations@.len(),
        state.is_consistent(),
        !now.directories.contains(target(state.batch, index)),
        are_of_others(state.failures, index),
        is_journal_true_of(index, state, now),
    ensures
        holds_next(
            index,
            state.batch,
            batch_rolled(state.batch, state.cause, rollback_onward(state)),
            now,
        ),
{
    match rollback_onward(state) {
        RollbackNext::Pending(next) => {
            assert(next.journal == state.journal);
            assert(is_journal_true_of(index, next, now));
        },
        RollbackNext::Done(failures) => {
            lemma_not_named(failures, state.batch, index);
        },
    }
}

/// The checks take a reply into account.
proof fn lemma_checking(
    index: int,
    checks: PreflightView,
    reply: FsReply,
    before: World,
    after: World,
)
    requires
        0 <= index < checks.batch.mutations@.len(),
        checks.is_valid(),
        holds(index, BatchView::Checking(checks), before),
        is_true_to(before, checks.request(), reply, after),
    ensures
        holds_next(index, checks.batch, batch_next(BatchView::Checking(checks), reply), after),
{
    let batch = checks.batch;
    let count = checks.preimages.len() as int;
    let path = batch.mutations@[count].path();
    let at = Location { path: &path, levels: 0 };
    lemma_look(checks.stage, at, batch.follow_symlinks, reply, before, after);
    assert(target(batch, count) == path.place());
    assert(checks.stage is Metadata && before.files.contains_key(path.place())
        ==> !before.directories.contains(path.place()));
    if let PreflightNext::Planned(preimages) = preflight_next(checks, reply) {
        assert(preimages.len() == count + 1);
        assert(preimages.len() == batch.mutations@.len());
        let next = batch_checked(batch, checks.limits, PreflightNext::Planned(preimages));
        if let BatchNext::Pending(state) = next {
            assert(holds(index, state, after));
        }
    }
}

/// What a mutation asks for does not make the file of mutation `index` a directory.
proof fn lemma_no_directory(
    index: int,
    state: ApplicationView,
    reply: FsReply,
    before: World,
    after: World,
)
    requires
        0 <= index < state.batch.mutations@.len(),
        state.is_valid(),
        is_beside(state.batch, index),
        !before.directories.contains(target(state.batch, index)),
        keeps_directories(before, state.request(), reply, after),
    ensures
        !after.directories.contains(target(state.batch, index)),
{
    if let ApplyStage::Parents(parents) = state.stage {
        let levels = parents.levels() as nat;
        assert(state.request().location().place() == target(state.batch, state.index as int).up(
            levels,
        ));
    }
}

/// A mutation takes a reply into account.
proof fn lemma_applying(
    index: int,
    state: ApplicationView,
    reply: FsReply,
    before: World,
    after: World,
)
    requires
        0 <= index < state.batch.mutations@.len(),
        state.is_valid(),
        is_beside(state.batch, index),
        holds(index, BatchView::Applying(state), before),
        is_true_to(before, state.request(), reply, after),
        keeps_directories(before, state.request(), reply, after),
        serves_undoing_of(index, before, BatchView::Applying(state), reply),
    ensures
        holds_next(index, state.batch, application_next(state, reply), after),
{
    let batch = state.batch;
    let current = state.index as int;
    let mutation = batch.mutations@[current];
    let path = mutation.path();
    let at = Location { path: &path, levels: 0 };
    let own = target(batch, index);
    lemma_own_place(at);
    lemma_no_directory(index, state, reply, before, after);
    assert(is_fresh_target(batch.mutations@, current));
    assert(is_fresh_target(batch.mutations@, index));
    assert(state.index < batch.mutations.len());
    assert(index != current ==> batch.mutations@[index].path().place() != path.place());
    assert(index != current ==> after.file_at(own) == before.file_at(own));
    match state.stage {
        ApplyStage::Before(stage) => {
            lemma_look(stage, at, batch.follow_symlinks, reply, before, after);
        },
        ApplyStage::After { snapshot, .. } => {
            lemma_look(snapshot, at, batch.follow_symlinks, reply, before, after);
        },
        _ => {},
    }
    match apply_next(mutation, state.preimages[current]@, state.stage, reply) {
        ApplyStep::Continue { stage, created } => {},
        ApplyStep::Done(Ok(observed)) => {
            let next = batch_onward(
                batch,
                state.preimages,
                (state.index + 1) as usize,
                state.created,
            );
            if let BatchNext::Pending(following) = next {
                assert(holds(index, following, after));
            }
        },
        ApplyStep::Done(Err(failure)) => {
            let journal = match failure.entry {
                Some(postimage) => journal_of(state.index as nat).push(
                    JournalEntry { mutation: state.index, postimage },
                ),
                None => journal_of(state.index as nat),
            };
            let undoing = RollbackView {
                batch,
                preimages: state.preimages,
                cause: batch_failure(batch, state.index, failure.error),
                journal,
                created: state.created,
                failures: Seq::empty(),
                stage: RollbackStage::Directory(DirectoryStage::Probing),
            };
            assert(undoing.is_consistent());
            assert(is_journal_true_of(index, undoing, after));
            lemma_onward(index, undoing, after);
        },
    }
}

/// The undoing takes a reply into account.
proof fn lemma_undoing(
    index: int,
    state: RollbackView,
    reply: FsReply,
    before: World,
    after: World,
)
    requires
        0 <= index < state.batch.mutations@.len(),
        state.is_valid(),
        holds(index, BatchView::RollingBack(state), before),
        is_true_to(before, state.request(), reply, after),
        keeps_directories(before, state.request(), reply, after),
        serves_undoing_of(index, before, BatchView::RollingBack(state), reply),
    ensures
        holds_next(
            index,
            state.batch,
            batch_rolled(state.batch, state.cause, rollback_next(state, reply)),
            after,
        ),
{
    let batch = state.batch;
    let own = target(batch, index);
    assert(is_fresh_target(batch.mutations@, index));
    match state.stage {
        RollbackStage::Entry(stage) => {
            let last = state.journal.len() - 1;
            let entry = state.journal[last];
            let mutation = batch.mutations@[last];
            let path = mutation.path();
            let at = Location { path: &path, levels: 0 };
            assert(entry.mutation == last);
            assert(state.journal.last() == entry);
            lemma_own_place(at);
            assert(is_fresh_target(batch.mutations@, last));
            assert(index != last ==> batch.mutations@[index].path().place() != path.place());
            assert(index != last ==> after.file_at(own) == before.file_at(own));
            match stage {
                EntryStage::Checking(snapshot) => {
                    lemma_look(snapshot, at, batch.follow_symlinks, reply, before, after);
                },
                EntryStage::Verifying(snapshot) => {
                    lemma_look(snapshot, at, batch.follow_symlinks, reply, before, after);
                },
                EntryStage::Undoing => {},
            }
            let step = entry_next(
                state.preimages[last]@,
                entry.postimage.image(mutation),
                stage,
                reply,
            );
            if let EntryStep::Done(result) = step {
                assert(index == last ==> result is Ok);
                let failure = match result {
                    Ok(_) => None,
                    Err(error) => Some(RollbackFailure::Entry { mutation: entry.mutation, error }),
                };
                lemma_noted(index, state, failure);
                let rest = RollbackView {
                    journal: state.journal.drop_last(),
                    failures: noted(state.failures, failure),
                    ..state
                };
                assert forall|i: int| 0 <= i < rest.journal.len() implies (
                #[trigger] rest.journal[i]).mutation == i by {
                    assert(rest.journal[i] == state.journal[i]);
                }
                assert(is_journal_true_of(index, rest, after));
                lemma_onward(index, rest, after);
            }
        },
        RollbackStage::Directory(stage) => {
            let directory = state.created.last();
            assert(directory == state.created[state.created.len() - 1]);
            if let DirectoryStep::Done(result) = directory_next(directory.metadata, stage, reply) {
                let failure = match result {
                    Ok(_) => None,
                    Err(error) => Some(RollbackFailure::Directory { directory, error }),
                };
                lemma_noted(index, state, failure);
                let rest = RollbackView {
                    created: state.created.drop_last(),
                    failures: noted(state.failures, failure),
                    ..state
                };
                assert forall|i: int| 0 <= i < rest.created.len() implies
                    is_directory_of(#[trigger] rest.created[i], batch) by {
                    assert(rest.created[i] == state.created[i]);
                }
                lemma_onward(index, rest, after);
            }
        },
    }
}

/// One more failure of something else.
proof fn lemma_noted(index: int, state: RollbackView, failure: Option<RollbackFailure>)
    requires
        state.is_consistent(),
        are_of_others(state.failures, index),
        failure matches Some(failure) ==> is_failure_of(failure, state.batch) && (
        failure matches RollbackFailure::Entry { mutation, .. } ==> mutation != index),
    ensures
        are_of_others(noted(state.failures, failure), index),
        forall|i: int|
            0 <= i < noted(state.failures, failure).len() ==> is_failure_of(
                #[trigger] noted(state.failures, failure)[i],
                state.batch,
            ),
{
    let all = noted(state.failures, failure);
    assert forall|i: int| 0 <= i < all.len() implies is_failure_of(#[trigger] all[i], state.batch)
        && (all[i] matches RollbackFailure::Entry { mutation, .. } ==> mutation != index) by {
        if i < state.failures.len() {
            assert(all[i] == state.failures[i]);
        }
    }
}

/// A run without its last reply is one.
proof fn lemma_shorter(
    index: int,
    batch: FileMutationBatch,
    limits: BatchLimits,
    replies: Seq<FsReply>,
    worlds: Seq<World>,
)
    requires
        is_undoing_of_served(index, batch, limits, replies, worlds),
        worlds.len() == replies.len() + 1,
        replies.len() > 0,
    ensures
        is_undoing_of_served(index, batch, limits, replies.drop_last(), worlds.drop_last()),
{
    let earlier = replies.drop_last();
    let seen = worlds.drop_last();
    assert forall|k: int| 0 <= k < earlier.len() implies {
        &&& batch_after(batch, limits, #[trigger] earlier.take(k)) matches BatchNext::Pending(state)
        &&& keeps_directories(seen[k], state.request(), earlier[k], seen[k + 1])
        &&& serves_undoing_of(index, seen[k], state, earlier[k])
    } by {
        assert(earlier.take(k) =~= replies.take(k));
    }
}

/// The invariant of a run, by induction on the replies.
proof fn lemma_run(
    index: int,
    batch: FileMutationBatch,
    limits: BatchLimits,
    replies: Seq<FsReply>,
    worlds: Seq<World>,
)
    requires
        is_history(batch, limits, replies, worlds),
        is_undoing_of_served(index, batch, limits, replies, worlds),
        0 <= index < batch.mutations@.len(),
        is_beside(batch, index),
    ensures
        holds_next(index, batch, batch_after(batch, limits, replies), worlds.last()),
    decreases replies.len(),
{
    if replies.len() > 0 {
        let count = replies.len() - 1;
        let earlier = replies.drop_last();
        let seen = worlds.drop_last();
        lemma_shorter_history(batch, limits, replies, worlds);
        lemma_shorter(index, batch, limits, replies, worlds);
        lemma_run(index, batch, limits, earlier, seen);
        let before = worlds[count];
        let after = worlds[count + 1];
        assert(earlier =~= replies.take(count));
        if let BatchNext::Pending(state) = batch_after(batch, limits, earlier) {
            law_reached_states_are_valid(batch, limits, earlier, seen, state);
            match state {
                BatchView::Checking(checks) => {
                    lemma_checking(index, checks, replies.last(), before, after);
                },
                BatchView::Applying(application) => {
                    lemma_applying(index, application, replies.last(), before, after);
                },
                BatchView::RollingBack(rollback) => {
                    lemma_undoing(index, rollback, replies.last(), before, after);
                },
            }
        }
    }
}

/// A file of a batch that was not committed holds what it held, and is not said to be perhaps
/// changed, where what undoing asks for it does not fail, whatever else cannot be undone: one failure
/// does not end the undoing, and names no file but its own. On a filesystem that tells the truth,
/// keeps its directories and is changed by nobody else.
///
/// The file is above no other one of the batch: a directory that was made in its place would be in
/// the way when it is to be put back.
pub proof fn law_each_file_is_undone_on_its_own(
    index: int,
    batch: FileMutationBatch,
    limits: BatchLimits,
    replies: Seq<FsReply>,
    worlds: Seq<World>,
    outcome: OutcomeView,
)
    requires
        is_history(batch, limits, replies, worlds),
        is_undoing_of_served(index, batch, limits, replies, worlds),
        0 <= index < batch.mutations@.len(),
        is_beside(batch, index),
        batch_after(batch, limits, replies) == BatchNext::Done(outcome),
        !(outcome is Committed),
    ensures
        worlds.last().file_at(target(batch, index)) == worlds[0].file_at(target(batch, index)),
        outcome matches OutcomeView::Indeterminate { possibly_mutated_paths, .. } ==> !is_named(
            possibly_mutated_paths,
            target(batch, index),
        ),
{
    lemma_run(index, batch, limits, replies, worlds);
    law_batch_is_all_or_nothing(batch, limits, replies, worlds, outcome);
}

/// Whether `text` begins with `start`.
pub open spec fn begins_with(text: Seq<char>, start: Seq<char>) -> bool {
    text.len() >= start.len() && text.take(start.len() as int) == start
}

/// What is said of a mutation of `path` that failed with `error`.
pub open spec fn reason(error: MutationError, path: PathUri) -> Seq<char> {
    match error {
        MutationError::Io(error) => error.message@,
        MutationError::Parent(ParentError::Io(error)) => error.message@,
        MutationError::Parent(ParentError::NotADirectory { levels }) => "parent `"@
            + path.native->Ok_0@.text(levels as nat) + "` is not a directory"@,
        MutationError::Parent(ParentError::Unstable { levels }) => "created parent `"@
            + path.native->Ok_0@.text(levels as nat) + "` is not a stable directory"@,
        MutationError::Snapshot(SnapshotError::Io(error)) => error.message@,
        MutationError::Snapshot(SnapshotError::NotRegularFile) => "`"@ + path.display@
            + "` is not a regular file"@,
        MutationError::PreimageChanged => "preimage changed for `"@ + path.display@
            + "` before mutation"@,
        MutationError::PostimageChanged => "postimage changed for `"@ + path.display@ + "`"@,
    }
}

/// Whether the reply at `step` made a mutation fail, and `message` says which one and why.
pub open spec fn is_cause_at(
    batch: FileMutationBatch,
    limits: BatchLimits,
    replies: Seq<FsReply>,
    step: int,
    message: Seq<char>,
) -> bool {
    &&& 0 <= step < replies.len()
    &&& batch_after(batch, limits, replies.take(step)) matches BatchNext::Pending(
        BatchView::Applying(application),
    )
    &&& {
        let index = application.index as int;
        let mutation = batch.mutations@[index];
        &&& apply_next(
            mutation,
            application.preimages[index]@,
            application.stage,
            replies[step],
        ) matches ApplyStep::Done(Err(failure))
        &&& message == "filesystem mutation "@ + decimal_text(index as nat) + " for `"@
            + mutation.path().display@ + "` failed: "@ + reason(failure.error, mutation.path())
    }
}

/// Whether a mutation failed, and `message` says which one and why.
pub open spec fn is_cause(
    batch: FileMutationBatch,
    limits: BatchLimits,
    replies: Seq<FsReply>,
    message: Seq<char>,
) -> bool {
    exists|step: int| #[trigger] is_cause_at(batch, limits, replies, step, message)
}

/// What is said of a batch that was undone is why, whatever comes after it.
spec fn is_told(
    batch: FileMutationBatch,
    limits: BatchLimits,
    replies: Seq<FsReply>,
    next: BatchNext,
) -> bool {
    match next {
        BatchNext::Pending(BatchView::RollingBack(rollback)) => is_cause(
            batch,
            limits,
            replies,
            rollback.cause.message,
        ),
        BatchNext::Pending(_) => true,
        BatchNext::Done(OutcomeView::RolledBack { error }) => is_cause(
            batch,
            limits,
            replies,
            error,
        ),
        BatchNext::Done(OutcomeView::Indeterminate { error, .. }) => exists|cause: Seq<char>|
            begins_with(error, cause) && #[trigger] is_cause(batch, limits, replies, cause),
        BatchNext::Done(_) => true,
    }
}

proof fn lemma_told(
    batch: FileMutationBatch,
    limits: BatchLimits,
    replies: Seq<FsReply>,
    worlds: Seq<World>,
)
    requires
        is_history(batch, limits, replies, worlds),
    ensures
        is_told(batch, limits, replies, batch_after(batch, limits, replies)),
    decreases replies.len(),
{
    if replies.len() > 0 {
        let last = replies.len() - 1;
        let earlier = replies.drop_last();
        lemma_shorter_history(batch, limits, replies, worlds);
        lemma_told(batch, limits, earlier, worlds.drop_last());
        assert(earlier =~= replies.take(last));
        if let BatchNext::Pending(state) = batch_after(batch, limits, earlier) {
            law_reached_states_are_valid(batch, limits, earlier, worlds.drop_last(), state);
            match state {
                BatchView::Checking(_) => {},
                BatchView::Applying(application) => {
                    let index = application.index as int;
                    let step = apply_next(
                        batch.mutations@[index],
                        application.preimages[index]@,
                        application.stage,
                        replies[last],
                    );
                    if let ApplyStep::Done(Err(failure)) = step {
                        let cause = batch_failure(batch, application.index, failure.error);
                        assert(cause.message =~= "filesystem mutation "@ + decimal_text(
                            index as nat,
                        ) + " for `"@ + batch.mutations@[index].path().display@ + "` failed: "@
                            + reason(failure.error, batch.mutations@[index].path()));
                        assert(is_cause_at(batch, limits, replies, last, cause.message));
                        lemma_begins(batch, limits, replies, cause.message);
                    }
                },
                BatchView::RollingBack(rollback) => {
                    let cause = rollback.cause.message;
                    let step = choose|step: int| #[trigger]
                        is_cause_at(batch, limits, earlier, step, cause);
                    assert(earlier.take(step) =~= replies.take(step));
                    assert(is_cause_at(batch, limits, replies, step, cause));
                    lemma_begins(batch, limits, replies, cause);
                },
            }
        }
    }
}

/// What is said of a batch that could not be undone begins with the cause.
proof fn lemma_begins(
    batch: FileMutationBatch,
    limits: BatchLimits,
    replies: Seq<FsReply>,
    cause: Seq<char>,
)
    requires
        is_cause(batch, limits, replies, cause),
    ensures
        forall|failure: IoErrorView, failures: Seq<RollbackFailure>|
            failure.message == cause ==> is_told(
                batch,
                limits,
                replies,
                BatchNext::Done(#[trigger] rollback_outcome(batch, failure, failures)),
            ),
{
    assert forall|failure: IoErrorView, failures: Seq<RollbackFailure>|
        failure.message == cause implies is_told(
        batch,
        limits,
        replies,
        BatchNext::Done(#[trigger] rollback_outcome(batch, failure, failures)),
    ) by {
        if let OutcomeView::Indeterminate { error, .. } = rollback_outcome(
            batch,
            failure,
            failures,
        ) {
            assert(error.take(cause.len() as int) =~= cause);
            assert(begins_with(error, cause) && is_cause(batch, limits, replies, cause));
        }
    }
}

/// A batch is undone only after a mutation of it failed, and what is said of it is which one and why;
/// where it could not be undone, that comes first.
pub proof fn law_undone_batch_tells_why(
    batch: FileMutationBatch,
    limits: BatchLimits,
    replies: Seq<FsReply>,
    worlds: Seq<World>,
    outcome: OutcomeView,
)
    requires
        is_history(batch, limits, replies, worlds),
        batch_after(batch, limits, replies) == BatchNext::Done(outcome),
    ensures
        outcome matches OutcomeView::RolledBack { error } ==> is_cause(
            batch,
            limits,
            replies,
            error,
        ),
        outcome matches OutcomeView::Indeterminate { error, .. } ==> exists|cause: Seq<char>|
            begins_with(error, cause) && #[trigger] is_cause(batch, limits, replies, cause),
{
    lemma_told(batch, limits, replies, worlds);
}

/// What is said of a file or a directory that could not be undone.
pub open spec fn undoing_reason(failure: RollbackFailure, batch: FileMutationBatch) -> Seq<char> {
    match failure {
        RollbackFailure::Entry { mutation, error } => {
            let display = batch.mutations@[mutation as int].path().display@;
            "failed to roll back `"@ + display + "`: "@ + rollback_error_message(error, display)
        },
        RollbackFailure::Directory { directory, error } => {
            let path = batch.mutations@[directory.mutation as int].path().native->Ok_0@;
            let display = path.text(directory.levels as nat);
            "failed to roll back created directory `"@ + display + "`: "@ + rollback_error_message(
                error,
                display,
            )
        },
    }
}

/// Each of the pieces stands in their separated text.
proof fn lemma_piece(pieces: Seq<Seq<char>>, separator: Seq<char>, index: int) -> (start: int)
    requires
        0 <= index < pieces.len(),
    ensures
        stands_at(separated(pieces, separator), pieces[index], start),
    decreases pieces.len(),
{
    let text = separated(pieces, separator);
    let piece = pieces[index];
    let earlier = pieces.drop_last();
    if pieces.len() == 1 {
        assert(text.subrange(0, piece.len() as int) =~= piece);
        0
    } else if index == pieces.len() - 1 {
        let start = (separated(earlier, separator).len() + separator.len()) as int;
        assert(text.subrange(start, start + piece.len()) =~= piece);
        start
    } else {
        let start = lemma_piece(earlier, separator, index);
        assert(text.subrange(start, start + piece.len()) =~= separated(
            earlier,
            separator,
        ).subrange(start, start + piece.len()));
        start
    }
}

/// A batch of which something could not be undone ends in a state that is not known, and only such a
/// batch; what is said of it holds what is said of each such thing, and it names the files among
/// them.
pub proof fn law_everything_not_undone_is_told(
    batch: FileMutationBatch,
    cause: IoErrorView,
    failures: Seq<RollbackFailure>,
    index: int,
)
    requires
        0 <= index < failures.len(),
    ensures
        rollback_outcome(batch, cause, failures) matches OutcomeView::Indeterminate {
            error,
            possibly_mutated_paths,
        } && {
            &&& exists|start: int| #[trigger]
                stands_at(error, undoing_reason(failures[index], batch), start)
            &&& failures[index] matches RollbackFailure::Entry { mutation, .. }
                ==> possibly_mutated_paths.contains(batch.mutations@[mutation as int].path()@)
        },
{
    let messages = failure_messages(failures, batch);
    let all = separated(messages, "; "@);
    let piece = undoing_reason(failures[index], batch);
    assert(messages[index] =~= piece);
    let start = lemma_piece(messages, "; "@, index);
    let error = joined(cause.message, "; "@, all);
    let from = cause.message.len() + "; "@.len() + start;
    assert(error.subrange(from, from + piece.len()) =~= all.subrange(
        start,
        start + piece.len(),
    ));
    assert(stands_at(error, piece, from));
    lemma_failed_path(batch, failures, index);
    let outcome = rollback_outcome(batch, cause, failures);
    assert(outcome->Indeterminate_error == error);
    assert(outcome->possibly_mutated_paths == failed_paths(failures, batch));
}

proof fn lemma_failed_path(batch: FileMutationBatch, failures: Seq<RollbackFailure>, index: int)
    requires
        0 <= index < failures.len(),
    ensures
        failures[index] matches RollbackFailure::Entry { mutation, .. } ==> failed_paths(
            failures,
            batch,
        ).contains(batch.mutations@[mutation as int].path()@),
    decreases failures.len(),
{
    let earlier = failures.drop_last();
    let named = failed_paths(earlier, batch);
    let paths = failed_paths(failures, batch);
    if let RollbackFailure::Entry { mutation, .. } = failures[index] {
        let path = batch.mutations@[mutation as int].path()@;
        if index == failures.len() - 1 {
            assert(paths == named.push(path));
            assert(paths[named.len() as int] == path);
        } else {
            lemma_failed_path(batch, earlier, index);
            assert(earlier[index] == failures[index]);
            let k = choose|k: int| 0 <= k < named.len() && named[k] == path;
            assert(paths[k] == path);
        }
    }
}

} // verus!
