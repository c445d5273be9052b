//! A batch that fails is undone, where the undoing is served.

use vstd::prelude::*;

use crate::apply::{apply_next, ApplyStage, ApplyStep};
use crate::atomicity::{
    batch_after, batch_of, is_history, is_true_to, law_batch_is_all_or_nothing,
    law_reached_states_are_valid, lemma_own_place, lemma_shorter_history, lemma_snapshot_true,
    target, World,
};
use crate::batch::{
    application_next, batch_checked, batch_failure, batch_next, batch_onward, batch_rolled,
    journal_of, ApplicationView, BatchNext, BatchView,
};
use crate::commitment::serves;
use crate::directories::keeps_directories;
use crate::file_system::{FsReply, Location};
use crate::mutation::{BatchLimits, FileMutationBatch};
use crate::preflight::{is_fresh_target, preflight_next, PreflightNext, PreflightView};
use crate::rollback::{
    directory_next, entry_next, noted, rollback_next, rollback_onward, CreatedDirectory,
    DirectoryStage, DirectoryStep, EntryStage, EntryStep, JournalEntry, OutcomeView, RollbackNext,
    RollbackStage, RollbackView,
};
use crate::snapshot::{snapshot_next, SnapshotStage, SnapshotStep};

verus! {

/// Whether no file of the batch is above another one.
pub open spec fn are_beside(batch: FileMutationBatch) -> bool {
    forall|index: int, levels: nat, other: int|
        #![trigger target(batch, index).up(levels), target(batch, other)]
        0 <= index < batch.mutations@.len() && 1 <= levels <= target(batch, index).names.len()
            && 0 <= other < batch.mutations@.len() ==> target(batch, other) != target(
            batch,
            index,
        ).up(levels)
}

/// Whether nothing that undoing asks for fails: what is there is shown and read, a directory as it
/// was when it was made; writes and removals take place. And what a mutation that failed has left
/// behind can be seen.
pub open spec fn serves_undoing(before: World, state: BatchView, reply: FsReply) -> bool {
    match state {
        BatchView::Checking(_) => true,
        BatchView::Applying(application) => application.stage matches ApplyStage::After {
            operation: Err(_),
            ..
        } ==> serves(before, state.request(), reply),
        BatchView::RollingBack(rollback) => {
            &&& serves(before, state.request(), reply)
            &&& reply matches FsReply::Done(done) ==> done is Ok
            &&& rollback.stage is Directory ==> (reply matches FsReply::Metadata(Ok(metadata))
                ==> metadata == rollback.created.last().metadata)
        },
    }
}

/// Whether the filesystem keeps its directories through the whole run of a batch, and serves all
/// that undoing asks for. Anything else may fail.
pub open spec fn is_undoing_served(
    batch: FileMutationBatch,
    limits: BatchLimits,
    replies: Seq<FsReply>,
    worlds: Seq<World>,
) -> bool {
    forall|k: int|
        0 <= k < replies.len() ==> {
            &&& batch_after(batch, limits, #[trigger] replies.take(k)) matches BatchNext::Pending(
                state,
            )
            &&& keeps_directories(worlds[k], state.request(), replies[k], worlds[k + 1])
            &&& serves_undoing(worlds[k], state, replies[k])
        }
}

/// Whether the first `count` files of the batch are no directories.
spec fn are_no_directories(batch: FileMutationBatch, count: int, now: World) -> bool {
    forall|index: int|
        0 <= index < count ==> !now.directories.contains(#[trigger] target(batch, index))
}

/// Whether what was made were directories.
spec fn are_directories(created: Seq<CreatedDirectory>) -> bool {
    forall|i: int|
        0 <= i < created.len() ==> (#[trigger] created[i]).metadata.is_directory
            && !created[i].metadata.is_symlink
}

/// Whether the journal is that of the first mutations, and each file holds what the journal says, or
/// what it held before.
spec fn is_journal_true(state: RollbackView, now: World) -> bool {
    forall|i: int|
        0 <= i < state.journal.len() ==> {
            let entry = #[trigger] state.journal[i];
            let current = now.file_at(target(state.batch, i));
            &&& entry.mutation == i
            &&& i < state.batch.mutations@.len()
            &&& current == state.preimages[i]@ || current == entry.postimage.image(
                state.batch.mutations@[i],
            )
        }
}

/// What holds of the world while a batch stands at `state`.
spec fn holds(state: BatchView, now: World) -> bool {
    let batch = batch_of(state);
    let count = batch.mutations@.len() as int;
    match state {
        BatchView::Checking(checks) => {
            &&& are_no_directories(batch, checks.preimages.len() as int, now)
            &&& checks.stage is Contents ==> !now.directories.contains(
                target(batch, checks.preimages.len() as int),
            )
        },
        BatchView::Applying(application) => {
            let own = target(batch, application.index as int);
            &&& are_no_directories(batch, count, now)
            &&& are_directories(application.created)
            &&& forall|i: int|
                0 <= i < application.index ==> now.file_at(#[trigger] target(batch, i))
                    == batch.mutations@[i].after()
            &&& application.stage matches ApplyStage::After { operation, snapshot } ==> {
                &&& operation is Ok ==> now.file_at(own) == batch.mutations@[
                    application.index as int].after()
                &&& snapshot is Contents ==> now.files.contains_key(own)
            }
        },
        BatchView::RollingBack(rollback) => {
            let own = target(batch, rollback.journal.len() - 1);
            &&& are_no_directories(batch, count, now)
            &&& are_directories(rollback.created)
            &&& rollback.failures.len() == 0
            &&& is_journal_true(rollback, now)
            &&& match rollback.stage {
                RollbackStage::Entry(EntryStage::Checking(snapshot)) => snapshot is Contents
                    ==> now.files.contains_key(own),
                RollbackStage::Entry(EntryStage::Undoing) => true,
                RollbackStage::Entry(EntryStage::Verifying(snapshot)) => {
                    &&& now.file_at(own) == rollback.preimages[rollback.journal.len() - 1]@
                    &&& snapshot is Contents ==> now.files.contains_key(own)
                },
                RollbackStage::Directory(DirectoryStage::Confirming) => {
                    let place = rollback.request().location().place();
                    !now.directories.contains(place) && !now.files.contains_key(place)
                },
                RollbackStage::Directory(_) => true,
            }
        },
    }
}

/// What holds of the world at `next`.
spec fn holds_next(next: BatchNext, now: World) -> bool {
    match next {
        BatchNext::Pending(state) => holds(state, now),
        BatchNext::Done(outcome) => !(outcome is Indeterminate),
    }
}

/// A look at a file that is served shows it.
pub(crate) proof fn lemma_look(
    stage: SnapshotStage,
    at: Location<'static>,
    follow_symlinks: bool,
    reply: FsReply,
    before: World,
    after: World,
)
    requires
        at.levels == 0,
        is_true_to(before, stage.request_spec(at, follow_symlinks), reply, after),
    ensures
        after == before,
        match snapshot_next(stage, reply) {
            SnapshotStep::Continue(next) => next is Contents && before.files.contains_key(
                at.path.place(),
            ),
            SnapshotStep::Done(Ok(snapshot)) => snapshot@ == before.file_at(at.path.place())
                && (stage is Metadata ==> !before.directories.contains(at.path.place())),
            SnapshotStep::Done(Err(_)) => serves(
                before,
                stage.request_spec(at, follow_symlinks),
                reply,
            ) && !before.directories.contains(at.path.place()) && (stage is Contents
                ==> before.files.contains_key(at.path.place())) ==> false,
        },
{
    lemma_own_place(at);
    lemma_snapshot_true(stage, at, follow_symlinks, reply, before, after);
}

/// The checks take a reply into account.
proof fn lemma_checking(checks: PreflightView, reply: FsReply, before: World, after: World)
    requires
        checks.is_valid(),
        holds(BatchView::Checking(checks), before),
        is_true_to(before, checks.request(), reply, after),
    ensures
        holds_next(batch_next(BatchView::Checking(checks), reply), after),
{
    let batch = checks.batch;
    let index = checks.preimages.len() as int;
    let path = batch.mutations@[index].path();
    let at = Location { path: &path, levels: 0 };
    lemma_look(checks.stage, at, batch.follow_symlinks, reply, before, after);
    assert(target(batch, index) == path.place());
    assert(checks.stage is Metadata && before.files.contains_key(path.place())
        ==> !before.directories.contains(path.place()));
    match preflight_next(checks, reply) {
        PreflightNext::Planned(preimages) => {
            assert(preimages.len() == index + 1);
            assert(preimages.len() == batch.mutations@.len());
            let next = batch_checked(batch, checks.limits, PreflightNext::Planned(preimages));
            if let BatchNext::Pending(state) = next {
                assert(holds(state, after));
            }
        },
        _ => {},
    }
}

/// The undoing goes on, or ends.
proof fn lemma_undoing_onward(state: RollbackView, now: World)
    requires
        are_no_directories(state.batch, state.batch.mutations@.len() as int, now),
        are_directories(state.created),
        state.failures.len() == 0,
        is_journal_true(state, now),
    ensures
        holds_next(batch_rolled(state.batch, state.cause, rollback_onward(state)), now),
{
    if let RollbackNext::Pending(next) = rollback_onward(state) {
        assert(is_journal_true(next, now)) by {
            assert forall|i: int| 0 <= i < next.journal.len() implies {
                let entry = #[trigger] next.journal[i];
                let current = now.file_at(target(next.batch, i));
                &&& entry.mutation == i
                &&& i < next.batch.mutations@.len()
                &&& current == next.preimages[i]@ || current == entry.postimage.image(
                    next.batch.mutations@[i],
                )
            } by {
                assert(next.journal[i] == state.journal[i]);
            }
        }
    }
}

/// What a mutation asks for makes no file of the batch a directory.
proof fn lemma_still_no_directories(
    state: ApplicationView,
    reply: FsReply,
    before: World,
    after: World,
)
    requires
        state.is_valid(),
        are_beside(state.batch),
        are_no_directories(state.batch, state.batch.mutations@.len() as int, before),
        keeps_directories(before, state.request(), reply, after),
    ensures
        are_no_directories(state.batch, state.batch.mutations@.len() as int, after),
{
    let batch = state.batch;
    if let ApplyStage::Parents(parents) = state.stage {
        let levels = parents.levels() as nat;
        assert(state.request().location().place() == target(batch, state.index as int).up(levels));
    }
    assert forall|index: int| 0 <= index < batch.mutations@.len() implies
        !after.directories.contains(#[trigger] target(batch, index)) by {
        assert(!before.directories.contains(target(batch, index)));
    }
}

/// A mutation takes a reply into account.
proof fn lemma_applying(
    state: ApplicationView,
    reply: FsReply,
    before: World,
    after: World,
)
    requires
        state.is_valid(),
        are_beside(state.batch),
        holds(BatchView::Applying(state), before),
        is_true_to(before, state.request(), reply, after),
        keeps_directories(before, state.request(), reply, after),
        serves_undoing(before, BatchView::Applying(state), reply),
    ensures
        holds_next(application_next(state, reply), after),
{
    let batch = state.batch;
    let index = state.index as int;
    let mutation = batch.mutations@[index];
    let path = mutation.path();
    let at = Location { path: &path, levels: 0 };
    let own = target(batch, index);
    lemma_own_place(at);
    lemma_still_no_directories(state, reply, before, after);
    assert(is_fresh_target(batch.mutations@, index));
    assert(state.index < batch.mutations.len());
    assert(!before.directories.contains(own));
    assert forall|i: int| 0 <= i < index implies after.file_at(#[trigger] target(batch, i))
        == batch.mutations@[i].after() by {
        assert(batch.mutations@[i].path().place() != path.place());
        assert(before.file_at(target(batch, i)) == batch.mutations@[i].after());
    }
    match state.stage {
        ApplyStage::Before(stage) => {
            lemma_look(stage, at, batch.follow_symlinks, reply, before, after);
        },
        ApplyStage::After { snapshot, .. } => {
            lemma_look(snapshot, at, batch.follow_symlinks, reply, before, after);
        },
        _ => {},
    }
    match apply_next(mutation, state.preimages[index]@, state.stage, reply) {
        ApplyStep::Continue { stage, created } => {
            let next = application_next(state, reply)->Pending_0->Applying_0;
            assert(are_directories(next.created)) by {
                assert forall|i: int| 0 <= i < next.created.len() implies (
                #[trigger] next.created[i]).metadata.is_directory
                    && !next.created[i].metadata.is_symlink by {
                    if i < state.created.len() {
                        assert(next.created[i] == state.created[i]);
                    }
                }
            }
        },
        ApplyStep::Done(Ok(observed)) => {
            let next = batch_onward(
                batch,
                state.preimages,
                (state.index + 1) as usize,
                state.created,
            );
            if let BatchNext::Pending(following) = next {
                assert(holds(following, after));
            }
        },
        ApplyStep::Done(Err(failure)) => {
            let journal = match failure.entry {
                Some(postimage) => journal_of(state.index as nat).push(
                    JournalEntry { mutation: state.index, postimage },
                ),
                None => journal_of(state.index as nat),
            };
            let undoing = RollbackView {
                batch,
                preimages: state.preimages,
                cause: batch_failure(batch, state.index, failure.error),
                journal,
                created: state.created,
                failures: Seq::empty(),
                stage: RollbackStage::Directory(DirectoryStage::Probing),
            };
            assert(is_journal_true(undoing, after)) by {
                assert forall|i: int| 0 <= i < journal.len() implies {
                    let entry = #[trigger] journal[i];
                    let current = after.file_at(target(batch, i));
                    &&& entry.mutation == i
                    &&& i < batch.mutations@.len()
                    &&& current == state.preimages[i]@ || current == entry.postimage.image(
                        batch.mutations@[i],
                    )
                } by {
                    if i < index {
                        assert(after.file_at(target(batch, i)) == batch.mutations@[i].after());
                    }
                }
            }
            lemma_undoing_onward(undoing, after);
        },
    }
}

/// The undoing of one mutation takes a reply into account.
proof fn lemma_undoing_entry(state: RollbackView, reply: FsReply, before: World, after: World)
    requires
        state.is_valid(),
        state.stage is Entry,
        holds(BatchView::RollingBack(state), before),
        is_true_to(before, state.request(), reply, after),
        keeps_directories(before, state.request(), reply, after),
        serves_undoing(before, BatchView::RollingBack(state), reply),
    ensures
        holds_next(batch_rolled(state.batch, state.cause, rollback_next(state, reply)), after),
{
    let stage = state.stage->Entry_0;
    let batch = state.batch;
    let last = state.journal.len() - 1;
    let entry = state.journal[last];
    let mutation = batch.mutations@[last];
    let path = mutation.path();
    let at = Location { path: &path, levels: 0 };
    let own = target(batch, last);
    lemma_own_place(at);
    assert(entry.mutation == last);
    assert(state.journal.last() == entry);
    assert(!before.directories.contains(own));
    match stage {
        EntryStage::Checking(snapshot) => {
            lemma_look(snapshot, at, batch.follow_symlinks, reply, before, after);
        },
        EntryStage::Verifying(snapshot) => {
            lemma_look(snapshot, at, batch.follow_symlinks, reply, before, after);
        },
        EntryStage::Undoing => {
            assert(after.file_at(own) == state.preimages[last]@);
        },
    }
    assert forall|i: int| 0 <= i < last implies after.file_at(#[trigger] target(batch, i))
        == before.file_at(target(batch, i)) by {
        assert(is_fresh_target(batch.mutations@, last));
        assert(state.journal[i].mutation == i);
        assert(batch.mutations@[i].path().place() != own);
    }
    assert forall|i: int| 0 <= i < state.journal.len() implies {
        let entry = #[trigger] state.journal[i];
        let current = after.file_at(target(batch, i));
        &&& entry.mutation == i
        &&& i < batch.mutations@.len()
        &&& current == state.preimages[i]@ || current == entry.postimage.image(
            batch.mutations@[i],
        )
    } by {
        if i < last {
            assert(after.file_at(target(batch, i)) == before.file_at(target(batch, i)));
        }
    }
    assert(are_no_directories(batch, batch.mutations@.len() as int, after)) by {
        assert forall|i: int| 0 <= i < batch.mutations@.len() implies
            !after.directories.contains(#[trigger] target(batch, i)) by {
            assert(!before.directories.contains(target(batch, i)));
        }
    }
    match entry_next(
        state.preimages[last]@,
        entry.postimage.image(mutation),
        stage,
        reply,
    ) {
        EntryStep::Continue(next) => {},
        EntryStep::Done(result) => {
            assert(result is Ok);
            let rest = RollbackView {
                journal: state.journal.drop_last(),
                failures: noted(state.failures, None),
                ..state
            };
            assert(is_journal_true(rest, after)) by {
                assert forall|i: int| 0 <= i < rest.journal.len() implies {
                    let entry = #[trigger] rest.journal[i];
                    let current = after.file_at(target(batch, i));
                    &&& entry.mutation == i
                    &&& i < batch.mutations@.len()
                    &&& current == state.preimages[i]@ || current == entry.postimage.image(
                        batch.mutations@[i],
                    )
                } by {
                    assert(rest.journal[i] == state.journal[i]);
                }
            }
            lemma_undoing_onward(rest, after);
        },
    }
}

/// The undoing of one directory takes a reply into account.
proof fn lemma_undoing_directory(state: RollbackView, reply: FsReply, before: World, after: World)
    requires
        state.is_valid(),
        state.stage is Directory,
        holds(BatchView::RollingBack(state), before),
        is_true_to(before, state.request(), reply, after),
        keeps_directories(before, state.request(), reply, after),
        serves_undoing(before, BatchView::RollingBack(state), reply),
    ensures
        holds_next(batch_rolled(state.batch, state.cause, rollback_next(state, reply)), after),
{
    let stage = state.stage->Directory_0;
    let batch = state.batch;
    let directory = state.created.last();
    assert(directory == state.created[state.created.len() - 1]);
    assert(are_no_directories(batch, batch.mutations@.len() as int, after)) by {
        assert forall|i: int| 0 <= i < batch.mutations@.len() implies
            !after.directories.contains(#[trigger] target(batch, i)) by {
            assert(!before.directories.contains(target(batch, i)));
        }
    }
    match directory_next(directory.metadata, stage, reply) {
        DirectoryStep::Continue(next) => {
            if next is Confirming {
                let place = state.request().location().place();
                assert(after.file_at(place) is None);
            }
        },
        DirectoryStep::Done(result) => {
            assert(result is Ok);
            let rest = RollbackView {
                created: state.created.drop_last(),
                failures: noted(state.failures, None),
                ..state
            };
            assert(are_directories(rest.created)) by {
                assert forall|i: int| 0 <= i < rest.created.len() implies (
                #[trigger] rest.created[i]).metadata.is_directory
                    && !rest.created[i].metadata.is_symlink by {
                    assert(rest.created[i] == state.created[i]);
                }
            }
            lemma_undoing_onward(rest, after);
        },
    }
}

/// A run without its last reply is one.
proof fn lemma_shorter(
    batch: FileMutationBatch,
    limits: BatchLimits,
    replies: Seq<FsReply>,
    worlds: Seq<World>,
)
    requires
        is_undoing_served(batch, limits, replies, worlds),
        worlds.len() == replies.len() + 1,
        replies.len() > 0,
    ensures
        is_undoing_served(batch, limits, replies.drop_last(), worlds.drop_last()),
{
    let earlier = replies.drop_last();
    let seen = worlds.drop_last();
    assert forall|k: int| 0 <= k < earlier.len() implies {
        &&& batch_after(batch, limits, #[trigger] earlier.take(k)) matches BatchNext::Pending(state)
        &&& keeps_directories(seen[k], state.request(), earlier[k], seen[k + 1])
        &&& serves_undoing(seen[k], state, earlier[k])
    } by {
        assert(earlier.take(k) =~= replies.take(k));
    }
}

/// The invariant of a run, by induction on the replies.
proof fn lemma_run(
    batch: FileMutationBatch,
    limits: BatchLimits,
    replies: Seq<FsReply>,
    worlds: Seq<World>,
)
    requires
        is_history(batch, limits, replies, worlds),
        is_undoing_served(batch, limits, replies, worlds),
        are_beside(batch),
    ensures
        holds_next(batch_after(batch, limits, replies), worlds.last()),
    decreases replies.len(),
{
    if replies.len() > 0 {
        let count = replies.len() - 1;
        let earlier = replies.drop_last();
        let seen = worlds.drop_last();
        lemma_shorter_history(batch, limits, replies, worlds);
        lemma_shorter(batch, limits, replies, worlds);
        lemma_run(batch, limits, earlier, seen);
        let before = worlds[count];
        let after = worlds[count + 1];
        assert(earlier =~= replies.take(count));
        if let BatchNext::Pending(state) = batch_after(batch, limits, earlier) {
            law_reached_states_are_valid(batch, limits, earlier, seen, state);
            match state {
                BatchView::Checking(checks) => {
                    lemma_checking(checks, replies.last(), before, after);
                },
                BatchView::Applying(application) => {
                    lemma_applying(application, replies.last(), before, after);
                },
                BatchView::RollingBack(rollback) => {
                    if rollback.stage is Entry {
                        lemma_undoing_entry(rollback, replies.last(), before, after);
                    } else {
                        lemma_undoing_directory(rollback, replies.last(), before, after);
                    }
                },
            }
        }
    }
}

/// A batch that fails is undone. Whatever fails while the mutations take place, and whatever a failed
/// write or removal leaves behind in its file: where that can be seen, and what undoing asks for does
/// not fail, on a filesystem that tells the truth, keeps its directories and is changed by nobody
/// else, the batch does not end in a state that is not known, and every file of a batch that was not
/// committed holds what it held.
///
/// No file of the batch is above another one: a directory that was made in place of a file which the
/// batch removed is in the way when that file is to be put back.
pub proof fn law_failed_batch_is_rolled_back(
    batch: FileMutationBatch,
    limits: BatchLimits,
    replies: Seq<FsReply>,
    worlds: Seq<World>,
    outcome: OutcomeView,
)
    requires
        is_history(batch, limits, replies, worlds),
        is_undoing_served(batch, limits, replies, worlds),
        are_beside(batch),
        batch_after(batch, limits, replies) == BatchNext::Done(outcome),
    ensures
        outcome is Committed || outcome is Rejected || outcome is RolledBack,
        !(outcome is Committed) ==> worlds.last().files == worlds[0].files,
{
    lemma_run(batch, limits, replies, worlds);
    law_batch_is_all_or_nothing(batch, limits, replies, worlds, outcome);
}

} // verus!
