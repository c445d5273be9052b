//! All or nothing: what a batch does to the files of a filesystem that nobody else changes.

use vstd::prelude::*;

use crate::apply::{apply_next, lemma_apply_next_valid, ApplyStage, ApplyStep};
use crate::batch::{
    application_next, batch_failure, batch_next, batch_onward, batch_rolled, batch_start,
    journal_of, ApplicationView, BatchNext, BatchView,
};
use crate::error::ErrorKind;
use crate::file_system::{FsReply, FsRequest, Location};
use crate::mutation::{BatchLimits, FileMutationBatch};
use crate::path::{PathView, Place};
use crate::preflight::{
    is_checked_plan, is_fresh_target, preflight_next, preflight_start, PreflightNext, PreflightView,
};
use crate::rollback::{
    directory_next, entry_next, failed_paths, is_failure_of, noted, rollback_next, rollback_onward,
    CreatedDirectory, DirectoryStage, DirectoryStep, EntryStage, EntryStep, JournalEntry,
    OutcomeView, RollbackFailure, RollbackNext, RollbackStage, RollbackView,
};
use crate::snapshot::{snapshot_next, Snapshot, SnapshotStage, SnapshotStep};

verus! {

/// The files and directories of a filesystem, each at its place. No two places are the same file;
/// [`crate::aliases`] speaks of filesystems in which they may be.
#[verifier::ext_equal]
pub struct World {
    pub files: Map<Place, Seq<u8>>,
    pub directories: Set<Place>,
}

impl World {
    /// Whether no place is a file and a directory at once.
    pub open spec fn is_valid(self) -> bool {
        self.files.dom().disjoint(self.directories)
    }

    /// What the file at `place` holds; `None` is no file.
    pub open spec fn file_at(self, place: Place) -> Option<Seq<u8>> {
        if self.files.contains_key(place) {
            Some(self.files[place])
        } else {
            None
        }
    }
}

/// Whether the files are the same, but perhaps for the one at `place`.
pub open spec fn same_files_but(before: World, after: World, place: Place) -> bool {
    forall|other: Place| other != place ==> #[trigger] after.file_at(other) == before.file_at(other)
}

/// Whether `reply` and `after` are what a filesystem in the state `before` can make of `request`,
/// while nobody else changes anything. What it says of a file or a directory is true. Every request
/// may fail, and a failed write may leave anything behind at its own place.
pub open spec fn is_true_to(
    before: World,
    request: FsRequest<'static>,
    reply: FsReply,
    after: World,
) -> bool {
    let place = request.location().place();
    &&& request.is_answered_by(reply)
    &&& before.is_valid()
    &&& after.is_valid()
    &&& match request {
        FsRequest::GetMetadata { .. } => {
            &&& after == before
            &&& match reply {
                FsReply::Metadata(Ok(metadata)) => {
                    &&& metadata.is_file == before.files.contains_key(place)
                    &&& metadata.is_directory == before.directories.contains(place)
                },
                FsReply::Metadata(Err(error)) => error.kind == ErrorKind::NotFound ==> {
                    &&& !before.files.contains_key(place)
                    &&& !before.directories.contains(place)
                },
                _ => false,
            }
        },
        FsRequest::ReadFile { .. } => {
            &&& after == before
            &&& reply matches FsReply::Contents(Ok(contents)) ==> before.file_at(place) == Some(
                contents@,
            )
        },
        FsRequest::WriteFile { contents, .. } => {
            &&& same_files_but(before, after, place)
            &&& reply matches FsReply::Done(Ok(_)) ==> after.file_at(place) == Some(contents@)
        },
        FsRequest::Remove { .. } => {
            &&& same_files_but(before, after, place)
            &&& after.file_at(place) is None || after.file_at(place) == before.file_at(place)
            &&& reply matches FsReply::Done(Ok(_)) ==> after.file_at(place) is None
        },
        FsRequest::CreateDirectory { .. } => {
            forall|other: Place| #[trigger] after.file_at(other) == before.file_at(other)
        },
    }
}

/// Where a batch stands after `replies`, in order.
pub open spec fn batch_after(
    batch: FileMutationBatch,
    limits: BatchLimits,
    replies: Seq<FsReply>,
) -> BatchNext
    decreases replies.len(),
{
    if replies.len() == 0 {
        batch_start(batch, limits)
    } else {
        match batch_after(batch, limits, replies.drop_last()) {
            BatchNext::Pending(state) => batch_next(state, replies.last()),
            BatchNext::Done(outcome) => BatchNext::Done(outcome),
        }
    }
}

/// Whether `replies` are those of a filesystem that goes through `worlds` while the batch runs: the
/// first world is the one before the first request, and each reply leads to the next world.
pub open spec fn is_history(
    batch: FileMutationBatch,
    limits: BatchLimits,
    replies: Seq<FsReply>,
    worlds: Seq<World>,
) -> bool {
    &&& worlds.len() == replies.len() + 1
    &&& forall|k: int|
        0 <= k < replies.len() ==> {
            &&& batch_after(batch, limits, #[trigger] replies.take(k)) matches BatchNext::Pending(
                state,
            )
            &&& is_true_to(worlds[k], state.request(), replies[k], worlds[k + 1])
        }
}

/// The place of the file of mutation `index`.
pub open spec fn target(batch: FileMutationBatch, index: int) -> Place {
    batch.mutations@[index].path().place()
}

/// Whether one of the first `count` mutations has its file at `place`.
pub open spec fn is_target(batch: FileMutationBatch, count: int, place: Place) -> bool {
    exists|index: int| 0 <= index < count && #[trigger] target(batch, index) == place
}

/// Whether one of the paths names `place`.
pub open spec fn is_named(paths: Seq<PathView>, place: Place) -> bool {
    exists|k: int|
        0 <= k < paths.len() && (#[trigger] paths[k]).native is Ok && paths[k].native->Ok_0.place
            == place
}

/// Whether a batch with this outcome left the files as the outcome says.
pub open spec fn is_all_or_nothing(
    batch: FileMutationBatch,
    outcome: OutcomeView,
    start: World,
    end: World,
) -> bool {
    match outcome {
        OutcomeView::Committed => {
            &&& forall|index: int|
                0 <= index < batch.mutations@.len() ==> end.file_at(#[trigger] target(batch, index))
                    == batch.mutations@[index].after()
            &&& forall|place: Place|
                !is_target(batch, batch.mutations@.len() as int, place)
                    ==> #[trigger] end.file_at(place) == start.file_at(place)
        },
        OutcomeView::Rejected { .. } => end == start,
        OutcomeView::RolledBack { .. } => end.files == start.files,
        OutcomeView::Indeterminate { possibly_mutated_paths, .. } => forall|place: Place|
            #[trigger] end.file_at(place) != start.file_at(place) ==> is_named(
                possibly_mutated_paths,
                place,
            ),
    }
}

/// Whether `preimages` are what the files of the first mutations held in `world`.
spec fn are_seen(batch: FileMutationBatch, preimages: Seq<Snapshot>, world: World) -> bool {
    forall|index: int|
        0 <= index < preimages.len() ==> (#[trigger] preimages[index])@ == world.file_at(
            target(batch, index),
        )
}

/// Whether a file may still differ from what it held: its undoing is pending, or failed.
spec fn is_unsettled(state: RollbackView, place: Place) -> bool {
    ||| exists|i: int|
        0 <= i < state.journal.len() && target(
            state.batch,
            (#[trigger] state.journal[i]).mutation as int,
        ) == place
    ||| has_failed(state.batch, state.failures, place)
}

spec fn has_failed(
    batch: FileMutationBatch,
    failures: Seq<RollbackFailure>,
    place: Place,
) -> bool {
    exists|i: int|
        0 <= i < failures.len() && (#[trigger] failures[i] matches RollbackFailure::Entry {
            mutation,
            ..
        } && target(batch, mutation as int) == place)
}

/// How many mutations may have changed their files.
spec fn touched(state: ApplicationView) -> int {
    if state.stage is After {
        state.index + 1
    } else {
        state.index as int
    }
}

/// What holds of the world while a batch that started in `start` stands at `state`.
spec fn holds(state: BatchView, start: World, now: World) -> bool {
    &&& state.is_valid()
    &&& match state {
        BatchView::Checking(checks) => {
            &&& now == start
            &&& are_seen(checks.batch, checks.preimages, start)
        },
        BatchView::Applying(application) => {
            let batch = application.batch;
            &&& are_seen(batch, application.preimages, start)
            &&& forall|index: int|
                0 <= index < application.index ==> now.file_at(#[trigger] target(batch, index))
                    == batch.mutations@[index].after()
            &&& forall|place: Place|
                !is_target(batch, touched(application), place) ==> #[trigger] now.file_at(place)
                    == start.file_at(place)
        },
        BatchView::RollingBack(rollback) => {
            &&& are_seen(rollback.batch, rollback.preimages, start)
            &&& forall|place: Place|
                !is_unsettled(rollback, place) ==> #[trigger] now.file_at(place) == start.file_at(
                    place,
                )
            &&& rollback.stage == RollbackStage::Directory(DirectoryStage::Removing)
                ==> now.file_at(rollback.request().location().place()) is None
        },
    }
}

/// What holds of the world at `next`.
spec fn holds_next(
    batch: FileMutationBatch,
    next: BatchNext,
    start: World,
    now: World,
) -> bool {
    match next {
        BatchNext::Pending(state) => holds(state, start, now) && batch_of(state) == batch,
        BatchNext::Done(outcome) => is_all_or_nothing(batch, outcome, start, now),
    }
}

/// The batch that a state belongs to.
pub open spec fn batch_of(state: BatchView) -> FileMutationBatch {
    match state {
        BatchView::Checking(checks) => checks.batch,
        BatchView::Applying(application) => application.batch,
        BatchView::RollingBack(rollback) => rollback.batch,
    }
}

pub(crate) proof fn lemma_own_place(location: Location<'static>)
    requires
        location.levels == 0,
    ensures
        location.place() == location.path.place(),
{
    assert(location.place().names =~= location.path.place().names);
}

/// A snapshot changes nothing and shows what the file holds.
pub(crate) proof fn lemma_snapshot_true(
    stage: SnapshotStage,
    at: Location<'static>,
    follow_symlinks: bool,
    reply: FsReply,
    before: World,
    after: World,
)
    requires
        at.levels == 0,
        is_true_to(before, stage.request_spec(at, follow_symlinks), reply, after),
    ensures
        after == before,
        snapshot_next(stage, reply) matches SnapshotStep::Done(Ok(snapshot)) ==> snapshot@
            == before.file_at(at.path.place()),
{
    lemma_own_place(at);
}

proof fn lemma_same_files(one: World, other: World)
    requires
        forall|place: Place| #[trigger] one.file_at(place) == other.file_at(place),
    ensures
        one.files == other.files,
{
    assert forall|place: Place| one.files.dom().contains(place) == other.files.dom().contains(
        place,
    ) by {
        assert(one.file_at(place) == other.file_at(place));
    }
    assert(one.files.dom() =~= other.files.dom());
    assert forall|place: Place| #[trigger] one.files.dom().contains(place) implies one.files[place]
        == other.files[place] by {
        assert(one.file_at(place) == other.file_at(place));
    }
    assert(one.files =~= other.files);
}

/// The checks go on, or the mutations start.
proof fn lemma_checked(
    batch: FileMutationBatch,
    limits: BatchLimits,
    next: PreflightNext,
    start: World,
)
    requires
        match next {
            PreflightNext::Pending(checks) => checks.is_valid() && checks.batch == batch
                && are_seen(batch, checks.preimages, start),
            PreflightNext::Planned(preimages) => is_checked_plan(batch, preimages) && are_seen(
                batch,
                preimages,
                start,
            ),
            PreflightNext::Refused(_) => true,
        },
    ensures
        holds_next(batch, crate::batch::batch_checked(batch, limits, next), start, start),
{
    match next {
        PreflightNext::Planned(preimages) => {
            lemma_onward(batch, preimages, 0, Seq::empty(), start, start);
        },
        _ => {},
    }
}

/// The next mutation starts, or the batch is committed.
proof fn lemma_onward(
    batch: FileMutationBatch,
    preimages: Seq<Snapshot>,
    index: usize,
    created: Seq<CreatedDirectory>,
    start: World,
    now: World,
)
    requires
        is_checked_plan(batch, preimages),
        are_seen(batch, preimages, start),
        index <= batch.mutations@.len(),
        forall|i: int|
            0 <= i < created.len() ==> crate::rollback::is_directory_of(
                #[trigger] created[i],
                batch,
            ),
        forall|i: int|
            0 <= i < index ==> now.file_at(#[trigger] target(batch, i))
                == batch.mutations@[i].after(),
        forall|place: Place|
            !is_target(batch, index as int, place) ==> #[trigger] now.file_at(place)
                == start.file_at(place),
    ensures
        holds_next(batch, batch_onward(batch, preimages, index, created), start, now),
{
    if index < batch.mutations@.len() {
        assert(is_fresh_target(batch.mutations@, index as int));
    }
}

/// The checks take a reply into account.
proof fn lemma_checking(
    checks: PreflightView,
    reply: FsReply,
    start: World,
    after: World,
)
    requires
        holds(BatchView::Checking(checks), start, start),
        is_true_to(start, checks.request(), reply, after),
    ensures
        holds_next(
            checks.batch,
            batch_next(BatchView::Checking(checks), reply),
            start,
            after,
        ),
{
    let index = checks.preimages.len() as int;
    let path = checks.batch.mutations@[index].path();
    lemma_snapshot_true(
        checks.stage,
        Location { path: &path, levels: 0 },
        checks.batch.follow_symlinks,
        reply,
        start,
        after,
    );
    match snapshot_next(checks.stage, reply) {
        SnapshotStep::Done(Ok(preimage)) => {
            let preimages = checks.preimages.push(preimage);
            assert(are_seen(checks.batch, preimages, start));
            assert(preimages.drop_last() =~= checks.preimages);
            assert(is_fresh_target(checks.batch.mutations@, index));
        },
        _ => {},
    }
    lemma_checked(checks.batch, checks.limits, preflight_next(checks, reply), start);
}

/// The undoing goes on, or ends.
proof fn lemma_undoing_onward(state: RollbackView, start: World, now: World)
    requires
        state.is_consistent(),
        are_seen(state.batch, state.preimages, start),
        forall|place: Place|
            !is_unsettled(state, place) ==> #[trigger] now.file_at(place) == start.file_at(place),
    ensures
        holds_next(
            state.batch,
            batch_rolled(state.batch, state.cause, rollback_onward(state)),
            start,
            now,
        ),
{
    match rollback_onward(state) {
        RollbackNext::Pending(next) => {
            assert forall|place: Place| !is_unsettled(next, place) implies #[trigger] now.file_at(
                place,
            ) == start.file_at(place) by {
                if is_unsettled(state, place) {
                    assert(next.journal == state.journal && next.failures == state.failures);
                }
            }
        },
        RollbackNext::Done(failures) => {
            if failures.len() == 0 {
                lemma_same_files(now, start);
            } else {
                assert forall|place: Place| #[trigger] now.file_at(place) != start.file_at(
                    place,
                ) implies is_named(failed_paths(failures, state.batch), place) by {
                    assert(has_failed(state.batch, failures, place));
                    lemma_failed_is_named(state.batch, failures, place);
                }
            }
        },
    }
}

/// A file that could not be undone is among the paths that are named.
proof fn lemma_failed_is_named(
    batch: FileMutationBatch,
    failures: Seq<RollbackFailure>,
    place: Place,
)
    requires
        has_failed(batch, failures, place),
        forall|i: int|
            0 <= i < batch.mutations@.len() ==> is_fresh_target(batch.mutations@, i),
        forall|i: int|
            0 <= i < failures.len() ==> is_failure_of(#[trigger] failures[i], batch),
    ensures
        is_named(failed_paths(failures, batch), place),
    decreases failures.len(),
{
    let i = choose|i: int|
        0 <= i < failures.len() && (#[trigger] failures[i] matches RollbackFailure::Entry {
            mutation,
            ..
        } && target(batch, mutation as int) == place);
    let paths = failed_paths(failures, batch);
    let earlier = failed_paths(failures.drop_last(), batch);
    if i == failures.len() - 1 {
        let mutation = failures[i]->Entry_mutation as int;
        assert(is_fresh_target(batch.mutations@, mutation));
        assert(paths.last() == batch.mutations@[mutation].path()@);
        assert(paths[paths.len() - 1].native->Ok_0.place == place);
    } else {
        assert(failures.drop_last()[i] == failures[i]);
        lemma_failed_is_named(batch, failures.drop_last(), place);
        let k = choose|k: int|
            0 <= k < earlier.len() && (#[trigger] earlier[k]).native is Ok
                && earlier[k].native->Ok_0.place == place;
        assert(paths[k] == earlier[k]);
    }
}

/// A mutation takes a reply into account.
proof fn lemma_applying(
    state: ApplicationView,
    reply: FsReply,
    start: World,
    before: World,
    after: World,
)
    requires
        holds(BatchView::Applying(state), start, before),
        is_true_to(before, state.request(), reply, after),
    ensures
        holds_next(state.batch, application_next(state, reply), start, after),
{
    let batch = state.batch;
    let index = state.index as int;
    let mutation = batch.mutations@[index];
    let path = mutation.path();
    let at = Location { path: &path, levels: 0 };
    assert(is_fresh_target(batch.mutations@, index));
    assert(state.index < batch.mutations.len());
    lemma_apply_next_valid(mutation, state.preimages[index]@, state.stage, reply);
    lemma_own_place(at);
    assert(target(batch, index) == path.place());
    // Only the file of this mutation can have changed.
    assert(same_files_but(before, after, target(batch, index)));
    assert forall|i: int| 0 <= i < index implies after.file_at(#[trigger] target(batch, i))
        == batch.mutations@[i].after() by {
        assert(batch.mutations@[i].path().place() != path.place());
    }
    match state.stage {
        ApplyStage::Before(stage) => {
            lemma_snapshot_true(stage, at, batch.follow_symlinks, reply, before, after);
        },
        ApplyStage::After { snapshot, .. } => {
            lemma_snapshot_true(snapshot, at, batch.follow_symlinks, reply, before, after);
        },
        _ => {},
    }
    assert forall|place: Place| !is_target(batch, index + 1, place) implies #[trigger] after.file_at(
        place,
    ) == start.file_at(place) by {
        assert(target(batch, index) != place);
        if is_target(batch, index, place) {
            let i = choose|i: int| 0 <= i < index && #[trigger] target(batch, i) == place;
            assert(target(batch, i) == place);
        }
        if is_target(batch, touched(state), place) {
            let i = choose|i: int| 0 <= i < touched(state) && #[trigger] target(batch, i) == place;
            assert(target(batch, i) == place);
        }
    }
    if !(state.stage is Operating) && !(state.stage is After) {
        assert forall|place: Place| !is_target(batch, index, place) implies #[trigger] after.file_at(
            place,
        ) == start.file_at(place) by {
            assert(before.file_at(place) == start.file_at(place));
        }
    }
    match apply_next(mutation, state.preimages[index]@, state.stage, reply) {
        ApplyStep::Continue { stage, created } => {},
        ApplyStep::Done(Ok(observed)) => {
            lemma_onward(
                batch,
                state.preimages,
                (state.index + 1) as usize,
                state.created,
                start,
                after,
            );
        },
        ApplyStep::Done(Err(failure)) => {
            let journal = match failure.entry {
                Some(postimage) => journal_of(state.index as nat).push(
                    JournalEntry { mutation: state.index, postimage },
                ),
                None => journal_of(state.index as nat),
            };
            let undoing = RollbackView {
                batch,
                preimages: state.preimages,
                cause: batch_failure(batch, state.index, failure.error),
                journal,
                created: state.created,
                failures: Seq::empty(),
                stage: RollbackStage::Directory(DirectoryStage::Probing),
            };
            assert forall|place: Place| !is_unsettled(undoing, place) implies
                #[trigger] after.file_at(place) == start.file_at(place) by {
                if is_target(batch, index, place) {
                    let i = choose|i: int| 0 <= i < index && #[trigger] target(batch, i) == place;
                    assert(journal[i].mutation == i);
                }
                if place == target(batch, index) {
                    if failure.entry is Some {
                        assert(journal[index].mutation == index);
                    }
                } else if is_target(batch, index + 1, place) {
                    let i = choose|i: int|
                        0 <= i < index + 1 && #[trigger] target(batch, i) == place;
                    assert(is_target(batch, index, place));
                }
            }
            lemma_undoing_onward(undoing, start, after);
        },
    }
}

/// The undoing takes a reply into account.
proof fn lemma_rolling_back(
    state: RollbackView,
    reply: FsReply,
    start: World,
    before: World,
    after: World,
)
    requires
        holds(BatchView::RollingBack(state), start, before),
        is_true_to(before, state.request(), reply, after),
    ensures
        holds_next(
            state.batch,
            batch_rolled(state.batch, state.cause, rollback_next(state, reply)),
            start,
            after,
        ),
{
    match state.stage {
        RollbackStage::Entry(stage) => {
            let entry = state.journal.last();
            let index = entry.mutation as int;
            let mutation = state.batch.mutations@[index];
            let path = mutation.path();
            let at = Location { path: &path, levels: 0 };
            let preimage = state.preimages[index]@;
            let own = target(state.batch, index);
            lemma_own_place(at);
            assert(is_fresh_target(state.batch.mutations@, index));
            assert(preimage == start.file_at(own));
            match stage {
                EntryStage::Checking(snapshot) => {
                    lemma_snapshot_true(
                        snapshot,
                        at,
                        state.batch.follow_symlinks,
                        reply,
                        before,
                        after,
                    );
                },
                EntryStage::Verifying(snapshot) => {
                    lemma_snapshot_true(
                        snapshot,
                        at,
                        state.batch.follow_symlinks,
                        reply,
                        before,
                        after,
                    );
                },
                EntryStage::Undoing => {},
            }
            assert(same_files_but(before, after, own));
            assert(is_unsettled(state, own)) by {
                assert(state.journal[state.journal.len() - 1].mutation == index);
            }
            assert forall|place: Place| !is_unsettled(state, place) implies #[trigger] after.file_at(
                place,
            ) == start.file_at(place) by {
                assert(place != own);
                assert(before.file_at(place) == start.file_at(place));
            }
            let postimage = entry.postimage.image(mutation);
            match entry_next(preimage, postimage, stage, reply) {
                EntryStep::Continue(stage) => {
                    let next = RollbackView { stage: RollbackStage::Entry(stage), ..state };
                    assert forall|place: Place| !is_unsettled(next, place) implies
                        #[trigger] after.file_at(place) == start.file_at(place) by {
                        if is_unsettled(state, place) {
                            assert(next.journal == state.journal);
                        }
                    }
                },
                EntryStep::Done(result) => {
                    let failure = match result {
                        Ok(_) => None,
                        Err(error) => Some(
                            RollbackFailure::Entry { mutation: entry.mutation, error },
                        ),
                    };
                    let rest = RollbackView {
                        journal: state.journal.drop_last(),
                        failures: noted(state.failures, failure),
                        ..state
                    };
                    assert forall|place: Place| !is_unsettled(rest, place) implies
                        #[trigger] after.file_at(place) == start.file_at(place) by {
                        if failure is Some {
                            assert(rest.failures[rest.failures.len() - 1] == failure->0);
                        }
                        if is_unsettled(state, place) && place != own {
                            lemma_still_unsettled(state, rest, failure, place);
                        }
                    }
                    lemma_undoing_onward(rest, start, after);
                },
            }
        },
        RollbackStage::Directory(stage) => {
            let directory = state.created.last();
            assert forall|place: Place| #[trigger] after.file_at(place) == before.file_at(place) by {
            }
            match directory_next(directory.metadata, stage, reply) {
                DirectoryStep::Continue(stage) => {
                    let next = RollbackView { stage: RollbackStage::Directory(stage), ..state };
                    assert forall|place: Place| !is_unsettled(next, place) implies
                        #[trigger] after.file_at(place) == start.file_at(place) by {
                        if is_unsettled(state, place) {
                            assert(next.failures == state.failures);
                        }
                        assert(before.file_at(place) == after.file_at(place));
                    }
                },
                DirectoryStep::Done(result) => {
                    let failure = match result {
                        Ok(_) => None,
                        Err(error) => Some(RollbackFailure::Directory { directory, error }),
                    };
                    let rest = RollbackView {
                        created: state.created.drop_last(),
                        failures: noted(state.failures, failure),
                        ..state
                    };
                    assert forall|place: Place| !is_unsettled(rest, place) implies
                        #[trigger] after.file_at(place) == start.file_at(place) by {
                        if is_unsettled(state, place) {
                            let i = choose|i: int|
                                0 <= i < state.failures.len() && (
                                #[trigger] state.failures[i] matches RollbackFailure::Entry {
                                    mutation,
                                    ..
                                } && target(state.batch, mutation as int) == place);
                            assert(rest.failures[i] == state.failures[i]);
                        }
                        assert(before.file_at(place) == after.file_at(place));
                    }
                    lemma_undoing_onward(rest, start, after);
                },
            }
        },
    }
}

/// A file other than that of the last journal entry stays unsettled when the entry is dealt with.
proof fn lemma_still_unsettled(
    state: RollbackView,
    rest: RollbackView,
    failure: Option<RollbackFailure>,
    place: Place,
)
    requires
        is_unsettled(state, place),
        state.journal.len() > 0,
        target(state.batch, state.journal.last().mutation as int) != place,
        rest.batch == state.batch,
        rest.journal == state.journal.drop_last(),
        rest.failures == noted(state.failures, failure),
    ensures
        is_unsettled(rest, place),
{
    if has_failed(state.batch, state.failures, place) {
        let i = choose|i: int|
            0 <= i < state.failures.len() && (#[trigger] state.failures[i] matches
                RollbackFailure::Entry { mutation, .. } && target(state.batch, mutation as int)
                == place);
        assert(rest.failures[i] == state.failures[i]);
    } else {
        let i = choose|i: int|
            0 <= i < state.journal.len() && target(
                state.batch,
                (#[trigger] state.journal[i]).mutation as int,
            ) == place;
        assert(rest.journal[i] == state.journal[i]);
    }
}

/// A history without its last reply is one.
pub(crate) proof fn lemma_shorter_history(
    batch: FileMutationBatch,
    limits: BatchLimits,
    replies: Seq<FsReply>,
    worlds: Seq<World>,
)
    requires
        is_history(batch, limits, replies, worlds),
        replies.len() > 0,
    ensures
        is_history(batch, limits, replies.drop_last(), worlds.drop_last()),
        batch_after(batch, limits, replies.drop_last()) matches BatchNext::Pending(state)
            && is_true_to(
            worlds[replies.len() - 1],
            state.request(),
            replies.last(),
            worlds.last(),
        ),
{
    let earlier = replies.drop_last();
    let seen = worlds.drop_last();
    assert(earlier =~= replies.take(replies.len() - 1));
    assert forall|k: int| 0 <= k < earlier.len() implies {
        &&& batch_after(batch, limits, #[trigger] earlier.take(k)) matches BatchNext::Pending(state)
        &&& is_true_to(seen[k], state.request(), earlier[k], seen[k + 1])
    } by {
        assert(earlier.take(k) =~= replies.take(k));
    }
}

/// What holds goes on to hold after a reply.
proof fn lemma_step(state: BatchView, reply: FsReply, start: World, before: World, after: World)
    requires
        holds(state, start, before),
        is_true_to(before, state.request(), reply, after),
    ensures
        holds_next(batch_of(state), batch_next(state, reply), start, after),
{
    match state {
        BatchView::Checking(checks) => {
            lemma_checking(checks, reply, start, after);
        },
        BatchView::Applying(application) => {
            lemma_applying(application, reply, start, before, after);
        },
        BatchView::RollingBack(rollback) => {
            lemma_rolling_back(rollback, reply, start, before, after);
        },
    }
}

/// The invariant of a run, by induction on the replies.
proof fn lemma_run(
    batch: FileMutationBatch,
    limits: BatchLimits,
    replies: Seq<FsReply>,
    worlds: Seq<World>,
)
    requires
        is_history(batch, limits, replies, worlds),
    ensures
        holds_next(batch, batch_after(batch, limits, replies), worlds[0], worlds.last()),
    decreases replies.len(),
{
    let start = worlds[0];
    if replies.len() == 0 {
        assert(are_seen(batch, Seq::empty(), start));
        lemma_checked(batch, limits, preflight_start(batch, limits), start);
    } else {
        lemma_shorter_history(batch, limits, replies, worlds);
        lemma_run(batch, limits, replies.drop_last(), worlds.drop_last());
        let state = batch_after(batch, limits, replies.drop_last())->Pending_0;
        lemma_step(state, replies.last(), start, worlds[replies.len() - 1], worlds.last());
    }
}

/// A batch is all or nothing. On a filesystem that tells the truth and that nobody else changes,
/// whatever fails and whenever:
/// a committed batch leaves every file as its mutation intends and every other file as it was;
/// a rejected batch changes nothing;
/// a batch that was rolled back leaves every file as it was;
/// and every file that an indeterminate batch leaves changed is among the paths that it names.
pub proof fn law_batch_is_all_or_nothing(
    batch: FileMutationBatch,
    limits: BatchLimits,
    replies: Seq<FsReply>,
    worlds: Seq<World>,
    outcome: OutcomeView,
)
    requires
        is_history(batch, limits, replies, worlds),
        batch_after(batch, limits, replies) == BatchNext::Done(outcome),
    ensures
        is_all_or_nothing(batch, outcome, worlds[0], worlds.last()),
{
    lemma_run(batch, limits, replies, worlds);
}

/// Every state that a batch comes to is one of the same batch, and is valid.
pub proof fn law_reached_states_are_valid(
    batch: FileMutationBatch,
    limits: BatchLimits,
    replies: Seq<FsReply>,
    worlds: Seq<World>,
    state: BatchView,
)
    requires
        is_history(batch, limits, replies, worlds),
        batch_after(batch, limits, replies) == BatchNext::Pending(state),
    ensures
        state.is_valid(),
        batch_of(state) == batch,
{
    lemma_run(batch, limits, replies, worlds);
}

} // verus!
