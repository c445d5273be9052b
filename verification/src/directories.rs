//! The directories that a batch makes on its way, and what becomes of them when it is undone.

use vstd::prelude::*;

use crate::apply::{apply_next, ApplyStage, ApplyStep};
use crate::atomicity::{
    batch_after, is_history, is_true_to, law_reached_states_are_valid, lemma_own_place,
    lemma_shorter_history, lemma_snapshot_true, World,
};
use crate::batch::{
    application_next, batch_failure, batch_rolled, journal_of, ApplicationView, BatchNext,
    BatchView,
};
use crate::file_system::{FsReply, FsRequest, Location};
use crate::mutation::{BatchLimits, FileMutationBatch};
use crate::parents::ParentStage;
use crate::path::Place;
use crate::preflight::is_fresh_target;
use crate::rollback::{
    directory_next, entry_next, noted, rollback_next, rollback_onward, CreatedDirectory,
    DirectoryStage, DirectoryStep, EntryStage, EntryStep, JournalEntry, OutcomeView,
    RollbackFailure, RollbackNext, RollbackStage, RollbackView,
};

verus! {

/// Whether the filesystem does with directories what it is asked to, and nothing else: a directory
/// that it says it made is there and was not; one that it says it removed is gone.
pub open spec fn keeps_directories(
    before: World,
    request: FsRequest<'static>,
    reply: FsReply,
    after: World,
) -> bool {
    let place = request.location().place();
    match request {
        FsRequest::CreateDirectory { .. } => if reply->Done_0 is Ok {
            &&& !before.directories.contains(place)
            &&& after.directories == before.directories.insert(place)
        } else {
            after.directories == before.directories
        },
        FsRequest::Remove { .. } => {
            ||| after.directories == before.directories.remove(place)
            ||| reply->Done_0 is Err && after.directories == before.directories
        },
        _ => after.directories == before.directories,
    }
}

/// Whether a look at a directory that was just made shows it.
pub open spec fn shows_made(state: BatchView, reply: FsReply) -> bool {
    state matches BatchView::Applying(application)
        ==> application.stage matches ApplyStage::Parents(ParentStage::Confirming { .. })
        ==> reply matches FsReply::Metadata(Ok(metadata)) && !metadata.is_symlink
}

/// Whether the filesystem keeps its directories through the whole run of a batch, and shows those
/// that it has just made.
pub open spec fn is_orderly(
    batch: FileMutationBatch,
    limits: BatchLimits,
    replies: Seq<FsReply>,
    worlds: Seq<World>,
) -> bool {
    forall|k: int|
        0 <= k < replies.len() ==> {
            &&& batch_after(batch, limits, #[trigger] replies.take(k)) matches BatchNext::Pending(
                state,
            )
            &&& keeps_directories(worlds[k], state.request(), replies[k], worlds[k + 1])
            &&& shows_made(state, replies[k])
        }
}

/// The place of a directory that was made.
pub open spec fn place_of(batch: FileMutationBatch, directory: CreatedDirectory) -> Place {
    batch.mutations@[directory.mutation as int].path().place().up(directory.levels as nat)
}

/// Whether `place` is one of those that were made.
spec fn is_made(
    batch: FileMutationBatch,
    created: Seq<CreatedDirectory>,
    place: Place,
) -> bool {
    exists|i: int| 0 <= i < created.len() && place_of(batch, #[trigger] created[i]) == place
}

/// Whether the directories that were made are different, and none was there at the start.
spec fn are_new(
    batch: FileMutationBatch,
    created: Seq<CreatedDirectory>,
    start: World,
) -> bool {
    &&& forall|i: int|
        0 <= i < created.len() ==> !start.directories.contains(
            place_of(batch, #[trigger] created[i]),
        )
    &&& forall|i: int, j: int|
        0 <= i < j < created.len() ==> place_of(batch, #[trigger] created[i]) != place_of(
            batch,
            #[trigger] created[j],
        )
}

/// Whether the directories are those at the start and those that were made.
spec fn are_made(
    batch: FileMutationBatch,
    created: Seq<CreatedDirectory>,
    start: World,
    now: World,
) -> bool {
    forall|place: Place| #[trigger]
        now.directories.contains(place) == (start.directories.contains(place) || is_made(
            batch,
            created,
            place,
        ))
}

/// The directory that the application has made and not yet taken down.
spec fn pending_place(state: ApplicationView) -> Option<Place> {
    match state.stage {
        ApplyStage::Parents(ParentStage::Confirming { levels }) => Some(
            state.batch.mutations@[state.index as int].path().place().up(levels as nat),
        ),
        _ => None,
    }
}

/// What holds of the directories while a batch that started in `start` stands at `state`.
spec fn holds(state: BatchView, start: World, now: World) -> bool {
    match state {
        BatchView::Checking(_) => now.directories == start.directories,
        BatchView::Applying(application) => {
            let batch = application.batch;
            let index = application.index as int;
            &&& are_new(batch, application.created, start)
            &&& match pending_place(application) {
                Some(place) => {
                    &&& !start.directories.contains(place)
                    &&& !is_made(batch, application.created, place)
                    &&& now.directories.contains(place)
                    &&& forall|other: Place|
                        other != place ==> #[trigger] now.directories.contains(other) == (
                        start.directories.contains(other) || is_made(
                            batch,
                            application.created,
                            other,
                        ))
                },
                None => are_made(batch, application.created, start, now),
            }
            &&& application.stage is Operating ==> now.file_at(
                batch.mutations@[index].path().place(),
            ) == application.preimages[index]@
        },
        BatchView::RollingBack(rollback) => {
            let batch = rollback.batch;
            &&& are_new(batch, rollback.created, start)
            &&& !has_directory_failure(rollback.failures) ==> are_made(
                batch,
                if rollback.stage == RollbackStage::Directory(DirectoryStage::Confirming) {
                    rollback.created.drop_last()
                } else {
                    rollback.created
                },
                start,
                now,
            )
            &&& rollback.stage == RollbackStage::Entry(EntryStage::Undoing) ==> {
                let index = rollback.journal.last().mutation as int;
                rollback.preimages[index]@ is None ==> now.file_at(
                    batch.mutations@[index].path().place(),
                ) is Some
            }
        },
    }
}

/// Whether one of the failures is that of a directory.
spec fn has_directory_failure(failures: Seq<RollbackFailure>) -> bool {
    exists|i: int| 0 <= i < failures.len() && #[trigger] failures[i] is Directory
}

/// What holds of the directories at `next`.
spec fn holds_next(next: BatchNext, start: World, now: World) -> bool {
    match next {
        BatchNext::Pending(state) => holds(state, start, now),
        BatchNext::Done(outcome) => (outcome is RolledBack || outcome is Rejected)
            ==> now.directories == start.directories,
    }
}

proof fn lemma_made_push(
    batch: FileMutationBatch,
    created: Seq<CreatedDirectory>,
    directory: CreatedDirectory,
    place: Place,
)
    ensures
        is_made(batch, created.push(directory), place) == (is_made(batch, created, place)
            || place_of(batch, directory) == place),
{
    let more = created.push(directory);
    if is_made(batch, created, place) {
        let i = choose|i: int|
            0 <= i < created.len() && place_of(batch, #[trigger] created[i]) == place;
        assert(more[i] == created[i]);
    }
    if place_of(batch, directory) == place {
        assert(more[created.len() as int] == directory);
    }
    if is_made(batch, more, place) {
        let i = choose|i: int|
            0 <= i < more.len() && place_of(batch, #[trigger] more[i]) == place;
        if i < created.len() {
            assert(more[i] == created[i]);
        }
    }
}

/// The last directory that was made goes.
proof fn lemma_made_drop(
    batch: FileMutationBatch,
    created: Seq<CreatedDirectory>,
    start: World,
)
    requires
        created.len() > 0,
        are_new(batch, created, start),
    ensures
        are_new(batch, created.drop_last(), start),
        !is_made(batch, created.drop_last(), place_of(batch, created.last())),
        !start.directories.contains(place_of(batch, created.last())),
        is_made(batch, created, place_of(batch, created.last())),
        forall|place: Place|
            place != place_of(batch, created.last()) ==> #[trigger] is_made(batch, created, place)
                == is_made(batch, created.drop_last(), place),
{
    let rest = created.drop_last();
    let last = created.len() - 1;
    assert(created[last] == created.last());
    assert forall|i: int, j: int| 0 <= i < j < rest.len() implies place_of(
        batch,
        #[trigger] rest[i],
    ) != place_of(batch, #[trigger] rest[j]) by {
        assert(rest[i] == created[i] && rest[j] == created[j]);
    }
    assert forall|i: int| 0 <= i < rest.len() implies !start.directories.contains(
        place_of(batch, #[trigger] rest[i]),
    ) by {
        assert(rest[i] == created[i]);
    }
    if is_made(batch, rest, place_of(batch, created.last())) {
        let i = choose|i: int|
            0 <= i < rest.len() && place_of(batch, #[trigger] rest[i]) == place_of(
                batch,
                created.last(),
            );
        assert(rest[i] == created[i]);
        assert(place_of(batch, created[i]) != place_of(batch, created[last]));
    }
    assert forall|place: Place| place != place_of(batch, created.last()) implies
        #[trigger] is_made(batch, created, place) == is_made(batch, rest, place) by {
        assert(rest.push(created.last()) =~= created);
        lemma_made_push(batch, rest, created.last(), place);
    }
}

proof fn lemma_same_directories(one: World, other: World)
    requires
        forall|place: Place| #[trigger]
            one.directories.contains(place) == other.directories.contains(place),
    ensures
        one.directories == other.directories,
{
    assert(one.directories =~= other.directories);
}

/// A mutation takes a reply into account.
proof fn lemma_applying(
    state: ApplicationView,
    reply: FsReply,
    start: World,
    before: World,
    after: World,
)
    requires
        state.is_valid(),
        holds(BatchView::Applying(state), start, before),
        is_true_to(before, state.request(), reply, after),
        keeps_directories(before, state.request(), reply, after),
        shows_made(BatchView::Applying(state), reply),
    ensures
        holds_next(application_next(state, reply), start, after),
{
    let batch = state.batch;
    let index = state.index as int;
    let mutation = batch.mutations@[index];
    let preimage = state.preimages[index]@;
    let path = mutation.path();
    let at = Location { path: &path, levels: 0 };
    assert(is_fresh_target(batch.mutations@, index));
    assert(state.preimages[index]@ == mutation.before());
    lemma_own_place(at);
    let step = apply_next(mutation, preimage, state.stage, reply);
    match state.stage {
        ApplyStage::Parents(ParentStage::Creating { levels }) => {},
        ApplyStage::Parents(ParentStage::Confirming { levels }) => {
            let metadata = reply->Metadata_0->Ok_0;
            let made = CreatedDirectory { mutation: state.index, levels, metadata };
            let place = pending_place(state)->0;
            assert(place_of(batch, made) == place);
            assert(metadata.is_directory);
            let created = state.created.push(made);
            assert forall|i: int, j: int| 0 <= i < j < created.len() implies place_of(
                batch,
                #[trigger] created[i],
            ) != place_of(batch, #[trigger] created[j]) by {
                assert(created[i] == state.created[i]);
                if j < state.created.len() {
                    assert(created[j] == state.created[j]);
                } else {
                    assert(is_made(batch, state.created, place_of(batch, state.created[i])));
                }
            }
            assert forall|i: int| 0 <= i < created.len() implies !start.directories.contains(
                place_of(batch, #[trigger] created[i]),
            ) by {
                if i < state.created.len() {
                    assert(created[i] == state.created[i]);
                }
            }
            assert(are_made(batch, created, start, after)) by {
                assert forall|other: Place| #[trigger] after.directories.contains(other) == (
                start.directories.contains(other) || is_made(batch, created, other)) by {
                    lemma_made_push(batch, state.created, made, other);
                }
            }
        },
        ApplyStage::Before(stage) => {
            lemma_snapshot_true(stage, at, batch.follow_symlinks, reply, before, after);
        },
        ApplyStage::Operating => {
            assert(state.request().location().place() == path.place());
            if state.request() is Remove {
                assert(before.files.contains_key(path.place()));
                assert(!before.directories.contains(path.place()));
                assert(after.directories =~= before.directories);
            }
        },
        _ => {},
    }
    match step {
        ApplyStep::Done(Err(failure)) => {
            assert(are_made(batch, state.created, start, after));
            let undoing = RollbackView {
                batch,
                preimages: state.preimages,
                cause: batch_failure(batch, state.index, failure.error),
                journal: match failure.entry {
                    Some(postimage) => journal_of(state.index as nat).push(
                        JournalEntry { mutation: state.index, postimage },
                    ),
                    None => journal_of(state.index as nat),
                },
                created: state.created,
                failures: Seq::empty(),
                stage: RollbackStage::Directory(DirectoryStage::Probing),
            };
            lemma_undoing_onward(undoing, start, after);
        },
        _ => {},
    }
}

/// The undoing goes on, or ends.
proof fn lemma_undoing_onward(state: RollbackView, start: World, now: World)
    requires
        are_new(state.batch, state.created, start),
        !has_directory_failure(state.failures) ==> are_made(
            state.batch,
            state.created,
            start,
            now,
        ),
    ensures
        holds_next(
            batch_rolled(state.batch, state.cause, rollback_onward(state)),
            start,
            now,
        ),
{
    if let RollbackNext::Done(failures) = rollback_onward(state) {
        if failures.len() == 0 {
            assert(!has_directory_failure(failures));
            assert forall|place: Place| #[trigger] now.directories.contains(place)
                == start.directories.contains(place) by {
                assert(!is_made(state.batch, state.created, place));
            }
            lemma_same_directories(now, start);
        }
    }
}

/// A failure is noted.
proof fn lemma_noted(failures: Seq<RollbackFailure>, failure: Option<RollbackFailure>)
    ensures
        has_directory_failure(noted(failures, failure)) == (has_directory_failure(failures) || (
        failure matches Some(failure) && failure is Directory)),
{
    let more = noted(failures, failure);
    if has_directory_failure(failures) {
        let i = choose|i: int| 0 <= i < failures.len() && #[trigger] failures[i] is Directory;
        assert(more[i] == failures[i]);
    }
    if let Some(added) = failure {
        assert(more[failures.len() as int] == added);
    }
    if has_directory_failure(more) {
        let i = choose|i: int| 0 <= i < more.len() && #[trigger] more[i] is Directory;
        if i < failures.len() {
            assert(more[i] == failures[i]);
        }
    }
}

/// The undoing takes a reply into account.
proof fn lemma_rolling_back(
    state: RollbackView,
    reply: FsReply,
    start: World,
    before: World,
    after: World,
)
    requires
        state.is_valid(),
        holds(BatchView::RollingBack(state), start, before),
        is_true_to(before, state.request(), reply, after),
        keeps_directories(before, state.request(), reply, after),
    ensures
        holds_next(
            batch_rolled(state.batch, state.cause, rollback_next(state, reply)),
            start,
            after,
        ),
{
    match state.stage {
        RollbackStage::Entry(stage) => {
            let entry = state.journal.last();
            assert(entry == state.journal[state.journal.len() - 1]);
            let index = entry.mutation as int;
            let mutation = state.batch.mutations@[index];
            let path = mutation.path();
            let at = Location { path: &path, levels: 0 };
            let preimage = state.preimages[index]@;
            let postimage = entry.postimage.image(mutation);
            lemma_own_place(at);
            match stage {
                EntryStage::Checking(snapshot) => {
                    lemma_snapshot_true(
                        snapshot,
                        at,
                        state.batch.follow_symlinks,
                        reply,
                        before,
                        after,
                    );
                },
                EntryStage::Undoing => {
                    assert(state.request().location().place() == path.place());
                    if state.request() is Remove {
                        assert(before.files.contains_key(path.place()));
                        assert(!before.directories.contains(path.place()));
                        assert(after.directories =~= before.directories);
                    }
                },
                EntryStage::Verifying(_) => {},
            }
            assert(after.directories == before.directories);
            if let EntryStep::Done(result) = entry_next(preimage, postimage, stage, reply) {
                let failure = match result {
                    Ok(_) => None,
                    Err(error) => Some(RollbackFailure::Entry { mutation: entry.mutation, error }),
                };
                lemma_noted(state.failures, failure);
                lemma_undoing_onward(
                    RollbackView {
                        journal: state.journal.drop_last(),
                        failures: noted(state.failures, failure),
                        ..state
                    },
                    start,
                    after,
                );
            }
        },
        RollbackStage::Directory(stage) => {
            let directory = state.created.last();
            let place = place_of(state.batch, directory);
            let rest = state.created.drop_last();
            lemma_made_drop(state.batch, state.created, start);
            assert(state.request().location().place() == place);
            if !has_directory_failure(state.failures) {
                match stage {
                    DirectoryStage::Removing => {
                        if reply->Done_0 is Ok {
                            assert forall|other: Place| #[trigger] after.directories.contains(other)
                                == (start.directories.contains(other) || is_made(
                                state.batch,
                                rest,
                                other,
                            )) by {
                                assert(before.directories.contains(other) == (
                                start.directories.contains(other) || is_made(
                                    state.batch,
                                    state.created,
                                    other,
                                )));
                            }
                        }
                    },
                    DirectoryStage::Probing => {
                        assert(before.directories.contains(place));
                    },
                    DirectoryStage::Confirming => {},
                }
            }
            if let DirectoryStep::Done(result) = directory_next(directory.metadata, stage, reply) {
                let failure = match result {
                    Ok(_) => None,
                    Err(error) => Some(RollbackFailure::Directory { directory, error }),
                };
                lemma_noted(state.failures, failure);
                lemma_undoing_onward(
                    RollbackView {
                        created: rest,
                        failures: noted(state.failures, failure),
                        ..state
                    },
                    start,
                    after,
                );
            }
        },
    }
}

/// A run without its last reply is one.
proof fn lemma_shorter(
    batch: FileMutationBatch,
    limits: BatchLimits,
    replies: Seq<FsReply>,
    worlds: Seq<World>,
)
    requires
        is_orderly(batch, limits, replies, worlds),
        worlds.len() == replies.len() + 1,
        replies.len() > 0,
    ensures
        is_orderly(batch, limits, replies.drop_last(), worlds.drop_last()),
{
    let earlier = replies.drop_last();
    let seen = worlds.drop_last();
    assert forall|k: int| 0 <= k < earlier.len() implies {
        &&& batch_after(batch, limits, #[trigger] earlier.take(k)) matches BatchNext::Pending(state)
        &&& keeps_directories(seen[k], state.request(), earlier[k], seen[k + 1])
        &&& shows_made(state, earlier[k])
    } by {
        assert(earlier.take(k) =~= replies.take(k));
    }
}

/// The invariant of a run, by induction on the replies.
proof fn lemma_run(
    batch: FileMutationBatch,
    limits: BatchLimits,
    replies: Seq<FsReply>,
    worlds: Seq<World>,
)
    requires
        is_history(batch, limits, replies, worlds),
        is_orderly(batch, limits, replies, worlds),
    ensures
        holds_next(batch_after(batch, limits, replies), worlds[0], worlds.last()),
    decreases replies.len(),
{
    let start = worlds[0];
    if replies.len() > 0 {
        let count = replies.len() - 1;
        let earlier = replies.drop_last();
        let seen = worlds.drop_last();
        lemma_shorter_history(batch, limits, replies, worlds);
        lemma_shorter(batch, limits, replies, worlds);
        lemma_run(batch, limits, earlier, seen);
        let before = worlds[count];
        let after = worlds[count + 1];
        assert(earlier =~= replies.take(count));
        if let BatchNext::Pending(state) = batch_after(batch, limits, earlier) {
            law_reached_states_are_valid(batch, limits, earlier, seen, state);
            match state {
                BatchView::Checking(checks) => {
                    assert(after.directories == before.directories);
                },
                BatchView::Applying(application) => {
                    lemma_applying(application, replies.last(), start, before, after);
                },
                BatchView::RollingBack(rollback) => {
                    lemma_rolling_back(rollback, replies.last(), start, before, after);
                },
            }
        }
    }
}

/// A batch that was rejected or rolled back leaves no directory behind and takes none away, on a
/// filesystem that tells the truth, keeps its directories, shows those that it has just made, and is
/// changed by nobody else. A directory that was made and cannot then be looked at would stay.
pub proof fn law_undone_batch_leaves_no_directory(
    batch: FileMutationBatch,
    limits: BatchLimits,
    replies: Seq<FsReply>,
    worlds: Seq<World>,
    outcome: OutcomeView,
)
    requires
        is_history(batch, limits, replies, worlds),
        is_orderly(batch, limits, replies, worlds),
        batch_after(batch, limits, replies) == BatchNext::Done(outcome),
        outcome is Rejected || outcome is RolledBack,
    ensures
        worlds.last().directories == worlds[0].directories,
{
    lemma_run(batch, limits, replies, worlds);
}

/// The directories that a batch keeps in mind as made by it.
pub open spec fn created_of(state: BatchView) -> Seq<CreatedDirectory> {
    match state {
        BatchView::Checking(_) => Seq::empty(),
        BatchView::Applying(application) => application.created,
        BatchView::RollingBack(rollback) => rollback.created,
    }
}

/// No directory that a batch holds to be made by it was there when the batch started, and it holds
/// none to be made twice: so undoing takes away none that somebody else made. On a filesystem as in
/// [`law_undone_batch_leaves_no_directory`].
pub proof fn law_made_directories_were_missing(
    batch: FileMutationBatch,
    limits: BatchLimits,
    replies: Seq<FsReply>,
    worlds: Seq<World>,
    state: BatchView,
)
    requires
        is_history(batch, limits, replies, worlds),
        is_orderly(batch, limits, replies, worlds),
        batch_after(batch, limits, replies) == BatchNext::Pending(state),
    ensures
        forall|i: int|
            0 <= i < created_of(state).len() ==> !worlds[0].directories.contains(
                place_of(batch, #[trigger] created_of(state)[i]),
            ),
        forall|i: int, j: int|
            0 <= i < j < created_of(state).len() ==> place_of(
                batch,
                #[trigger] created_of(state)[i],
            ) != place_of(batch, #[trigger] created_of(state)[j]),
{
    lemma_run(batch, limits, replies, worlds);
    law_reached_states_are_valid(batch, limits, replies, worlds, state);
}

} // verus!
