//! A batch that fits is committed, where nothing fails.

use vstd::prelude::*;

use crate::apply::ApplyStage;
use crate::atomicity::{
    batch_after, is_history, is_true_to, law_reached_states_are_valid, lemma_own_place,
    lemma_shorter_history, lemma_snapshot_true, target, World,
};
use crate::batch::{
    application_next, batch_checked, batch_next, batch_onward, ApplicationView, BatchNext,
    BatchView,
};
use crate::directories::keeps_directories;
use crate::error::ErrorKind;
use crate::file_system::{FsReply, FsRequest, Location};
use crate::mutation::{image_bytes, BatchLimits, FileMutation, FileMutationBatch};
use crate::parents::ParentStage;
use crate::path::Place;
use crate::preflight::{are_expected, decoded, is_fresh_target, proceeding, PreflightView};
use crate::snapshot::{snapshot_next, Snapshot, SnapshotStep};

verus! {

/// The bytes that the first `count` mutations carry and expect of their files.
pub open spec fn carried(mutations: Seq<FileMutation>, count: nat) -> int
    decreases count,
{
    if count == 0 {
        0
    } else {
        let last = mutations[count - 1];
        carried(mutations, (count - 1) as nat) + last.payload() + image_bytes(last.before())
    }
}

/// Whether the batch fits the limits and the files: it is not too large; every file is at a place of
/// its own and holds what is expected; nothing is in the way of the directories above it, and no
/// file of the batch is above another one.
pub open spec fn is_fit(batch: FileMutationBatch, limits: BatchLimits, start: World) -> bool {
    let mutations = batch.mutations@;
    &&& mutations.len() <= limits.max_operations
    &&& carried(mutations, mutations.len()) <= limits.max_decoded_bytes
    &&& forall|index: int|
        0 <= index < mutations.len() ==> #[trigger] is_fresh_target(mutations, index)
    &&& forall|index: int|
        0 <= index < mutations.len() ==> start.file_at(#[trigger] target(batch, index))
            == mutations[index].before() && !start.directories.contains(target(batch, index))
    &&& forall|index: int|
        0 <= index < mutations.len() ==> start.directories.contains(
            (#[trigger] target(batch, index)).up(target(batch, index).names.len()),
        )
    &&& forall|index: int, levels: nat|
        #![trigger target(batch, index).up(levels)]
        0 <= index < mutations.len() && 1 <= levels <= target(batch, index).names.len() ==> {
            &&& !start.files.contains_key(target(batch, index).up(levels))
            &&& forall|other: int|
                0 <= other < mutations.len() ==> #[trigger] target(batch, other) != target(
                    batch,
                    index,
                ).up(levels)
        }
}

/// Whether the filesystem does what can be done: it shows and reads what is there, writes below a
/// directory, removes a file that is there, and makes a directory below another one where there is
/// nothing.
pub open spec fn serves(before: World, request: FsRequest<'static>, reply: FsReply) -> bool {
    let place = request.location().place();
    match request {
        FsRequest::GetMetadata { .. } => match reply->Metadata_0 {
            Ok(metadata) => {
                &&& before.files.contains_key(place) || before.directories.contains(place)
                &&& !metadata.is_symlink
            },
            Err(error) => error.kind == ErrorKind::NotFound,
        },
        FsRequest::ReadFile { .. } => before.files.contains_key(place) ==> reply->Contents_0 is Ok,
        FsRequest::WriteFile { .. } => before.directories.contains(place.up(1))
            && !before.directories.contains(place) ==> reply->Done_0 is Ok,
        FsRequest::Remove { .. } => before.files.contains_key(place) ==> reply->Done_0 is Ok,
        FsRequest::CreateDirectory { .. } => before.directories.contains(place.up(1))
            && !before.directories.contains(place) && !before.files.contains_key(place)
            ==> reply->Done_0 is Ok,
    }
}

/// Whether nothing fails through the whole run of a batch.
pub open spec fn is_served(
    batch: FileMutationBatch,
    limits: BatchLimits,
    replies: Seq<FsReply>,
    worlds: Seq<World>,
) -> bool {
    forall|k: int|
        0 <= k < replies.len() ==> {
            &&& batch_after(batch, limits, #[trigger] replies.take(k)) matches BatchNext::Pending(
                state,
            )
            &&& keeps_directories(worlds[k], state.request(), replies[k], worlds[k + 1])
            &&& serves(worlds[k], state.request(), replies[k])
        }
}

/// Whether the files of the mutations from `first` on hold what is expected, and nothing is in the
/// way of what is still to be done.
spec fn is_clear(batch: FileMutationBatch, first: int, start: World, now: World) -> bool {
    let mutations = batch.mutations@;
    &&& forall|index: int|
        first <= index < mutations.len() ==> now.file_at(#[trigger] target(batch, index))
            == mutations[index].before()
    &&& forall|index: int|
        0 <= index < mutations.len() ==> !now.directories.contains(#[trigger] target(batch, index))
    &&& forall|index: int, levels: nat|
        #![trigger target(batch, index).up(levels)]
        0 <= index < mutations.len() && 1 <= levels <= target(batch, index).names.len()
            ==> !now.files.contains_key(target(batch, index).up(levels))
    &&& start.directories.subset_of(now.directories)
}

/// Whether the directories above `place`, from the nearest one up to `levels`, are all missing.
spec fn are_missing(place: Place, levels: int, now: World) -> bool {
    forall|level: nat|
        1 <= level <= levels ==> !now.directories.contains(#[trigger] place.up(level))
}

/// What holds at a stage of mutation `index`.
spec fn stage_holds(
    batch: FileMutationBatch,
    index: int,
    stage: ApplyStage,
    start: World,
    now: World,
) -> bool {
    let mutation = batch.mutations@[index];
    let place = target(batch, index);
    match stage {
        ApplyStage::Parents(parents) => {
            &&& mutation is Write
            &&& is_clear(batch, index, start, now)
            &&& match parents {
                ParentStage::Probing { levels } => are_missing(place, levels - 1, now),
                ParentStage::Creating { levels } => {
                    &&& levels < place.names.len()
                    &&& are_missing(place, levels as int, now)
                    &&& now.directories.contains(place.up((levels + 1) as nat))
                },
                ParentStage::Confirming { levels } => {
                    &&& are_missing(place, levels - 1, now)
                    &&& now.directories.contains(place.up(levels as nat))
                },
                ParentStage::Existing { .. } => false,
            }
        },
        ApplyStage::Before(looking) => {
            &&& is_clear(batch, index, start, now)
            &&& mutation is Write ==> now.directories.contains(place.up(1))
            &&& looking is Contents ==> now.files.contains_key(place)
        },
        ApplyStage::Operating => {
            &&& is_clear(batch, index, start, now)
            &&& mutation is Write ==> now.directories.contains(place.up(1))
        },
        ApplyStage::After { operation, snapshot } => {
            &&& is_clear(batch, index + 1, start, now)
            &&& operation is Ok
            &&& now.file_at(place) == mutation.after()
            &&& snapshot is Contents ==> now.files.contains_key(place)
        },
    }
}

/// What holds while a batch that fits stands at `next`.
spec fn holds_next(
    batch: FileMutationBatch,
    limits: BatchLimits,
    next: BatchNext,
    start: World,
    now: World,
) -> bool {
    match next {
        BatchNext::Pending(BatchView::Checking(checks)) => {
            let index = checks.preimages.len() as int;
            &&& now == start
            &&& checks.limits == limits
            &&& checks.stage is Contents ==> start.files.contains_key(target(batch, index))
        },
        BatchNext::Pending(BatchView::Applying(application)) => stage_holds(
            batch,
            application.index as int,
            application.stage,
            start,
            now,
        ),
        BatchNext::Pending(BatchView::RollingBack(_)) => false,
        BatchNext::Done(outcome) => outcome is Committed,
    }
}

/// The bytes that were counted are those that are carried.
proof fn lemma_carried(mutations: Seq<FileMutation>, preimages: Seq<Snapshot>)
    requires
        are_expected(mutations, preimages),
        preimages.len() <= mutations.len(),
    ensures
        decoded(mutations, preimages) == carried(mutations, preimages.len()),
    decreases preimages.len(),
{
    if preimages.len() > 0 {
        let fewer = preimages.drop_last();
        assert(are_expected(mutations, fewer)) by {
            assert forall|index: int| 0 <= index < fewer.len() implies (
            #[trigger] fewer[index])@ == mutations[index].before() by {
                assert(fewer[index] == preimages[index]);
            }
        }
        lemma_carried(mutations, fewer);
        assert(preimages.last() == preimages[preimages.len() - 1]);
    }
}

/// Fewer mutations carry no more.
proof fn lemma_carried_grows(mutations: Seq<FileMutation>, fewer: nat, more: nat)
    requires
        fewer <= more <= mutations.len(),
    ensures
        carried(mutations, fewer) <= carried(mutations, more),
        fewer < more ==> carried(mutations, fewer) + mutations[fewer as int].payload()
            + image_bytes(mutations[fewer as int].before()) <= carried(mutations, more),
    decreases more,
{
    if fewer < more {
        lemma_carried_grows(mutations, fewer, (more - 1) as nat);
    }
}

/// The places above a place.
proof fn lemma_up(place: Place, levels: nat)
    requires
        levels < place.names.len(),
    ensures
        place.up(levels).up(1) == place.up(levels + 1),
        place.up(0) == place,
{
    assert(place.up(levels).up(1).names =~= place.up(levels + 1).names);
    assert(place.up(0).names =~= place.names);
}

/// The checks of a batch that fits go on, and end with the first mutation.
proof fn lemma_proceeding(
    batch: FileMutationBatch,
    limits: BatchLimits,
    preimages: Seq<Snapshot>,
    start: World,
)
    requires
        is_fit(batch, limits, start),
        are_expected(batch.mutations@, preimages),
        preimages.len() <= batch.mutations@.len(),
    ensures
        holds_next(
            batch,
            limits,
            batch_checked(batch, limits, proceeding(batch, limits, preimages)),
            start,
            start,
        ),
{
    let mutations = batch.mutations@;
    let index = preimages.len() as int;
    lemma_carried(mutations, preimages);
    lemma_carried_grows(mutations, preimages.len(), mutations.len());
    if index < mutations.len() {
        assert(is_fresh_target(mutations, index));
    } else {
        lemma_onward(batch, limits, preimages, 0, start, start);
    }
}

/// The next mutation starts, or the batch is committed.
proof fn lemma_onward(
    batch: FileMutationBatch,
    limits: BatchLimits,
    preimages: Seq<Snapshot>,
    index: usize,
    start: World,
    now: World,
)
    requires
        is_fit(batch, limits, start),
        is_clear(batch, index as int, start, now),
        index <= batch.mutations@.len(),
    ensures
        forall|created: Seq<crate::rollback::CreatedDirectory>|
            holds_next(
                batch,
                limits,
                #[trigger] batch_onward(batch, preimages, index, created),
                start,
                now,
            ),
{
    if index < batch.mutations@.len() {
        let place = target(batch, index as int);
        assert(is_fresh_target(batch.mutations@, index as int));
        lemma_own_place(Location { path: &batch.mutations@[index as int].path(), levels: 0 });
        if place.names.len() == 0 {
            assert(place.up(place.names.len()).names =~= place.names);
            assert(start.directories.contains(place));
            assert(false);
        }
    }
}

/// The checks take a reply into account.
proof fn lemma_checking(
    limits: BatchLimits,
    checks: PreflightView,
    reply: FsReply,
    start: World,
    after: World,
)
    requires
        checks.is_valid(),
        is_fit(checks.batch, limits, start),
        holds_next(
            checks.batch,
            limits,
            BatchNext::Pending(BatchView::Checking(checks)),
            start,
            start,
        ),
        is_true_to(start, checks.request(), reply, after),
        serves(start, checks.request(), reply),
    ensures
        holds_next(
            checks.batch,
            limits,
            batch_next(BatchView::Checking(checks), reply),
            start,
            after,
        ),
{
    let batch = checks.batch;
    let mutations = batch.mutations@;
    let index = checks.preimages.len() as int;
    let path = mutations[index].path();
    let at = Location { path: &path, levels: 0 };
    lemma_own_place(at);
    lemma_snapshot_true(checks.stage, at, batch.follow_symlinks, reply, start, after);
    assert(target(batch, index) == path.place());
    assert(start.file_at(target(batch, index)) == mutations[index].before());
    match snapshot_next(checks.stage, reply) {
        SnapshotStep::Continue(_) => {},
        SnapshotStep::Done(Err(_)) => {
            assert(false);
        },
        SnapshotStep::Done(Ok(preimage)) => {
            let preimages = checks.preimages.push(preimage);
            assert(are_expected(mutations, preimages));
            lemma_carried(mutations, preimages);
            lemma_carried_grows(mutations, preimages.len(), mutations.len());
            lemma_proceeding(batch, limits, preimages, start);
        },
    }
}

/// The directories above a file are prepared.
proof fn lemma_parents(
    state: ApplicationView,
    limits: BatchLimits,
    parents: ParentStage,
    reply: FsReply,
    start: World,
    before: World,
    after: World,
)
    requires
        state.is_valid(),
        is_fit(state.batch, limits, start),
        state.stage == ApplyStage::Parents(parents),
        stage_holds(state.batch, state.index as int, state.stage, start, before),
        is_true_to(before, state.request(), reply, after),
        keeps_directories(before, state.request(), reply, after),
        serves(before, state.request(), reply),
    ensures
        holds_next(state.batch, limits, application_next(state, reply), start, after),
{
    let batch = state.batch;
    let index = state.index as int;
    let mutation = batch.mutations@[index];
    let place = target(batch, index);
    let count = place.names.len();
    let levels = parents.levels();
    assert(is_fresh_target(batch.mutations@, index));
    assert(mutation.path().native->Ok_0.components.len() == count);
    assert(state.request().location().place() == place.up(levels as nat));
    assert(!before.files.contains_key(place.up(levels as nat)));
    assert(start.directories.contains(place.up(count)));
    if levels < count {
        lemma_up(place, levels as nat);
    }
    // No file changes.
    assert(after.files == before.files) by {
        assert forall|other: Place| after.files.dom().contains(other)
            == before.files.dom().contains(other) by {
            assert(after.file_at(other) == before.file_at(other));
        }
        assert(after.files.dom() =~= before.files.dom());
        assert forall|other: Place| #[trigger] after.files.dom().contains(other) implies
            after.files[other] == before.files[other] by {
            assert(after.file_at(other) == before.file_at(other));
        }
        assert(after.files =~= before.files);
    }
    assert(forall|other: Place| #[trigger] after.file_at(other) == before.file_at(other));
    match parents {
        ParentStage::Probing { levels } => {
            if let FsReply::Metadata(Err(_)) = reply {
                assert(levels < count);
                assert(are_missing(place, levels as int, after)) by {
                    assert forall|level: nat| 1 <= level <= levels implies
                        !after.directories.contains(#[trigger] place.up(level)) by {}
                }
            } else {
                assert(before.directories.contains(place.up(levels as nat)));
            }
        },
        ParentStage::Creating { levels } => {
            let made = place.up(levels as nat);
            assert(!before.directories.contains(made));
            assert(reply->Done_0 is Ok);
            assert(are_missing(place, levels - 1, after)) by {
                assert forall|level: nat| 1 <= level <= levels - 1 implies
                    !after.directories.contains(#[trigger] place.up(level)) by {
                    assert(place.up(level).names.len() != made.names.len());
                }
            }
            assert forall|other: int| 0 <= other < batch.mutations@.len() implies
                !after.directories.contains(#[trigger] target(batch, other)) by {
                assert(target(batch, other) != target(batch, index).up(levels as nat));
            }
        },
        ParentStage::Confirming { levels } => {
            assert(reply->Metadata_0 is Ok);
        },
        ParentStage::Existing { .. } => {},
    }
}

/// A mutation takes a reply into account.
proof fn lemma_applying(
    state: ApplicationView,
    limits: BatchLimits,
    reply: FsReply,
    start: World,
    before: World,
    after: World,
)
    requires
        state.is_valid(),
        is_fit(state.batch, limits, start),
        stage_holds(state.batch, state.index as int, state.stage, start, before),
        is_true_to(before, state.request(), reply, after),
        keeps_directories(before, state.request(), reply, after),
        serves(before, state.request(), reply),
    ensures
        holds_next(state.batch, limits, application_next(state, reply), start, after),
{
    let batch = state.batch;
    let index = state.index as int;
    let mutation = batch.mutations@[index];
    let place = target(batch, index);
    let path = mutation.path();
    let at = Location { path: &path, levels: 0 };
    assert(is_fresh_target(batch.mutations@, index));
    assert(state.index < batch.mutations.len());
    assert(state.preimages[index]@ == mutation.before());
    lemma_own_place(at);
    match state.stage {
        ApplyStage::Parents(parents) => {
            lemma_parents(state, limits, parents, reply, start, before, after);
        },
        ApplyStage::Before(looking) => {
            lemma_snapshot_true(looking, at, batch.follow_symlinks, reply, before, after);
            assert(before.file_at(place) == mutation.before());
            assert(!before.directories.contains(place));
        },
        ApplyStage::Operating => {
            assert(state.request().location().place() == place);
            assert(before.file_at(place) == mutation.before());
            assert(reply->Done_0 is Ok);
            assert(after.file_at(place) == mutation.after());
            assert(after.directories =~= before.directories);
            assert forall|other: int| index + 1 <= other < batch.mutations@.len() implies
                after.file_at(#[trigger] target(batch, other))
                == batch.mutations@[other].before() by {
                assert(is_fresh_target(batch.mutations@, other));
                assert(batch.mutations@[index].path().place() != target(batch, other));
                assert(before.file_at(target(batch, other)) == batch.mutations@[other].before());
            }
            assert forall|other: int, levels: nat|
                #![trigger target(batch, other).up(levels)]
                0 <= other < batch.mutations@.len() && 1 <= levels <= target(
                    batch,
                    other,
                ).names.len() implies !after.files.contains_key(
                target(batch, other).up(levels),
            ) by {
                let above = target(batch, other).up(levels);
                assert(target(batch, index) != above);
                assert(after.file_at(above) == before.file_at(above));
            }
        },
        ApplyStage::After { operation, snapshot } => {
            lemma_snapshot_true(snapshot, at, batch.follow_symlinks, reply, before, after);
            assert(!before.directories.contains(place));
            lemma_onward(
                batch,
                limits,
                state.preimages,
                (state.index + 1) as usize,
                start,
                after,
            );
        },
    }
}

/// A run without its last reply is one.
proof fn lemma_shorter(
    batch: FileMutationBatch,
    limits: BatchLimits,
    replies: Seq<FsReply>,
    worlds: Seq<World>,
)
    requires
        is_served(batch, limits, replies, worlds),
        worlds.len() == replies.len() + 1,
        replies.len() > 0,
    ensures
        is_served(batch, limits, replies.drop_last(), worlds.drop_last()),
{
    let earlier = replies.drop_last();
    let seen = worlds.drop_last();
    assert forall|k: int| 0 <= k < earlier.len() implies {
        &&& batch_after(batch, limits, #[trigger] earlier.take(k)) matches BatchNext::Pending(state)
        &&& keeps_directories(seen[k], state.request(), earlier[k], seen[k + 1])
        &&& serves(seen[k], state.request(), earlier[k])
    } by {
        assert(earlier.take(k) =~= replies.take(k));
    }
}

/// The invariant of a run, by induction on the replies.
proof fn lemma_run(
    batch: FileMutationBatch,
    limits: BatchLimits,
    replies: Seq<FsReply>,
    worlds: Seq<World>,
)
    requires
        is_history(batch, limits, replies, worlds),
        is_served(batch, limits, replies, worlds),
        is_fit(batch, limits, worlds[0]),
    ensures
        holds_next(batch, limits, batch_after(batch, limits, replies), worlds[0], worlds.last()),
    decreases replies.len(),
{
    let start = worlds[0];
    if replies.len() == 0 {
        lemma_proceeding(batch, limits, Seq::empty(), start);
    } else {
        let count = replies.len() - 1;
        let earlier = replies.drop_last();
        let seen = worlds.drop_last();
        lemma_shorter_history(batch, limits, replies, worlds);
        lemma_shorter(batch, limits, replies, worlds);
        lemma_run(batch, limits, earlier, seen);
        let before = worlds[count];
        let after = worlds[count + 1];
        assert(earlier =~= replies.take(count));
        if let BatchNext::Pending(state) = batch_after(batch, limits, earlier) {
            law_reached_states_are_valid(batch, limits, earlier, seen, state);
            match state {
                BatchView::Checking(checks) => {
                    lemma_checking(limits, checks, replies.last(), start, after);
                },
                BatchView::Applying(application) => {
                    lemma_applying(application, limits, replies.last(), start, before, after);
                },
                BatchView::RollingBack(_) => {},
            }
        }
    }
}

/// A batch that fits is committed where nothing fails: it is never rejected and never undone.
pub proof fn law_fitting_batch_is_committed(
    batch: FileMutationBatch,
    limits: BatchLimits,
    replies: Seq<FsReply>,
    worlds: Seq<World>,
)
    requires
        is_history(batch, limits, replies, worlds),
        is_served(batch, limits, replies, worlds),
        is_fit(batch, limits, worlds[0]),
    ensures
        batch_after(batch, limits, replies) matches BatchNext::Done(outcome)
            ==> outcome is Committed,
        batch_after(batch, limits, replies) matches BatchNext::Pending(state)
            ==> !(state is RollingBack),
{
    lemma_run(batch, limits, replies, worlds);
}

} // verus!
