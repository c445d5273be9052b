//! What a batch touches: its files and the directories above them, and nothing that somebody else
//! has changed since.

use vstd::prelude::*;

use crate::apply::{apply_next, ApplyStage, ApplyStep, MutationError, MutationFailure};
use crate::batch::{application_next, batch_undone, ApplicationView, BatchNext, BatchView};
use crate::error::{ErrorKind, IoError};
use crate::file_system::{FileMetadata, FsReply, FsRequest, Location};
use crate::mutation::{FileMutation, FileMutationBatch};
use crate::atomicity::batch_of;
use crate::parents::{parents_next, ParentError, ParentStage, ParentStep};
use crate::preflight::{is_fresh_target, PreflightView};
use crate::rollback::{
    directory_next, entry_next, rollback_next, CreatedDirectory, DirectoryStage, DirectoryStep,
    EntryStage, EntryStep, RollbackError, RollbackNext, RollbackStage, RollbackView,
};
use crate::snapshot::{snapshot_next, Snapshot, SnapshotError, SnapshotStage, SnapshotStep};

verus! {

/// Whether the location is the file of mutation `index`, or a directory above it.
pub open spec fn is_along(batch: FileMutationBatch, index: int, at: Location<'_>) -> bool {
    &&& 0 <= index < batch.mutations@.len()
    &&& *at.path == batch.mutations@[index].path()
    &&& at.is_native()
}

/// Whether the request leaves alone what it does not name: it removes no tree, and it makes no
/// directory that needs another one first.
pub open spec fn is_narrow(request: FsRequest<'_>) -> bool {
    match request {
        FsRequest::Remove { recursive, force, .. } => !recursive && !force,
        FsRequest::CreateDirectory { at, recursive, .. } => !recursive && at.levels > 0,
        FsRequest::WriteFile { at, .. } => at.levels == 0,
        _ => true,
    }
}

/// While a batch is checked, nothing is changed.
pub proof fn law_checks_only_read(checks: PreflightView)
    ensures
        checks.request().is_read(),
{
}

/// A batch asks for nothing but its files and the directories above them, and removes no trees.
pub proof fn law_requests_stay_within_targets(state: BatchView)
    requires
        state.is_valid(),
    ensures
        exists|index: int| is_along(batch_of(state), index, state.request().location()),
        is_narrow(state.request()),
        state.request() matches FsRequest::GetMetadata { follow_symlinks, .. } ==> follow_symlinks
            == batch_of(state).follow_symlinks,
        state.request() matches FsRequest::ReadFile { follow_symlinks, .. } ==> follow_symlinks
            == batch_of(state).follow_symlinks,
        state.request() matches FsRequest::WriteFile { follow_symlinks, .. } ==> follow_symlinks
            == batch_of(state).follow_symlinks,
        state.request() matches FsRequest::Remove { follow_symlinks, .. } ==> follow_symlinks
            == batch_of(state).follow_symlinks,
        state.request() matches FsRequest::CreateDirectory { follow_symlinks, .. }
            ==> follow_symlinks == batch_of(state).follow_symlinks,
{
    let batch = batch_of(state);
    let index = match state {
        BatchView::Checking(checks) => checks.preimages.len() as int,
        BatchView::Applying(application) => application.index as int,
        BatchView::RollingBack(rollback) => match rollback.stage {
            RollbackStage::Entry(_) => rollback.journal.last().mutation as int,
            RollbackStage::Directory(_) => rollback.created.last().mutation as int,
        },
    };
    assert(is_fresh_target(batch.mutations@, index));
    if let BatchView::RollingBack(rollback) = state {
        match rollback.stage {
            RollbackStage::Entry(_) => {
                assert(rollback.journal[rollback.journal.len() - 1].mutation
                    < batch.mutations@.len());
            },
            RollbackStage::Directory(_) => {
                assert(crate::rollback::is_directory_of(
                    rollback.created[rollback.created.len() - 1],
                    batch,
                ));
            },
        }
    }
    assert(is_along(batch, index, state.request().location()));
}

/// A file is changed only after a look that shows what it held when the batch was checked.
pub proof fn law_file_changes_only_from_its_preimage(
    mutation: FileMutation,
    follow_symlinks: bool,
    preimage: Option<Seq<u8>>,
    stage: ApplyStage,
    reply: FsReply,
)
    requires
        stage.request_spec(&mutation, follow_symlinks).is_answered_by(reply),
        apply_next(mutation, preimage, stage, reply) matches ApplyStep::Continue {
            stage: ApplyStage::Operating,
            ..
        },
    ensures
        stage matches ApplyStage::Before(looking) && snapshot_next(looking, reply) matches
            SnapshotStep::Done(Ok(seen)) && seen@ == preimage,
{
}

/// A file is put back only after a look that shows what the batch left in it: what somebody else has
/// put there since is not overwritten.
pub proof fn law_rollback_overwrites_only_its_own_work(
    preimage: Option<Seq<u8>>,
    postimage: Option<Seq<u8>>,
    stage: EntryStage,
    reply: FsReply,
)
    requires
        stage.accepts(reply),
        entry_next(preimage, postimage, stage, reply) == EntryStep::Continue(EntryStage::Undoing),
    ensures
        stage matches EntryStage::Checking(looking) && snapshot_next(looking, reply) matches
            SnapshotStep::Done(Ok(seen)) && seen@ == postimage && seen@ != preimage,
{
}

/// A directory is removed only after a look that shows it as it was when it was made.
pub proof fn law_rollback_removes_only_unchanged_directories(
    made: FileMetadata,
    stage: DirectoryStage,
    reply: FsReply,
)
    requires
        stage.accepts(reply),
        directory_next(made, stage, reply) == DirectoryStep::Continue(DirectoryStage::Removing),
    ensures
        stage is Probing,
        reply == FsReply::Metadata(Ok(made)),
        made.is_directory && !made.is_symlink,
{
}

/// A mutation is held to have taken place only where it was carried out and a look then shows what
/// it was to leave behind.
pub proof fn law_mutation_is_done_only_when_seen(
    mutation: FileMutation,
    follow_symlinks: bool,
    preimage: Option<Seq<u8>>,
    stage: ApplyStage,
    reply: FsReply,
)
    requires
        stage.request_spec(&mutation, follow_symlinks).is_answered_by(reply),
        apply_next(mutation, preimage, stage, reply) matches ApplyStep::Done(Ok(_)),
    ensures
        stage matches ApplyStage::After { operation: Ok(_), snapshot } && snapshot_next(
            snapshot,
            reply,
        ) matches SnapshotStep::Done(Ok(seen)) && seen@ == mutation.after(),
{
}

/// A write or removal that the filesystem refused fails with the filesystem's own error. What it is
/// held to have left behind is what a look shows, and nothing only where that is what was there
/// before.
pub proof fn law_refusal_is_passed_on(
    mutation: FileMutation,
    follow_symlinks: bool,
    preimage: Option<Seq<u8>>,
    refusal: IoError,
    looking: SnapshotStage,
    reply: FsReply,
)
    requires
        ({
            let stage = ApplyStage::After { operation: Err(refusal), snapshot: looking };
            stage.request_spec(&mutation, follow_symlinks).is_answered_by(reply)
        }),
        snapshot_next(looking, reply) is Done,
    ensures
        ({
            let stage = ApplyStage::After { operation: Err(refusal), snapshot: looking };
            &&& apply_next(mutation, preimage, stage, reply) matches ApplyStep::Done(Err(failure))
            &&& failure.error == MutationError::Io(refusal)
            &&& snapshot_next(looking, reply) matches SnapshotStep::Done(Ok(seen)) ==> {
                &&& failure.entry is None <==> seen@ == preimage
                &&& failure.entry matches Some(left) ==> left.image(mutation) == seen@
            }
            &&& snapshot_next(looking, reply) matches SnapshotStep::Done(Err(_))
                ==> failure.entry is Some
        }),
{
}

/// A file is held to be put back only after a look that shows what it held before the batch.
pub proof fn law_file_is_put_back_only_when_seen(
    preimage: Option<Seq<u8>>,
    postimage: Option<Seq<u8>>,
    stage: EntryStage,
    reply: FsReply,
)
    requires
        stage.accepts(reply),
        entry_next(preimage, postimage, stage, reply) matches EntryStep::Done(Ok(_)),
    ensures
        match stage {
            EntryStage::Checking(looking) | EntryStage::Verifying(looking) => snapshot_next(
                looking,
                reply,
            ) matches SnapshotStep::Done(Ok(seen)) && seen@ == preimage,
            EntryStage::Undoing => false,
        },
{
}

/// A directory is held to be gone only after a look that does not find it.
pub proof fn law_directory_is_gone_only_when_not_found(
    made: FileMetadata,
    stage: DirectoryStage,
    reply: FsReply,
)
    requires
        stage.accepts(reply),
        directory_next(made, stage, reply) matches DirectoryStep::Done(Ok(_)),
    ensures
        reply matches FsReply::Metadata(Err(error)) && error.kind == ErrorKind::NotFound,
{
}

/// A mutation fails for what a reply says: each error with the look or the request that gave it. Only
/// one that got as far as its write or removal may have left anything behind.
pub proof fn law_mutation_fails_for_what_a_reply_says(
    mutation: FileMutation,
    follow_symlinks: bool,
    preimage: Option<Seq<u8>>,
    stage: ApplyStage,
    reply: FsReply,
    failure: MutationFailure,
)
    requires
        stage.request_spec(&mutation, follow_symlinks).is_answered_by(reply),
        apply_next(mutation, preimage, stage, reply) == ApplyStep::Done(
            Err::<Snapshot, MutationFailure>(failure),
        ),
    ensures
        failure.entry is Some ==> stage is After,
        match failure.error {
            MutationError::Parent(error) => stage matches ApplyStage::Parents(making) && match error {
                ParentError::NotADirectory { levels } => {
                    &&& levels == making.levels()
                    &&& reply matches FsReply::Metadata(Ok(seen))
                    &&& !seen.is_directory
                },
                ParentError::Unstable { levels } => {
                    &&& levels == making.levels()
                    &&& reply matches FsReply::Metadata(Ok(seen))
                    &&& !seen.is_directory || seen.is_symlink
                },
                ParentError::Io(error) => match reply {
                    FsReply::Metadata(Err(refusal)) => error == refusal,
                    FsReply::Done(Err(refusal)) => error == refusal,
                    FsReply::Metadata(Ok(seen)) => {
                        &&& !seen.is_directory
                        &&& making matches ParentStage::Existing { error: refusal, .. }
                        &&& error == refusal
                    },
                    _ => false,
                },
            },
            MutationError::Snapshot(error) => match stage {
                ApplyStage::Before(looking) => snapshot_next(looking, reply) == SnapshotStep::Done(
                    Err::<Snapshot, SnapshotError>(error),
                ),
                ApplyStage::After { operation: Ok(_), snapshot } => snapshot_next(snapshot, reply)
                    == SnapshotStep::Done(Err::<Snapshot, SnapshotError>(error))
                    && failure.entry is Some,
                _ => false,
            },
            MutationError::PreimageChanged => stage matches ApplyStage::Before(looking)
                && snapshot_next(looking, reply) matches SnapshotStep::Done(Ok(seen)) && seen@
                != preimage,
            MutationError::PostimageChanged => {
                &&& stage matches ApplyStage::After { operation: Ok(_), snapshot }
                &&& snapshot_next(snapshot, reply) matches SnapshotStep::Done(Ok(seen))
                &&& seen@ != mutation.after()
                &&& failure.entry matches Some(left)
                &&& left.image(mutation) == seen@
            },
            MutationError::Io(error) => stage matches ApplyStage::After { operation, .. }
                && operation == Err::<(), IoError>(error),
        },
{
}

/// A directory is kept in mind as made exactly where a look right after its making shows it, with
/// what that look shows.
pub proof fn law_made_directory_is_kept_in_mind_as_seen(
    state: ApplicationView,
    next: ApplicationView,
    reply: FsReply,
)
    requires
        state.is_valid(),
        state.request().is_answered_by(reply),
        application_next(state, reply) == BatchNext::Pending(BatchView::Applying(next)),
        next.index == state.index,
    ensures
        match (state.stage, reply) {
            (
                ApplyStage::Parents(ParentStage::Confirming { levels }),
                FsReply::Metadata(Ok(seen)),
            ) => next.created == state.created.push(
                CreatedDirectory { mutation: state.index, levels, metadata: seen },
            ) && seen.is_directory && !seen.is_symlink,
            _ => next.created == state.created,
        },
{
    assert(state.index < state.batch.mutations.len());
}

/// The undoing of a file fails for what a reply says, each error with the look or the request that
/// gave it, and it does fail where the filesystem refuses.
pub proof fn law_undoing_of_a_file_fails_for_what_a_reply_says(
    preimage: Option<Seq<u8>>,
    postimage: Option<Seq<u8>>,
    stage: EntryStage,
    reply: FsReply,
)
    requires
        stage.accepts(reply),
    ensures
        stage is Undoing ==> match reply {
            FsReply::Done(Err(refusal)) => entry_next(preimage, postimage, stage, reply)
                == EntryStep::Done(Err(RollbackError::Io(refusal))),
            _ => entry_next(preimage, postimage, stage, reply) == EntryStep::Continue(
                EntryStage::Verifying(SnapshotStage::Metadata),
            ),
        },
        entry_next(preimage, postimage, stage, reply) matches EntryStep::Done(Err(error))
            ==> match (error, stage) {
            (RollbackError::Io(error), EntryStage::Undoing) => reply matches FsReply::Done(
                Err(refusal),
            ) && refusal == error,
            (RollbackError::Snapshot(error), EntryStage::Checking(looking)) => snapshot_next(
                looking,
                reply,
            ) == SnapshotStep::Done(Err::<Snapshot, SnapshotError>(error)),
            (RollbackError::Snapshot(error), EntryStage::Verifying(looking)) => snapshot_next(
                looking,
                reply,
            ) == SnapshotStep::Done(Err::<Snapshot, SnapshotError>(error)),
            (RollbackError::ChangedSince, EntryStage::Checking(looking)) => snapshot_next(
                looking,
                reply,
            ) matches SnapshotStep::Done(Ok(seen)) && seen@ != preimage && seen@ != postimage,
            (RollbackError::Unverified, EntryStage::Verifying(looking)) => snapshot_next(
                looking,
                reply,
            ) matches SnapshotStep::Done(Ok(seen)) && seen@ != preimage,
            _ => false,
        },
{
}

/// The undoing of a directory fails for what a reply says, each error with the look or the request
/// that gave it, and it does fail where the filesystem refuses or the directory stays.
pub proof fn law_undoing_of_a_directory_fails_for_what_a_reply_says(
    made: FileMetadata,
    stage: DirectoryStage,
    reply: FsReply,
)
    requires
        stage.accepts(reply),
    ensures
        reply matches FsReply::Done(Err(refusal)) ==> directory_next(made, stage, reply)
            == DirectoryStep::Done(Err(RollbackError::Io(refusal))),
        reply matches FsReply::Metadata(Err(failure)) ==> failure.kind != ErrorKind::NotFound
            ==> directory_next(made, stage, reply) == DirectoryStep::Done(
            Err(RollbackError::Io(failure)),
        ),
        stage is Confirming && (reply matches FsReply::Metadata(Ok(_))) ==> directory_next(
            made,
            stage,
            reply,
        ) == DirectoryStep::Done(Err(RollbackError::DirectoryRemains)),
        directory_next(made, stage, reply) matches DirectoryStep::Done(Err(error)) ==> match error {
            RollbackError::Io(error) => match reply {
                FsReply::Done(Err(refusal)) => refusal == error,
                FsReply::Metadata(Err(failure)) => failure == error,
                _ => false,
            },
            RollbackError::DirectoryRemains => stage is Confirming && reply is Metadata
                && reply->Metadata_0 is Ok,
            RollbackError::DirectoryChanged => stage is Probing && (reply matches FsReply::Metadata(
                Ok(seen),
            ) && (seen != made || !seen.is_directory || seen.is_symlink)),
            _ => false,
        },
{
}

/// Whether the reply shows a directory.
pub open spec fn shows_directory(reply: FsReply) -> bool {
    reply matches FsReply::Metadata(Ok(seen)) && seen.is_directory
}

/// Directories are made from above: one is made where the one above it is there, or where there is
/// none above it that it could be below; all are there at the end; and a directory that cannot be
/// looked at or made for another reason than that it is missing, or there, ends the preparation. So
/// does something in its place that is no directory, and nothing else does.
pub proof fn law_directories_are_made_from_above(
    parent_count: nat,
    stage: ParentStage,
    reply: FsReply,
)
    requires
        stage.is_valid(parent_count),
        parent_count <= usize::MAX,
        stage.accepts(reply),
    ensures
        match parents_next(parent_count, stage, reply) {
            ParentStep::Continue(next) => match next {
                ParentStage::Probing { levels } => stage is Probing && levels == stage.levels() + 1
                    && levels <= parent_count,
                ParentStage::Creating { levels } => {
                    ||| levels + 1 == stage.levels() && shows_directory(reply)
                    ||| levels == stage.levels() && levels == parent_count && stage is Probing
                },
                ParentStage::Confirming { levels } => stage is Creating && levels == stage.levels()
                    && (reply matches FsReply::Done(Ok(_))),
                ParentStage::Existing { levels, error } => {
                    &&& stage is Creating
                    &&& levels == stage.levels()
                    &&& reply matches FsReply::Done(Err(refusal))
                    &&& refusal == error
                    &&& error.kind == ErrorKind::AlreadyExists
                },
            },
            ParentStep::Created { levels, metadata, next } => {
                &&& stage is Confirming
                &&& levels == stage.levels()
                &&& reply matches FsReply::Metadata(Ok(seen))
                &&& seen == metadata
                &&& seen.is_directory && !seen.is_symlink
                &&& match next {
                    None => levels == 1,
                    Some(below) => below is Creating && below.levels() + 1 == levels,
                }
            },
            ParentStep::Ready => stage.levels() == 1 && shows_directory(reply),
            ParentStep::Failed(_) => match reply {
                FsReply::Done(Err(refusal)) => refusal.kind != ErrorKind::AlreadyExists,
                FsReply::Metadata(Err(failure)) => failure.kind != ErrorKind::NotFound || !(
                stage is Probing),
                FsReply::Metadata(Ok(seen)) => !seen.is_directory || stage is Confirming
                    && seen.is_symlink,
                _ => false,
            },
        },
        reply matches FsReply::Done(Err(refusal)) ==> refusal.kind != ErrorKind::AlreadyExists
            ==> parents_next(parent_count, stage, reply) == ParentStep::Failed(
            ParentError::Io(refusal),
        ),
        reply matches FsReply::Metadata(Err(failure)) ==> failure.kind != ErrorKind::NotFound
            || !(stage is Probing) ==> parents_next(parent_count, stage, reply)
            == ParentStep::Failed(ParentError::Io(failure)),
{
}

/// The undoing goes through all there is to undo, whatever cannot be undone: it ends only with the
/// last thing, and leaves nothing out on the way.
pub proof fn law_undoing_tries_everything(state: RollbackView, reply: FsReply)
    requires
        state.is_valid(),
    ensures
        match rollback_next(state, reply) {
            RollbackNext::Done(_) => state.journal.len() + state.created.len() == 1,
            RollbackNext::Pending(next) => match state.stage {
                RollbackStage::Entry(_) => {
                    &&& next.created == state.created
                    &&& next.journal == state.journal || next.journal == state.journal.drop_last()
                    &&& next.stage is Entry <==> next.journal.len() > 0
                },
                RollbackStage::Directory(_) => {
                    &&& next.journal == state.journal
                    &&& next.created == state.created || next.created == state.created.drop_last()
                    &&& next.stage is Directory
                },
            },
        },
{
}

/// The undoing starts with all that may have been changed: what the mutations before the one that
/// failed did, what that one may have left behind, and the directories that were made. Only where
/// there is none of it is there nothing to undo.
pub proof fn law_undoing_starts_with_everything(state: ApplicationView, failure: MutationFailure)
    requires
        state.is_valid(),
    ensures
        match batch_undone(state, failure) {
            RollbackNext::Done(failures) => state.index == 0 && failure.entry is None
                && state.created.len() == 0 && failures.len() == 0,
            RollbackNext::Pending(next) => {
                &&& next.created == state.created
                &&& next.preimages == state.preimages
                &&& next.failures.len() == 0
                &&& next.journal.len() == state.index + if failure.entry is Some { 1int } else { 0 }
                &&& forall|i: int|
                    0 <= i < next.journal.len() ==> (#[trigger] next.journal[i]).mutation == i
                &&& forall|i: int|
                    0 <= i < state.index ==> (#[trigger] next.journal[i]).postimage.image(
                        state.batch.mutations@[i],
                    ) == state.batch.mutations@[i].after()
                &&& failure.entry matches Some(left) ==> next.journal.last().postimage == left
            },
        },
{
    if let RollbackNext::Pending(next) = batch_undone(state, failure) {
        assert forall|i: int| 0 <= i < state.index implies (
        #[trigger] next.journal[i]).postimage.image(state.batch.mutations@[i])
            == state.batch.mutations@[i].after() by {
            assert(next.journal[i].postimage is Intended);
        }
    }
}

} // verus!
