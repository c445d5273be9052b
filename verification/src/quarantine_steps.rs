//! How quarantine goes on: only as a reply allows, and it fails only for what a reply says.

use vstd::prelude::*;

use crate::error::{ErrorKind, IoError, IoErrorView};
use crate::path::{NativePath, NativeView};
use crate::quarantine::{
    discard_follows, discard_moved, move_follows, restore_next, DiscardStage, FileIdentity,
    MoveStage, QuarantineNext, QuarantineReply, QuarantineStep, RestoreStage,
};
use crate::quarantine_directory::{
    directory_restore_next, removal_follows, removal_moved, DirectoryRestoreStage, RemovalStage,
};

verus! {

/// The failure that a reply is, if it is one.
pub open spec fn failure_in(reply: QuarantineReply) -> Option<IoErrorView> {
    match reply {
        QuarantineReply::Snapshot(Err(error)) => Some(error@),
        QuarantineReply::Identity(Err(error)) => Some(error@),
        QuarantineReply::Done(Err(error)) => Some(error@),
        _ => None,
    }
}

/// Whether the reply shows a file as `image`.
pub open spec fn shows(reply: QuarantineReply, image: Option<Seq<u8>>) -> bool {
    reply matches QuarantineReply::Snapshot(Ok(seen)) && seen@ == image
}

/// Whether the reply tells that a directory is `identity`.
pub open spec fn tells(reply: QuarantineReply, identity: Option<FileIdentity>) -> bool {
    reply matches QuarantineReply::Identity(Ok(found)) && found == identity
}

/// A file returns step by step: each step follows the one before it, and only where that did not fail
/// and showed what it has to. The return fails with the failure of a reply, or where a look shows
/// something else.
pub proof fn law_file_returns_step_by_step(
    expected: Option<Seq<u8>>,
    stage: RestoreStage,
    reply: QuarantineReply,
)
    requires
        stage.accepts(reply),
    ensures
        failure_in(reply) matches Some(failure) ==> restore_next(expected, stage, reply)
            == QuarantineNext::<RestoreStage, ()>::Failed(failure),
        match restore_next(expected, stage, reply) {
            QuarantineNext::Continue(RestoreStage::ValidatingParent) => false,
            QuarantineNext::Continue(RestoreStage::CheckingQuarantine) => stage is ValidatingParent,
            QuarantineNext::Continue(RestoreStage::CheckingPath) => stage is CheckingQuarantine
                && shows(reply, expected),
            QuarantineNext::Continue(RestoreStage::BeforeRename) => stage is CheckingPath && shows(
                reply,
                None,
            ),
            QuarantineNext::Continue(RestoreStage::Renaming) => stage is BeforeRename,
            QuarantineNext::Continue(RestoreStage::VerifyingPath) => stage is Renaming,
            QuarantineNext::Continue(RestoreStage::VerifyingQuarantine) => stage is VerifyingPath
                && shows(reply, expected),
            QuarantineNext::Done(_) => stage is VerifyingQuarantine && shows(reply, None),
            QuarantineNext::Failed(failure) => failure_in(reply) is Some || match stage {
                RestoreStage::CheckingQuarantine => !shows(reply, expected) && failure.message
                    == "quarantined file changed before restore"@,
                RestoreStage::CheckingPath => !shows(reply, None) && failure.message
                    == "quarantined file changed before restore"@,
                RestoreStage::VerifyingPath => !shows(reply, expected) && failure.message
                    == "path changed during quarantine restore"@,
                RestoreStage::VerifyingQuarantine => !shows(reply, None) && failure.message
                    == "path changed during quarantine restore"@,
                _ => false,
            },
        },
{
}

/// A directory returns step by step, as a file does.
pub proof fn law_directory_returns_step_by_step(
    expected: FileIdentity,
    stage: DirectoryRestoreStage,
    reply: QuarantineReply,
)
    requires
        stage.accepts(reply),
    ensures
        failure_in(reply) matches Some(failure) ==> directory_restore_next(expected, stage, reply)
            == QuarantineNext::<DirectoryRestoreStage, ()>::Failed(failure),
        match directory_restore_next(expected, stage, reply) {
            QuarantineNext::Continue(DirectoryRestoreStage::CheckingQuarantine) => false,
            QuarantineNext::Continue(DirectoryRestoreStage::CheckingPath) =>
                stage is CheckingQuarantine && tells(reply, Some(expected)),
            QuarantineNext::Continue(DirectoryRestoreStage::Renaming) => stage is CheckingPath
                && tells(reply, None),
            QuarantineNext::Continue(DirectoryRestoreStage::VerifyingPath) => stage is Renaming,
            QuarantineNext::Continue(DirectoryRestoreStage::VerifyingQuarantine) =>
                stage is VerifyingPath && tells(reply, Some(expected)),
            QuarantineNext::Done(_) => stage is VerifyingQuarantine && tells(reply, None),
            QuarantineNext::Failed(failure) => failure_in(reply) is Some || match stage {
                DirectoryRestoreStage::CheckingQuarantine => !tells(reply, Some(expected))
                    && failure.message == "quarantined directory changed before restore"@,
                DirectoryRestoreStage::CheckingPath => !tells(reply, None) && failure.message
                    == "quarantined directory changed before restore"@,
                DirectoryRestoreStage::VerifyingPath => !tells(reply, Some(expected))
                    && failure.message == "directory changed during quarantine restore"@,
                DirectoryRestoreStage::VerifyingQuarantine => !tells(reply, None) && failure.message
                    == "directory changed during quarantine restore"@,
                DirectoryRestoreStage::Renaming => false,
            },
        },
{
}

/// Whether the reply says that the private name `stage` asks for is free.
pub open spec fn is_free(stage: MoveStage, reply: QuarantineReply) -> bool {
    stage is Searching && (reply matches QuarantineReply::Done(Err(error)) && error.kind
        == ErrorKind::NotFound)
}

/// Whether moving aside goes from `stage` to `next` as the reply allows: another private name is
/// looked for after one that is taken, and the move is made to one that is free.
pub open spec fn moves_on(stage: MoveStage, reply: QuarantineReply, next: MoveStage) -> bool {
    match next {
        MoveStage::Searching(_) => stage is Searching && (reply matches QuarantineReply::Done(
            Ok(_),
        )),
        MoveStage::Renaming(candidate) => is_free(stage, reply) && stage->Searching_0.candidate
            == candidate,
    }
}

/// A file is removed step by step: each step follows the one before it, and only where that did not
/// fail and showed what it has to. The removal fails with the failure of a reply, where a look shows
/// something else, where there is no directory above, or where every private name that was tried is
/// taken.
pub proof fn law_file_is_removed_step_by_step(
    path: NativeView,
    expected: Option<Seq<u8>>,
    stage: DiscardStage,
    reply: QuarantineReply,
    step: QuarantineStep<DiscardStage, ()>,
)
    requires
        stage.accepts(reply),
        discard_follows(step, path, expected, stage, reply),
    ensures
        failure_in(reply) matches Some(failure) ==> {
            ||| stage matches DiscardStage::Quarantining(moving) && is_free(moving, reply)
            ||| step matches QuarantineStep::Done(Err(error)) && error@ == failure
        },
        match step {
            QuarantineStep::Continue(DiscardStage::ValidatingParent) => false,
            QuarantineStep::Continue(DiscardStage::Checking) => stage is ValidatingParent,
            QuarantineStep::Continue(DiscardStage::Quarantining(next)) => match stage {
                DiscardStage::Checking => shows(reply, expected) && next is Searching,
                DiscardStage::Quarantining(moving) => moves_on(moving, reply, next),
                _ => false,
            },
            QuarantineStep::Continue(DiscardStage::CheckingPrivate(aside)) => stage
                == DiscardStage::Quarantining(MoveStage::Renaming(aside)),
            QuarantineStep::Continue(DiscardStage::Removing(aside)) => stage
                == DiscardStage::CheckingPrivate(aside) && shows(reply, expected),
            QuarantineStep::Continue(DiscardStage::Verifying(aside)) => stage
                == DiscardStage::Removing(aside),
            QuarantineStep::Done(Ok(_)) => stage is Verifying && shows(reply, None),
            QuarantineStep::Done(Err(error)) => failure_in(reply) is Some || match stage {
                DiscardStage::Checking => if shows(reply, expected) {
                    path.place.names.len() == 0
                } else {
                    error.message@ == "quarantined file changed before cleanup"@
                },
                DiscardStage::CheckingPrivate(_) => !shows(reply, expected) && error.message@
                    == "quarantined file changed during cleanup"@,
                DiscardStage::Verifying(_) => !shows(reply, None) && error.message@
                    == "quarantined file remained after cleanup"@,
                DiscardStage::Quarantining(MoveStage::Searching(search)) => search.attempt >= 16,
                _ => false,
            },
        },
{
    if let DiscardStage::Quarantining(moving) = stage {
        let followed = choose|followed: QuarantineStep<MoveStage, NativePath>| #[trigger]
            move_follows(followed, path, moving, reply->Done_0) && discard_moved(step, followed);
        assert(move_follows(followed, path, moving, reply->Done_0));
    }
}

/// A directory is removed step by step: each step follows the one before it, and only where that did
/// not fail and told what it has to. Another directory that was moved aside is looked after: it is
/// put back where a look finds its place free.
pub proof fn law_directory_is_removed_step_by_step(
    path: NativeView,
    expected: FileIdentity,
    stage: RemovalStage,
    reply: QuarantineReply,
    step: QuarantineStep<RemovalStage, ()>,
)
    requires
        stage.accepts(reply),
        removal_follows(step, path, expected, stage, reply),
    ensures
        failure_in(reply) matches Some(failure) ==> {
            ||| stage matches RemovalStage::Quarantining(moving) && is_free(moving, reply)
            ||| step matches QuarantineStep::Done(Err(error)) && (error@ == failure
                || stage is Identifying || stage is PuttingBack)
        },
        match step {
            QuarantineStep::Continue(RemovalStage::Checking) => false,
            QuarantineStep::Continue(RemovalStage::BeforeRename) => stage is Checking && tells(
                reply,
                Some(expected),
            ),
            QuarantineStep::Continue(RemovalStage::Quarantining(next)) => match stage {
                RemovalStage::BeforeRename => next is Searching,
                RemovalStage::Quarantining(moving) => moves_on(moving, reply, next),
                _ => false,
            },
            QuarantineStep::Continue(RemovalStage::Identifying(aside)) => stage
                == RemovalStage::Quarantining(MoveStage::Renaming(aside)),
            QuarantineStep::Continue(RemovalStage::Removing(aside)) => stage
                == RemovalStage::Identifying(aside) && tells(reply, Some(expected)),
            QuarantineStep::Continue(RemovalStage::LookingBack { quarantine_path, moved }) => stage
                == RemovalStage::Identifying(quarantine_path) && tells(reply, Some(moved)) && moved
                != expected,
            QuarantineStep::Continue(
                RemovalStage::PuttingBack { quarantine_path, moved, stage: next },
            ) => match stage {
                RemovalStage::LookingBack { quarantine_path: aside, moved: other } => {
                    &&& aside == quarantine_path
                    &&& other == moved
                    &&& tells(reply, None)
                    &&& next is CheckingQuarantine
                },
                RemovalStage::PuttingBack { quarantine_path: aside, moved: other, stage: now } => {
                    &&& aside == quarantine_path
                    &&& other == moved
                    &&& directory_restore_next(moved, now, reply) == QuarantineNext::<
                        DirectoryRestoreStage,
                        (),
                    >::Continue(next)
                },
                _ => false,
            },
            QuarantineStep::Continue(RemovalStage::Verifying) => stage is Removing,
            QuarantineStep::Done(Ok(_)) => stage is Verifying && tells(reply, None),
            QuarantineStep::Done(Err(error)) => failure_in(reply) is Some || match stage {
                RemovalStage::Checking => !tells(reply, Some(expected)) && error.message@
                    == "created directory identity changed before rollback"@,
                RemovalStage::BeforeRename => path.place.names.len() == 0,
                RemovalStage::Quarantining(MoveStage::Searching(search)) => search.attempt >= 16,
                RemovalStage::Identifying(_) => tells(reply, None),
                RemovalStage::LookingBack { .. } => !tells(reply, None) && error.message@
                    == "created directory identity changed during rollback"@,
                RemovalStage::PuttingBack { .. } => true,
                RemovalStage::Verifying => !tells(reply, None) && error.message@
                    == "created directory path changed during rollback"@,
                _ => false,
            },
        },
        stage is Identifying || stage is PuttingBack ==> (step matches QuarantineStep::Done(result)
            ==> result matches Err(error) && error.message@
            == "created directory identity changed during rollback"@),
{
    if let RemovalStage::Quarantining(moving) = stage {
        let followed = choose|followed: QuarantineStep<MoveStage, NativePath>| #[trigger]
            move_follows(followed, path, moving, reply->Done_0) && removal_moved(step, followed);
        assert(move_follows(followed, path, moving, reply->Done_0));
    }
}

/// Whether moving `path` aside goes through `stages` with `replies` and comes to `step`.
pub open spec fn is_move_history(
    path: NativeView,
    stages: Seq<MoveStage>,
    replies: Seq<Result<(), IoError>>,
    step: QuarantineStep<MoveStage, NativePath>,
) -> bool {
    &&& replies.len() > 0
    &&& stages.len() == replies.len()
    &&& stages[0] matches MoveStage::Searching(search) && search.attempt == 1
    &&& forall|k: int|
        0 <= k < replies.len() - 1 ==> move_follows(
            QuarantineStep::Continue(stages[k + 1]),
            path,
            #[trigger] stages[k],
            replies[k],
        )
    &&& move_follows(step, path, stages.last(), replies.last())
}

proof fn lemma_attempts(
    path: NativeView,
    stages: Seq<MoveStage>,
    replies: Seq<Result<(), IoError>>,
    step: QuarantineStep<MoveStage, NativePath>,
    k: int,
)
    requires
        is_move_history(path, stages, replies, step),
        forall|k: int| 0 <= k < replies.len() ==> #[trigger] replies[k] is Ok,
        0 <= k < replies.len(),
    ensures
        stages[k] matches MoveStage::Searching(search) && search.attempt == k + 1,
        k < 16,
    decreases k,
{
    if k > 0 {
        lemma_attempts(path, stages, replies, step, k - 1);
        assert(replies[k - 1] is Ok);
        assert(move_follows(
            QuarantineStep::Continue(stages[k]),
            path,
            stages[k - 1],
            replies[k - 1],
        ));
    }
}

/// While every private name that is tried is taken, another one is tried, sixteen in all.
pub proof fn law_sixteen_private_names_are_tried(
    path: NativeView,
    stages: Seq<MoveStage>,
    replies: Seq<Result<(), IoError>>,
    step: QuarantineStep<MoveStage, NativePath>,
)
    requires
        is_move_history(path, stages, replies, step),
        forall|k: int| 0 <= k < replies.len() ==> #[trigger] replies[k] is Ok,
    ensures
        replies.len() <= 16,
        step is Done <==> replies.len() == 16,
        step matches QuarantineStep::Done(result) ==> result is Err,
{
    let last = replies.len() - 1;
    lemma_attempts(path, stages, replies, step, last);
    assert(replies[last] is Ok);
}

} // verus!
