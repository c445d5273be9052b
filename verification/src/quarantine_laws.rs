//! What quarantine keeps: no file is lost but the one that is to be removed, and nothing is
//! overwritten.

use vstd::prelude::*;

use crate::error::ErrorKind;
use crate::path::{NativePath, Place};
use crate::quarantine::{
    discard_follows, discard_moved, is_private, move_follows, restore_next, DiscardStage,
    FileIdentity, MoveStage, QuarantineNext, QuarantineReply, QuarantineRequest, QuarantineStep,
    RestoreStage,
};
use crate::quarantine_directory::{
    directory_restore_next, removal_follows, removal_moved, DirectoryRestoreStage, RemovalStage,
};

verus! {

/// What the file at `place` holds; `None` is no file.
pub open spec fn file_at(files: Map<Place, Seq<u8>>, place: Place) -> Option<Seq<u8>> {
    if files.contains_key(place) {
        Some(files[place])
    } else {
        None
    }
}

/// The files with the one at `from` moved to `to`.
pub open spec fn moved(files: Map<Place, Seq<u8>>, from: Place, to: Place) -> Map<Place, Seq<u8>> {
    files.remove(from).insert(to, files[from])
}

/// Whether `reply` and `after` are what a filesystem that holds `before` can make of `request`, while
/// nobody else changes anything. What it says of a file is true, and a move replaces nothing. Every
/// request may fail; a failed move moves nothing.
pub open spec fn is_true_to(
    before: Map<Place, Seq<u8>>,
    request: QuarantineRequest<'_>,
    reply: QuarantineReply,
    after: Map<Place, Seq<u8>>,
) -> bool {
    &&& request.is_answered_by(reply)
    &&& match request {
        QuarantineRequest::ReadSnapshot { path } => {
            &&& after == before
            &&& reply->Snapshot_0 matches Ok(snapshot) ==> snapshot@ == file_at(
                before,
                path@.place,
            )
        },
        QuarantineRequest::RenameNoReplace { from, to } => if reply->Done_0 is Ok {
            &&& before.contains_key(from@.place)
            &&& !before.contains_key(to@.place)
            &&& after == moved(before, from@.place, to@.place)
        } else {
            after == before
        },
        QuarantineRequest::RemoveFile { path } => {
            ||| after == before.remove(path@.place)
            ||| reply->Done_0 is Err && after == before
        },
        _ => after == before,
    }
}

/// Where the return of a file stands after `replies`, in order.
pub open spec fn restore_after(
    expected: Option<Seq<u8>>,
    replies: Seq<QuarantineReply>,
) -> QuarantineNext<RestoreStage, ()>
    decreases replies.len(),
{
    if replies.len() == 0 {
        QuarantineNext::Continue(RestoreStage::ValidatingParent)
    } else {
        match restore_after(expected, replies.drop_last()) {
            QuarantineNext::Continue(stage) => restore_next(expected, stage, replies.last()),
            next => next,
        }
    }
}

/// Whether `replies` are those of a filesystem that goes through `worlds` while the file
/// `quarantine_path` returns to `path`.
pub open spec fn is_restore_history(
    path: NativePath,
    quarantine_path: NativePath,
    expected: Option<Seq<u8>>,
    replies: Seq<QuarantineReply>,
    worlds: Seq<Map<Place, Seq<u8>>>,
) -> bool {
    &&& worlds.len() == replies.len() + 1
    &&& forall|k: int|
        0 <= k < replies.len() ==> {
            &&& restore_after(expected, #[trigger] replies.take(k)) matches
                QuarantineNext::Continue(stage)
            &&& is_true_to(
                worlds[k],
                stage.request_spec(&path, &quarantine_path),
                replies[k],
                worlds[k + 1],
            )
        }
}

/// What holds of the files while the return stands at `next`.
spec fn restore_holds(
    from: Place,
    to: Place,
    expected: Option<Seq<u8>>,
    next: QuarantineNext<RestoreStage, ()>,
    start: Map<Place, Seq<u8>>,
    now: Map<Place, Seq<u8>>,
) -> bool {
    let checked = file_at(start, from) == expected && file_at(start, to) is None;
    match next {
        QuarantineNext::Continue(stage) => match stage {
            RestoreStage::ValidatingParent | RestoreStage::CheckingQuarantine => now == start,
            RestoreStage::CheckingPath => now == start && file_at(start, from) == expected,
            RestoreStage::BeforeRename | RestoreStage::Renaming => now == start && checked,
            RestoreStage::VerifyingPath | RestoreStage::VerifyingQuarantine => {
                &&& now == moved(start, from, to)
                &&& checked
                &&& expected is Some
            },
        },
        QuarantineNext::Done(_) => now == moved(start, from, to) && checked && expected is Some,
        QuarantineNext::Failed(_) => now == start || (now == moved(start, from, to) && checked
            && expected is Some),
    }
}

proof fn lemma_restore(
    path: NativePath,
    quarantine_path: NativePath,
    expected: Option<Seq<u8>>,
    replies: Seq<QuarantineReply>,
    worlds: Seq<Map<Place, Seq<u8>>>,
)
    requires
        is_restore_history(path, quarantine_path, expected, replies, worlds),
    ensures
        restore_holds(
            quarantine_path@.place,
            path@.place,
            expected,
            restore_after(expected, replies),
            worlds[0],
            worlds.last(),
        ),
    decreases replies.len(),
{
    if replies.len() > 0 {
        let earlier = replies.drop_last();
        let seen = worlds.drop_last();
        assert(earlier =~= replies.take(replies.len() - 1));
        assert forall|k: int| 0 <= k < earlier.len() implies {
            &&& restore_after(expected, #[trigger] earlier.take(k)) matches
                QuarantineNext::Continue(stage)
            &&& is_true_to(
                seen[k],
                stage.request_spec(&path, &quarantine_path),
                earlier[k],
                seen[k + 1],
            )
        } by {
            assert(earlier.take(k) =~= replies.take(k));
        }
        lemma_restore(path, quarantine_path, expected, earlier, seen);
        assert(seen.last() == worlds[replies.len() - 1]);
    }
}

/// A file that returns is moved, and nothing else happens: at every point the files are as they were,
/// or the one file has moved to a place that was free. Where the return succeeds it has moved, and it
/// held what was expected.
pub proof fn law_restore_moves_one_file(
    path: NativePath,
    quarantine_path: NativePath,
    expected: Option<Seq<u8>>,
    replies: Seq<QuarantineReply>,
    worlds: Seq<Map<Place, Seq<u8>>>,
)
    requires
        is_restore_history(path, quarantine_path, expected, replies, worlds),
    ensures
        worlds.last() == worlds[0] || (worlds.last() == moved(
            worlds[0],
            quarantine_path@.place,
            path@.place,
        ) && !worlds[0].contains_key(path@.place)),
        restore_after(expected, replies) is Done ==> {
            &&& worlds.last() == moved(worlds[0], quarantine_path@.place, path@.place)
            &&& file_at(worlds.last(), path@.place) == expected
            &&& file_at(worlds[0], quarantine_path@.place) == expected
            &&& !worlds[0].contains_key(path@.place)
        },
{
    lemma_restore(path, quarantine_path, expected, replies, worlds);
}

/// Whether the removal of the file at `path` goes through `stages` and ends with `step`, while
/// `replies` are those of a filesystem that goes through `worlds`.
pub open spec fn is_discard_history(
    path: NativePath,
    expected: Option<Seq<u8>>,
    stages: Seq<DiscardStage>,
    replies: Seq<QuarantineReply>,
    worlds: Seq<Map<Place, Seq<u8>>>,
    step: QuarantineStep<DiscardStage, ()>,
) -> bool {
    &&& replies.len() > 0
    &&& stages.len() == replies.len()
    &&& worlds.len() == replies.len() + 1
    &&& stages[0] is ValidatingParent
    &&& forall|k: int|
        0 <= k < replies.len() ==> is_true_to(
            worlds[k],
            (#[trigger] stages[k]).request_spec(&path),
            replies[k],
            worlds[k + 1],
        )
    &&& forall|k: int|
        0 <= k < replies.len() - 1 ==> discard_follows(
            QuarantineStep::Continue(stages[k + 1]),
            path@,
            expected,
            #[trigger] stages[k],
            replies[k],
        )
    &&& discard_follows(step, path@, expected, stages.last(), replies.last())
}

/// What holds of the files at a stage of the removal of the file at `place`.
spec fn discard_holds(
    place: Place,
    expected: Option<Seq<u8>>,
    stage: DiscardStage,
    start: Map<Place, Seq<u8>>,
    now: Map<Place, Seq<u8>>,
) -> bool {
    match stage {
        DiscardStage::ValidatingParent | DiscardStage::Checking => now == start,
        DiscardStage::Quarantining(_) => now == start && file_at(start, place) == expected,
        DiscardStage::CheckingPrivate(aside) | DiscardStage::Removing(aside) => is_aside(
            place,
            aside@.place,
            expected,
            start,
            now,
        ),
        DiscardStage::Verifying(aside) => {
            &&& now == start.remove(place)
            &&& !start.contains_key(aside@.place)
            &&& start.contains_key(place)
            &&& file_at(start, place) == expected
        },
    }
}

/// Whether the file at `place`, which held what was expected, has moved to `aside`, which was free.
spec fn is_aside(
    place: Place,
    aside: Place,
    expected: Option<Seq<u8>>,
    start: Map<Place, Seq<u8>>,
    now: Map<Place, Seq<u8>>,
) -> bool {
    &&& start.contains_key(place)
    &&& file_at(start, place) == expected
    &&& !start.contains_key(aside)
    &&& now == moved(start, place, aside)
}

/// Whether the files are as they were, or the file at `place` is moved to a free place, or gone, and
/// it held what was expected.
pub open spec fn is_discarded_at_most(
    place: Place,
    expected: Option<Seq<u8>>,
    start: Map<Place, Seq<u8>>,
    now: Map<Place, Seq<u8>>,
) -> bool {
    ||| now == start
    ||| {
        &&& file_at(start, place) == expected
        &&& start.contains_key(place)
        &&& now == start.remove(place) || exists|aside: Place|
            !start.contains_key(aside) && now == #[trigger] moved(start, place, aside)
    }
}

/// One step of the removal.
proof fn lemma_discard_step(
    path: NativePath,
    expected: Option<Seq<u8>>,
    stage: DiscardStage,
    reply: QuarantineReply,
    step: QuarantineStep<DiscardStage, ()>,
    start: Map<Place, Seq<u8>>,
    before: Map<Place, Seq<u8>>,
    after: Map<Place, Seq<u8>>,
)
    requires
        discard_holds(path@.place, expected, stage, start, before),
        is_true_to(before, stage.request_spec(&path), reply, after),
        discard_follows(step, path@, expected, stage, reply),
    ensures
        is_discarded_at_most(path@.place, expected, start, after),
        match step {
            QuarantineStep::Continue(next) => discard_holds(
                path@.place,
                expected,
                next,
                start,
                after,
            ),
            QuarantineStep::Done(Ok(_)) => after == start.remove(path@.place) && start.contains_key(
                path@.place,
            ) && file_at(start, path@.place) == expected,
            QuarantineStep::Done(Err(_)) => true,
        },
{
    let place = path@.place;
    match stage {
        DiscardStage::Quarantining(moving) => {
            let followed = choose|followed: QuarantineStep<MoveStage, NativePath>| #[trigger]
                move_follows(followed, path@, moving, reply->Done_0) && discard_moved(
                    step,
                    followed,
                );
            if let MoveStage::Renaming(candidate) = moving {
                if reply->Done_0 is Ok {
                    assert(is_aside(place, candidate@.place, expected, start, after));
                }
            }
        },
        DiscardStage::Removing(aside) => {
            assert(moved(start, place, aside@.place).remove(aside@.place) =~= start.remove(place));
        },
        _ => {},
    }
}

/// Removing a file removes that file and no other: at every point the files are as they were, or the
/// file is under a name that was free, or gone, and it held what was expected. Where the removal
/// succeeds it is gone, and everything else is as it was.
pub proof fn law_discard_removes_one_file(
    path: NativePath,
    expected: Option<Seq<u8>>,
    stages: Seq<DiscardStage>,
    replies: Seq<QuarantineReply>,
    worlds: Seq<Map<Place, Seq<u8>>>,
    step: QuarantineStep<DiscardStage, ()>,
)
    requires
        is_discard_history(path, expected, stages, replies, worlds, step),
    ensures
        is_discarded_at_most(path@.place, expected, worlds[0], worlds.last()),
        step matches QuarantineStep::Done(Ok(_)) ==> {
            &&& worlds.last() == worlds[0].remove(path@.place)
            &&& worlds[0].contains_key(path@.place)
            &&& file_at(worlds[0], path@.place) == expected
        },
{
    let last = replies.len() - 1;
    lemma_discard(path, expected, stages, replies, worlds, step, last);
    lemma_discard_step(
        path,
        expected,
        stages[last],
        replies[last],
        step,
        worlds[0],
        worlds[last],
        worlds[last + 1],
    );
}

proof fn lemma_discard(
    path: NativePath,
    expected: Option<Seq<u8>>,
    stages: Seq<DiscardStage>,
    replies: Seq<QuarantineReply>,
    worlds: Seq<Map<Place, Seq<u8>>>,
    step: QuarantineStep<DiscardStage, ()>,
    k: int,
)
    requires
        is_discard_history(path, expected, stages, replies, worlds, step),
        0 <= k < replies.len(),
    ensures
        discard_holds(path@.place, expected, stages[k], worlds[0], worlds[k]),
    decreases k,
{
    if k > 0 {
        lemma_discard(path, expected, stages, replies, worlds, step, k - 1);
        assert(is_true_to(
            worlds[k - 1],
            stages[k - 1].request_spec(&path),
            replies[k - 1],
            worlds[k],
        ));
        assert(discard_follows(
            QuarantineStep::Continue(stages[k]),
            path@,
            expected,
            stages[k - 1],
            replies[k - 1],
        ));
        lemma_discard_step(
            path,
            expected,
            stages[k - 1],
            replies[k - 1],
            QuarantineStep::Continue(stages[k]),
            worlds[0],
            worlds[k - 1],
            worlds[k],
        );
    }
}

/// A directory is removed only under a private name, and only after a look has shown that it is the
/// one that was made.
pub proof fn law_only_the_made_directory_is_removed(
    path: NativePath,
    expected: FileIdentity,
    stage: RemovalStage,
    reply: QuarantineReply,
    quarantine_path: NativePath,
)
    requires
        stage.is_valid(path@),
        stage.accepts(reply),
        removal_follows(
            QuarantineStep::Continue(RemovalStage::Removing(quarantine_path)),
            path@,
            expected,
            stage,
            reply,
        ),
    ensures
        stage == RemovalStage::Identifying(quarantine_path),
        reply == QuarantineReply::Identity(Ok(Some(expected))),
        is_private(quarantine_path@, path@),
{
}

/// Which directory is at `place`, if there is any.
pub open spec fn directory_at(
    directories: Map<Place, FileIdentity>,
    place: Place,
) -> Option<FileIdentity> {
    if directories.contains_key(place) {
        Some(directories[place])
    } else {
        None
    }
}

/// The directories with the one at `from` moved to `to`.
pub open spec fn directory_moved(
    directories: Map<Place, FileIdentity>,
    from: Place,
    to: Place,
) -> Map<Place, FileIdentity> {
    directories.remove(from).insert(to, directories[from])
}

/// Whether `reply` and `after` are what a filesystem with the directories `before` can make of
/// `request`, while nobody else changes anything. What it says of a directory is true, and a move
/// replaces nothing. Every request may fail; a failed move moves nothing.
pub open spec fn is_true_of_directories(
    before: Map<Place, FileIdentity>,
    request: QuarantineRequest<'_>,
    reply: QuarantineReply,
    after: Map<Place, FileIdentity>,
) -> bool {
    &&& request.is_answered_by(reply)
    &&& match request {
        QuarantineRequest::Identify { path } => {
            &&& after == before
            &&& reply->Identity_0 matches Ok(found) ==> found == directory_at(before, path@.place)
        },
        QuarantineRequest::RenameNoReplace { from, to } => if reply->Done_0 is Ok {
            &&& before.contains_key(from@.place)
            &&& !before.contains_key(to@.place)
            &&& after == directory_moved(before, from@.place, to@.place)
        } else {
            after == before
        },
        QuarantineRequest::RemoveDirectory { path } => {
            ||| after == before.remove(path@.place)
            ||| reply->Done_0 is Err && after == before
        },
        _ => after == before,
    }
}

/// Whether the removal of the directory `expected` at `path` goes through `stages` and ends with
/// `step`, while `replies` are those of a filesystem that goes through `worlds`.
pub open spec fn is_removal_history(
    path: NativePath,
    expected: FileIdentity,
    stages: Seq<RemovalStage>,
    replies: Seq<QuarantineReply>,
    worlds: Seq<Map<Place, FileIdentity>>,
    step: QuarantineStep<RemovalStage, ()>,
) -> bool {
    &&& replies.len() > 0
    &&& stages.len() == replies.len()
    &&& worlds.len() == replies.len() + 1
    &&& stages[0] is Checking
    &&& forall|k: int|
        0 <= k < replies.len() ==> is_true_of_directories(
            worlds[k],
            (#[trigger] stages[k]).request_spec(&path),
            replies[k],
            worlds[k + 1],
        )
    &&& forall|k: int|
        0 <= k < replies.len() - 1 ==> removal_follows(
            QuarantineStep::Continue(stages[k + 1]),
            path@,
            expected,
            #[trigger] stages[k],
            replies[k],
        )
    &&& removal_follows(step, path@, expected, stages.last(), replies.last())
}

/// What holds of the directories at a stage of the removal of the one at `place`. Where nobody else
/// changes anything, no other directory is ever moved aside.
spec fn removal_holds(
    place: Place,
    expected: FileIdentity,
    stage: RemovalStage,
    start: Map<Place, FileIdentity>,
    now: Map<Place, FileIdentity>,
) -> bool {
    let is_expected = directory_at(start, place) == Some(expected);
    match stage {
        RemovalStage::Checking => now == start,
        RemovalStage::BeforeRename | RemovalStage::Quarantining(_) => now == start && is_expected,
        RemovalStage::Identifying(aside) | RemovalStage::Removing(aside) => {
            &&& is_expected
            &&& !start.contains_key(aside@.place)
            &&& now == directory_moved(start, place, aside@.place)
        },
        RemovalStage::LookingBack { .. } | RemovalStage::PuttingBack { .. } => false,
        RemovalStage::Verifying => is_expected && now == start.remove(place),
    }
}

/// Whether the directories are as they were, or the one at `place` is moved to a free place, or gone,
/// and it was the expected one.
pub open spec fn is_removed_at_most(
    place: Place,
    expected: FileIdentity,
    start: Map<Place, FileIdentity>,
    now: Map<Place, FileIdentity>,
) -> bool {
    ||| now == start
    ||| {
        &&& directory_at(start, place) == Some(expected)
        &&& now == start.remove(place) || exists|aside: Place|
            !start.contains_key(aside) && now == #[trigger] directory_moved(start, place, aside)
    }
}

/// One step of the removal.
proof fn lemma_removal_step(
    path: NativePath,
    expected: FileIdentity,
    stage: RemovalStage,
    reply: QuarantineReply,
    step: QuarantineStep<RemovalStage, ()>,
    start: Map<Place, FileIdentity>,
    before: Map<Place, FileIdentity>,
    after: Map<Place, FileIdentity>,
)
    requires
        removal_holds(path@.place, expected, stage, start, before),
        is_true_of_directories(before, stage.request_spec(&path), reply, after),
        removal_follows(step, path@, expected, stage, reply),
    ensures
        is_removed_at_most(path@.place, expected, start, after),
        match step {
            QuarantineStep::Continue(next) => removal_holds(
                path@.place,
                expected,
                next,
                start,
                after,
            ),
            QuarantineStep::Done(Ok(_)) => after == start.remove(path@.place) && directory_at(
                start,
                path@.place,
            ) == Some(expected),
            QuarantineStep::Done(Err(_)) => true,
        },
{
    let place = path@.place;
    match stage {
        RemovalStage::Quarantining(moving) => {
            let followed = choose|followed: QuarantineStep<MoveStage, NativePath>| #[trigger]
                move_follows(followed, path@, moving, reply->Done_0) && removal_moved(
                    step,
                    followed,
                );
            if let MoveStage::Renaming(candidate) = moving {
                if reply->Done_0 is Ok {
                    assert(after == directory_moved(start, place, candidate@.place));
                }
            }
        },
        RemovalStage::Identifying(aside) => {
            assert(directory_at(before, aside@.place) == Some(expected));
            assert(after == directory_moved(start, place, aside@.place));
        },
        RemovalStage::Removing(aside) => {
            assert(directory_moved(start, place, aside@.place).remove(aside@.place)
                =~= start.remove(place));
            assert(before == directory_moved(start, place, aside@.place));
        },
        _ => {},
    }
}

proof fn lemma_removal(
    path: NativePath,
    expected: FileIdentity,
    stages: Seq<RemovalStage>,
    replies: Seq<QuarantineReply>,
    worlds: Seq<Map<Place, FileIdentity>>,
    step: QuarantineStep<RemovalStage, ()>,
    k: int,
)
    requires
        is_removal_history(path, expected, stages, replies, worlds, step),
        0 <= k < replies.len(),
    ensures
        removal_holds(path@.place, expected, stages[k], worlds[0], worlds[k]),
    decreases k,
{
    if k > 0 {
        lemma_removal(path, expected, stages, replies, worlds, step, k - 1);
        assert(is_true_of_directories(
            worlds[k - 1],
            stages[k - 1].request_spec(&path),
            replies[k - 1],
            worlds[k],
        ));
        assert(removal_follows(
            QuarantineStep::Continue(stages[k]),
            path@,
            expected,
            stages[k - 1],
            replies[k - 1],
        ));
        lemma_removal_step(
            path,
            expected,
            stages[k - 1],
            replies[k - 1],
            QuarantineStep::Continue(stages[k]),
            worlds[0],
            worlds[k - 1],
            worlds[k],
        );
    }
}

/// Removing a directory removes that directory and no other: at every point the directories are as
/// they were, or it is under a name that was free, or gone, and it was the one that was made. Where
/// the removal succeeds it is gone, and everything else is as it was.
pub proof fn law_removal_removes_one_directory(
    path: NativePath,
    expected: FileIdentity,
    stages: Seq<RemovalStage>,
    replies: Seq<QuarantineReply>,
    worlds: Seq<Map<Place, FileIdentity>>,
    step: QuarantineStep<RemovalStage, ()>,
)
    requires
        is_removal_history(path, expected, stages, replies, worlds, step),
    ensures
        is_removed_at_most(path@.place, expected, worlds[0], worlds.last()),
        step matches QuarantineStep::Done(Ok(_)) ==> {
            &&& worlds.last() == worlds[0].remove(path@.place)
            &&& directory_at(worlds[0], path@.place) == Some(expected)
        },
{
    let last = replies.len() - 1;
    lemma_removal(path, expected, stages, replies, worlds, step, last);
    lemma_removal_step(
        path,
        expected,
        stages[last],
        replies[last],
        step,
        worlds[0],
        worlds[last],
        worlds[last + 1],
    );
}

/// Where the return of a directory stands after `replies`, in order.
pub open spec fn directory_restore_after(
    expected: FileIdentity,
    replies: Seq<QuarantineReply>,
) -> QuarantineNext<DirectoryRestoreStage, ()>
    decreases replies.len(),
{
    if replies.len() == 0 {
        QuarantineNext::Continue(DirectoryRestoreStage::CheckingQuarantine)
    } else {
        match directory_restore_after(expected, replies.drop_last()) {
            QuarantineNext::Continue(stage) => directory_restore_next(
                expected,
                stage,
                replies.last(),
            ),
            next => next,
        }
    }
}

/// Whether `replies` are those of a filesystem that goes through `worlds` while the directory
/// `quarantine_path` returns to `path`.
pub open spec fn is_directory_restore_history(
    path: NativePath,
    quarantine_path: NativePath,
    expected: FileIdentity,
    replies: Seq<QuarantineReply>,
    worlds: Seq<Map<Place, FileIdentity>>,
) -> bool {
    &&& worlds.len() == replies.len() + 1
    &&& forall|k: int|
        0 <= k < replies.len() ==> {
            &&& directory_restore_after(expected, #[trigger] replies.take(k)) matches
                QuarantineNext::Continue(stage)
            &&& is_true_of_directories(
                worlds[k],
                stage.request_spec(&path, &quarantine_path),
                replies[k],
                worlds[k + 1],
            )
        }
}

/// What holds of the directories while the return stands at `next`.
spec fn directory_restore_holds(
    from: Place,
    to: Place,
    expected: FileIdentity,
    next: QuarantineNext<DirectoryRestoreStage, ()>,
    start: Map<Place, FileIdentity>,
    now: Map<Place, FileIdentity>,
) -> bool {
    let is_expected = directory_at(start, from) == Some(expected);
    let has_moved = {
        &&& is_expected
        &&& !start.contains_key(to)
        &&& now == directory_moved(start, from, to)
    };
    match next {
        QuarantineNext::Continue(stage) => match stage {
            DirectoryRestoreStage::CheckingQuarantine => now == start,
            DirectoryRestoreStage::CheckingPath | DirectoryRestoreStage::Renaming => now == start
                && is_expected,
            DirectoryRestoreStage::VerifyingPath | DirectoryRestoreStage::VerifyingQuarantine =>
                has_moved,
        },
        QuarantineNext::Done(_) => has_moved,
        QuarantineNext::Failed(_) => now == start || has_moved,
    }
}

proof fn lemma_directory_restore(
    path: NativePath,
    quarantine_path: NativePath,
    expected: FileIdentity,
    replies: Seq<QuarantineReply>,
    worlds: Seq<Map<Place, FileIdentity>>,
)
    requires
        is_directory_restore_history(path, quarantine_path, expected, replies, worlds),
    ensures
        directory_restore_holds(
            quarantine_path@.place,
            path@.place,
            expected,
            directory_restore_after(expected, replies),
            worlds[0],
            worlds.last(),
        ),
    decreases replies.len(),
{
    if replies.len() > 0 {
        let earlier = replies.drop_last();
        let seen = worlds.drop_last();
        assert(earlier =~= replies.take(replies.len() - 1));
        assert forall|k: int| 0 <= k < earlier.len() implies {
            &&& directory_restore_after(expected, #[trigger] earlier.take(k)) matches
                QuarantineNext::Continue(stage)
            &&& is_true_of_directories(
                seen[k],
                stage.request_spec(&path, &quarantine_path),
                earlier[k],
                seen[k + 1],
            )
        } by {
            assert(earlier.take(k) =~= replies.take(k));
        }
        lemma_directory_restore(path, quarantine_path, expected, earlier, seen);
        assert(seen.last() == worlds[replies.len() - 1]);
    }
}

/// A directory that returns is moved, and nothing else happens: at every point the directories are as
/// they were, or the one has moved to a place that was free. Where the return succeeds it has moved,
/// and it was the expected one.
pub proof fn law_restore_moves_one_directory(
    path: NativePath,
    quarantine_path: NativePath,
    expected: FileIdentity,
    replies: Seq<QuarantineReply>,
    worlds: Seq<Map<Place, FileIdentity>>,
)
    requires
        is_directory_restore_history(path, quarantine_path, expected, replies, worlds),
    ensures
        worlds.last() == worlds[0] || (worlds.last() == directory_moved(
            worlds[0],
            quarantine_path@.place,
            path@.place,
        ) && !worlds[0].contains_key(path@.place)),
        directory_restore_after(expected, replies) is Done ==> {
            &&& worlds.last() == directory_moved(worlds[0], quarantine_path@.place, path@.place)
            &&& directory_at(worlds[0], quarantine_path@.place) == Some(expected)
            &&& !worlds[0].contains_key(path@.place)
        },
{
    lemma_directory_restore(path, quarantine_path, expected, replies, worlds);
}

/// Whether the request did not fail: what was asked for took place or was seen, and a private name
/// that was probed is free.
pub open spec fn is_served(request: QuarantineRequest<'_>, reply: QuarantineReply) -> bool {
    match (request, reply) {
        (QuarantineRequest::Probe { .. }, QuarantineReply::Done(Err(error))) => error.kind
            == ErrorKind::NotFound,
        (QuarantineRequest::Probe { .. }, _) => false,
        (_, QuarantineReply::Snapshot(seen)) => seen is Ok,
        (_, QuarantineReply::Identity(found)) => found is Ok,
        (_, QuarantineReply::Done(done)) => done is Ok,
    }
}

/// Whether nothing fails while a file returns.
pub open spec fn is_restore_served(
    path: NativePath,
    quarantine_path: NativePath,
    expected: Option<Seq<u8>>,
    replies: Seq<QuarantineReply>,
) -> bool {
    forall|k: int|
        0 <= k < replies.len() ==> {
            &&& restore_after(expected, #[trigger] replies.take(k)) matches
                QuarantineNext::Continue(stage)
            &&& is_served(stage.request_spec(&path, &quarantine_path), replies[k])
        }
}

/// A file that is as expected returns to a place that is free, where nothing fails.
pub proof fn law_expected_file_returns(
    path: NativePath,
    quarantine_path: NativePath,
    expected: Option<Seq<u8>>,
    replies: Seq<QuarantineReply>,
    worlds: Seq<Map<Place, Seq<u8>>>,
)
    requires
        is_restore_history(path, quarantine_path, expected, replies, worlds),
        is_restore_served(path, quarantine_path, expected, replies),
        file_at(worlds[0], quarantine_path@.place) == expected,
        file_at(worlds[0], path@.place) is None,
    ensures
        !(restore_after(expected, replies) is Failed),
{
    if replies.len() > 0 {
        let last = replies.len() - 1;
        let earlier = replies.take(last);
        let seen = worlds.drop_last();
        assert(replies.drop_last() =~= earlier);
        assert forall|k: int| 0 <= k < earlier.len() implies {
            &&& restore_after(expected, #[trigger] earlier.take(k)) matches
                QuarantineNext::Continue(stage)
            &&& is_true_to(
                seen[k],
                stage.request_spec(&path, &quarantine_path),
                earlier[k],
                seen[k + 1],
            )
        } by {
            assert(earlier.take(k) =~= replies.take(k));
        }
        lemma_restore(path, quarantine_path, expected, earlier, seen);
        assert(seen.last() == worlds[last]);
        let stage = restore_after(expected, earlier)->Continue_0;
        assert(is_served(stage.request_spec(&path, &quarantine_path), replies[last]));
        assert(is_true_to(
            worlds[last],
            stage.request_spec(&path, &quarantine_path),
            replies[last],
            worlds[last + 1],
        ));
    }
}

/// A file that is as expected is removed, where nothing fails.
pub proof fn law_expected_file_is_removed(
    path: NativePath,
    expected: Option<Seq<u8>>,
    stages: Seq<DiscardStage>,
    replies: Seq<QuarantineReply>,
    worlds: Seq<Map<Place, Seq<u8>>>,
    step: QuarantineStep<DiscardStage, ()>,
)
    requires
        is_discard_history(path, expected, stages, replies, worlds, step),
        forall|k: int|
            0 <= k < replies.len() ==> is_served(
                (#[trigger] stages[k]).request_spec(&path),
                replies[k],
            ),
        file_at(worlds[0], path@.place) == expected,
        path@.place.names.len() > 0,
    ensures
        step matches QuarantineStep::Done(result) ==> result is Ok,
{
    let last = replies.len() - 1;
    let stage = stages[last];
    lemma_discard(path, expected, stages, replies, worlds, step, last);
    assert(is_served(stage.request_spec(&path), replies[last]));
    assert(is_true_to(worlds[last], stage.request_spec(&path), replies[last], worlds[last + 1]));
    if let DiscardStage::Quarantining(moving) = stage {
        let followed = choose|followed: QuarantineStep<MoveStage, NativePath>| #[trigger]
            move_follows(followed, path@, moving, replies[last]->Done_0) && discard_moved(
                step,
                followed,
            );
        assert(move_follows(followed, path@, moving, replies[last]->Done_0));
    }
}

/// A directory that is the one that was made is removed, where nothing fails.
pub proof fn law_made_directory_is_removed(
    path: NativePath,
    expected: FileIdentity,
    stages: Seq<RemovalStage>,
    replies: Seq<QuarantineReply>,
    worlds: Seq<Map<Place, FileIdentity>>,
    step: QuarantineStep<RemovalStage, ()>,
)
    requires
        is_removal_history(path, expected, stages, replies, worlds, step),
        forall|k: int|
            0 <= k < replies.len() ==> is_served(
                (#[trigger] stages[k]).request_spec(&path),
                replies[k],
            ),
        directory_at(worlds[0], path@.place) == Some(expected),
        path@.place.names.len() > 0,
    ensures
        step matches QuarantineStep::Done(result) ==> result is Ok,
{
    let last = replies.len() - 1;
    let stage = stages[last];
    lemma_removal(path, expected, stages, replies, worlds, step, last);
    assert(is_served(stage.request_spec(&path), replies[last]));
    assert(is_true_of_directories(
        worlds[last],
        stage.request_spec(&path),
        replies[last],
        worlds[last + 1],
    ));
    if let RemovalStage::Quarantining(moving) = stage {
        let followed = choose|followed: QuarantineStep<MoveStage, NativePath>| #[trigger]
            move_follows(followed, path@, moving, replies[last]->Done_0) && removal_moved(
                step,
                followed,
            );
        assert(move_follows(followed, path@, moving, replies[last]->Done_0));
    }
}

/// Whether nothing fails while a directory returns.
pub open spec fn is_directory_restore_served(
    path: NativePath,
    quarantine_path: NativePath,
    expected: FileIdentity,
    replies: Seq<QuarantineReply>,
) -> bool {
    forall|k: int|
        0 <= k < replies.len() ==> {
            &&& directory_restore_after(expected, #[trigger] replies.take(k)) matches
                QuarantineNext::Continue(stage)
            &&& is_served(stage.request_spec(&path, &quarantine_path), replies[k])
        }
}

/// A directory that is the expected one returns to a place that is free, where nothing fails.
pub proof fn law_expected_directory_returns(
    path: NativePath,
    quarantine_path: NativePath,
    expected: FileIdentity,
    replies: Seq<QuarantineReply>,
    worlds: Seq<Map<Place, FileIdentity>>,
)
    requires
        is_directory_restore_history(path, quarantine_path, expected, replies, worlds),
        is_directory_restore_served(path, quarantine_path, expected, replies),
        directory_at(worlds[0], quarantine_path@.place) == Some(expected),
        directory_at(worlds[0], path@.place) is None,
    ensures
        !(directory_restore_after(expected, replies) is Failed),
{
    if replies.len() > 0 {
        let last = replies.len() - 1;
        let earlier = replies.take(last);
        let seen = worlds.drop_last();
        assert(replies.drop_last() =~= earlier);
        assert forall|k: int| 0 <= k < earlier.len() implies {
            &&& directory_restore_after(expected, #[trigger] earlier.take(k)) matches
                QuarantineNext::Continue(stage)
            &&& is_true_of_directories(
                seen[k],
                stage.request_spec(&path, &quarantine_path),
                earlier[k],
                seen[k + 1],
            )
        } by {
            assert(earlier.take(k) =~= replies.take(k));
        }
        lemma_directory_restore(path, quarantine_path, expected, earlier, seen);
        assert(seen.last() == worlds[last]);
        let stage = directory_restore_after(expected, earlier)->Continue_0;
        assert(is_served(stage.request_spec(&path, &quarantine_path), replies[last]));
        assert(is_true_of_directories(
            worlds[last],
            stage.request_spec(&path, &quarantine_path),
            replies[last],
            worlds[last + 1],
        ));
    }
}

/// Whether the removal of the directory `expected` at `path` goes on through `stages` from the point
/// where a directory was moved aside to `aside`, and ends with `step`.
pub open spec fn is_identifying_history(
    path: NativePath,
    aside: NativePath,
    expected: FileIdentity,
    stages: Seq<RemovalStage>,
    replies: Seq<QuarantineReply>,
    worlds: Seq<Map<Place, FileIdentity>>,
    step: QuarantineStep<RemovalStage, ()>,
) -> bool {
    &&& replies.len() > 0
    &&& stages.len() == replies.len()
    &&& worlds.len() == replies.len() + 1
    &&& stages[0] == RemovalStage::Identifying(aside)
    &&& forall|k: int|
        0 <= k < replies.len() ==> is_true_of_directories(
            worlds[k],
            (#[trigger] stages[k]).request_spec(&path),
            replies[k],
            worlds[k + 1],
        )
    &&& forall|k: int|
        0 <= k < replies.len() - 1 ==> removal_follows(
            QuarantineStep::Continue(stages[k + 1]),
            path@,
            expected,
            #[trigger] stages[k],
            replies[k],
        )
    &&& removal_follows(step, path@, expected, stages.last(), replies.last())
}

/// What holds of the directories while another one than the expected one is put back.
spec fn putting_back_holds(
    place: Place,
    aside: NativePath,
    other: FileIdentity,
    stage: RemovalStage,
    start: Map<Place, FileIdentity>,
    now: Map<Place, FileIdentity>,
) -> bool {
    match stage {
        RemovalStage::Identifying(quarantine_path) => quarantine_path == aside && now == start,
        RemovalStage::LookingBack { quarantine_path, moved } => quarantine_path == aside && moved
            == other && now == start,
        RemovalStage::PuttingBack { quarantine_path, moved, stage } => {
            &&& quarantine_path == aside
            &&& moved == other
            &&& match stage {
                DirectoryRestoreStage::VerifyingPath
                | DirectoryRestoreStage::VerifyingQuarantine => now == directory_moved(
                    start,
                    aside@.place,
                    place,
                ),
                _ => now == start,
            }
        },
        _ => false,
    }
}

proof fn lemma_putting_back(
    path: NativePath,
    aside: NativePath,
    expected: FileIdentity,
    other: FileIdentity,
    stages: Seq<RemovalStage>,
    replies: Seq<QuarantineReply>,
    worlds: Seq<Map<Place, FileIdentity>>,
    step: QuarantineStep<RemovalStage, ()>,
    k: int,
)
    requires
        is_identifying_history(path, aside, expected, stages, replies, worlds, step),
        forall|k: int|
            0 <= k < replies.len() ==> is_served(
                (#[trigger] stages[k]).request_spec(&path),
                replies[k],
            ),
        directory_at(worlds[0], aside@.place) == Some(other),
        other != expected,
        directory_at(worlds[0], path@.place) is None,
        0 <= k < replies.len(),
    ensures
        putting_back_holds(path@.place, aside, other, stages[k], worlds[0], worlds[k]),
    decreases k,
{
    if k > 0 {
        lemma_putting_back(path, aside, expected, other, stages, replies, worlds, step, k - 1);
        assert(is_served(stages[k - 1].request_spec(&path), replies[k - 1]));
        assert(is_true_of_directories(
            worlds[k - 1],
            stages[k - 1].request_spec(&path),
            replies[k - 1],
            worlds[k],
        ));
        assert(removal_follows(
            QuarantineStep::Continue(stages[k]),
            path@,
            expected,
            stages[k - 1],
            replies[k - 1],
        ));
    }
}

/// Another directory than the one that was made, which was moved aside by mistake, is put back where
/// its place is free and nothing fails, and the removal says that it failed.
pub proof fn law_other_directory_is_put_back(
    path: NativePath,
    aside: NativePath,
    expected: FileIdentity,
    other: FileIdentity,
    stages: Seq<RemovalStage>,
    replies: Seq<QuarantineReply>,
    worlds: Seq<Map<Place, FileIdentity>>,
    step: QuarantineStep<RemovalStage, ()>,
)
    requires
        is_identifying_history(path, aside, expected, stages, replies, worlds, step),
        forall|k: int|
            0 <= k < replies.len() ==> is_served(
                (#[trigger] stages[k]).request_spec(&path),
                replies[k],
            ),
        directory_at(worlds[0], aside@.place) == Some(other),
        other != expected,
        directory_at(worlds[0], path@.place) is None,
    ensures
        step matches QuarantineStep::Done(result) ==> result is Err && worlds.last()
            == directory_moved(worlds[0], aside@.place, path@.place),
{
    let last = replies.len() - 1;
    let stage = stages[last];
    lemma_putting_back(path, aside, expected, other, stages, replies, worlds, step, last);
    assert(is_served(stage.request_spec(&path), replies[last]));
    assert(is_true_of_directories(
        worlds[last],
        stage.request_spec(&path),
        replies[last],
        worlds[last + 1],
    ));
}

} // verus!
