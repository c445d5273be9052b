//! Files that can be reached in several ways: under several names, through links, and through
//! directories that are links. What a batch that was undone leaves of them.

use vstd::prelude::*;

use crate::apply::{apply_next, lemma_apply_next_valid, ApplyStage, ApplyStep};
use crate::atomicity::{batch_after, batch_of, lemma_own_place, target};
use crate::batch::{
    application_next, batch_checked, batch_failure, batch_next, batch_onward, batch_rolled,
    journal_of, ApplicationView, BatchNext, BatchView,
};
use crate::error::ErrorKind;
use crate::file_system::{FsReply, FsRequest, Location};
use crate::mutation::{BatchLimits, FileMutationBatch};
use crate::path::Place;
use crate::preflight::{
    is_checked_plan, is_fresh_target, preflight_next, preflight_start, PreflightNext, PreflightView,
};
use crate::rollback::{
    directory_next, entry_next, noted, rollback_next, rollback_onward, DirectoryStage,
    DirectoryStep, EntryStage, EntryStep, JournalEntry, OutcomeView, RollbackFailure, RollbackNext,
    RollbackStage, RollbackView,
};
use crate::snapshot::{snapshot_next, Snapshot, SnapshotStage, SnapshotStep};

verus! {

/// The files, links and directories of a filesystem in which a file can be reached in several ways.
#[verifier::ext_equal]
pub struct LinkedWorld {
    /// The places that are another place, because a directory above them is a link.
    pub detours: Map<Place, Place>,
    /// The links, each with the place that it leads to, which is no link.
    pub links: Map<Place, Place>,
    /// Which file each place names, by number. A file may have several names.
    pub names: Map<Place, nat>,
    /// What the files hold. One that has lost its last name keeps its number.
    pub contents: Map<nat, Seq<u8>>,
    pub directories: Set<Place>,
}

impl LinkedWorld {
    /// Whether detours and links lead straight to their ends, every name names a file, and no place
    /// is two things at once.
    pub open spec fn is_valid(self) -> bool {
        &&& forall|place: Place| !self.detours.contains_key(#[trigger] self.entry(place))
        &&& forall|place: Place| #[trigger]
            self.links.contains_key(place) ==> !self.links.contains_key(self.links[place])
                && !self.detours.contains_key(self.links[place])
        &&& forall|place: Place| #[trigger]
            self.names.contains_key(place) ==> self.contents.contains_key(self.names[place])
        &&& self.names.dom().disjoint(self.directories)
        &&& self.names.dom().disjoint(self.links.dom())
        &&& self.links.dom().disjoint(self.directories)
    }

    /// The place that `place` is.
    pub open spec fn entry(self, place: Place) -> Place {
        if self.detours.contains_key(place) {
            self.detours[place]
        } else {
            place
        }
    }

    /// The place whose file is reached from `place`.
    pub open spec fn end(self, place: Place) -> Place {
        let entry = self.entry(place);
        if self.links.contains_key(entry) {
            self.links[entry]
        } else {
            entry
        }
    }

    /// What the file holds that is reached from `place`; `None` is no file.
    pub open spec fn file_at(self, place: Place) -> Option<Seq<u8>> {
        if self.names.contains_key(self.end(place)) {
            Some(self.contents[self.names[self.end(place)]])
        } else {
            None
        }
    }
}

/// Whether every name but perhaps `place` names the same file as before.
pub open spec fn same_names_but(before: LinkedWorld, after: LinkedWorld, place: Place) -> bool {
    forall|other: Place|
        other != place ==> #[trigger] after.names.contains_key(other)
            == before.names.contains_key(other) && (before.names.contains_key(other)
            ==> after.names[other] == before.names[other])
}

/// Whether every file but perhaps the one with this number holds what it held.
pub open spec fn same_contents_but(
    before: LinkedWorld,
    after: LinkedWorld,
    number: Option<nat>,
) -> bool {
    forall|other: nat| #[trigger]
        before.contents.contains_key(other) ==> after.contents.contains_key(other) && (Some(other)
            != number ==> after.contents[other] == before.contents[other])
}

/// Whether `after` is what a write of the file at `place` can leave behind. A file that is there is
/// written in place, under all its names. Where there is none, one is made that has no other name. A
/// write that fails may leave anything in the file, or take the name away from it.
pub open spec fn is_written(
    before: LinkedWorld,
    after: LinkedWorld,
    place: Place,
    done: bool,
) -> bool {
    &&& after.links == before.links
    &&& same_names_but(before, after, place)
    &&& if before.names.contains_key(place) {
        if after.names.contains_key(place) {
            &&& after.names[place] == before.names[place]
            &&& same_contents_but(before, after, Some(before.names[place]))
        } else {
            !done && same_contents_but(before, after, None)
        }
    } else {
        &&& same_contents_but(before, after, None)
        &&& after.names.contains_key(place) ==> !before.contents.contains_key(after.names[place])
    }
}

/// Whether `after` is what a removal at `place` can leave behind: the link, or the name, goes or
/// stays, and the file that it led to is not touched.
pub open spec fn is_unlinked(
    before: LinkedWorld,
    after: LinkedWorld,
    place: Place,
    done: bool,
) -> bool {
    &&& same_contents_but(before, after, None)
    &&& if before.links.contains_key(place) {
        &&& after.names == before.names
        &&& after.links == before.links.remove(place) || !done && after.links == before.links
    } else {
        &&& after.links == before.links
        &&& same_names_but(before, after, place)
        &&& after.names.contains_key(place) ==> !done && before.names.contains_key(place)
            && after.names[place] == before.names[place]
    }
}

/// Whether `reply` and `after` are what a filesystem in the state `before` can make of `request`,
/// while nobody else changes anything. What it says of a file or a directory is true. Every request
/// may fail.
pub open spec fn is_true_to(
    before: LinkedWorld,
    request: FsRequest<'static>,
    reply: FsReply,
    after: LinkedWorld,
) -> bool {
    let place = request.location().place();
    &&& request.is_answered_by(reply)
    &&& before.is_valid()
    &&& after.is_valid()
    &&& after.detours == before.detours
    &&& match request {
        FsRequest::GetMetadata { .. } => {
            &&& after == before
            &&& match reply {
                FsReply::Metadata(Ok(metadata)) => {
                    &&& metadata.is_file ==> before.names.contains_key(before.end(place))
                    &&& metadata.is_directory && !metadata.is_symlink
                        ==> before.directories.contains(before.entry(place))
                },
                FsReply::Metadata(Err(error)) => error.kind == ErrorKind::NotFound
                    ==> !before.names.contains_key(before.end(place)),
                _ => false,
            }
        },
        FsRequest::ReadFile { .. } => {
            &&& after == before
            &&& reply matches FsReply::Contents(Ok(contents)) ==> before.file_at(place) == Some(
                contents@,
            )
        },
        FsRequest::WriteFile { contents, .. } => {
            &&& is_written(before, after, before.end(place), reply->Done_0 is Ok)
            &&& reply matches FsReply::Done(Ok(_)) ==> after.file_at(place) == Some(contents@)
        },
        FsRequest::Remove { .. } => is_unlinked(
            before,
            after,
            before.entry(place),
            reply->Done_0 is Ok,
        ),
        FsRequest::CreateDirectory { .. } => {
            &&& after.links == before.links
            &&& after.names == before.names
            &&& same_contents_but(before, after, None)
        },
    }
}

/// Whether `place` is a link that leads nowhere.
pub open spec fn is_dangling(world: LinkedWorld, place: Place) -> bool {
    &&& world.links.contains_key(world.entry(place))
    &&& !world.names.contains_key(world.end(place))
}

/// Whether `replies` are those of a filesystem that goes through `worlds` while the batch runs.
pub open spec fn is_linked_history(
    batch: FileMutationBatch,
    limits: BatchLimits,
    replies: Seq<FsReply>,
    worlds: Seq<LinkedWorld>,
) -> bool {
    &&& worlds.len() == replies.len() + 1
    &&& worlds[0].is_valid()
    &&& forall|k: int|
        0 <= k < replies.len() ==> {
            &&& batch_after(batch, limits, #[trigger] replies.take(k)) matches BatchNext::Pending(
                state,
            )
            &&& is_true_to(worlds[k], state.request(), replies[k], worlds[k + 1])
        }
}

/// Whether `place` names the file that it named at the start.
spec fn is_kept(start: LinkedWorld, now: LinkedWorld, place: Place) -> bool {
    &&& start.names.contains_key(place)
    &&& now.names.contains_key(place)
    &&& now.names[place] == start.names[place]
}

/// Whether `place` names a file that was made since, and that has no other name.
spec fn is_own(start: LinkedWorld, now: LinkedWorld, place: Place) -> bool {
    &&& now.names.contains_key(place)
    &&& !start.contents.contains_key(now.names[place])
    &&& forall|other: Place|
        other != place && #[trigger] now.names.contains_key(other) ==> now.names[other]
            != now.names[place]
}

/// Whether links and names follow from those at the start: a link is one of them, and a name names
/// the same file, or one of its own.
spec fn is_grown(start: LinkedWorld, now: LinkedWorld) -> bool {
    &&& start.is_valid()
    &&& now.is_valid()
    &&& now.detours == start.detours
    &&& forall|place: Place| #[trigger]
        now.links.contains_key(place) ==> start.links.contains_key(place) && now.links[place]
            == start.links[place]
    &&& forall|number: nat| #[trigger]
        start.contents.contains_key(number) ==> now.contents.contains_key(number)
    &&& forall|place: Place| #[trigger]
        now.names.contains_key(place) ==> is_kept(start, now, place) || is_own(start, now, place)
}

/// Whether the file with this number has changed since the start.
spec fn has_changed(start: LinkedWorld, now: LinkedWorld, number: nat) -> bool {
    start.contents.contains_key(number) && now.contents[number] != start.contents[number]
}

/// Whether the file with this number is reached from `place`, now as at the start.
spec fn is_reached(start: LinkedWorld, now: LinkedWorld, place: Place, number: nat) -> bool {
    &&& now.end(place) == start.end(place)
    &&& is_kept(start, now, start.end(place))
    &&& start.names[start.end(place)] == number
}

/// Whether the file with this number is reached from a mutation that is to be undone.
spec fn is_reached_from(
    batch: FileMutationBatch,
    pending: Set<int>,
    start: LinkedWorld,
    now: LinkedWorld,
    number: nat,
) -> bool {
    exists|index: int|
        pending.contains(index) && is_reached(start, now, #[trigger] target(batch, index), number)
}

/// Whether undoing the mutation deals with `place`: the place itself, or where it leads.
spec fn deals_with(
    batch: FileMutationBatch,
    index: int,
    now: LinkedWorld,
    place: Place,
) -> bool {
    now.entry(target(batch, index)) == place || now.end(target(batch, index)) == place
}

/// Whether the undoing of some mutation deals with `place`.
spec fn is_dealt_with(
    batch: FileMutationBatch,
    pending: Set<int>,
    now: LinkedWorld,
    place: Place,
) -> bool {
    exists|index: int| pending.contains(index) && #[trigger] deals_with(batch, index, now, place)
}

/// Whether `way` was a link that led to `place` and to no file there, and is no link any more.
spec fn is_cut(start: LinkedWorld, now: LinkedWorld, way: Place, place: Place) -> bool {
    &&& is_dangling(start, way)
    &&& start.end(way) == place
    &&& !now.links.contains_key(start.entry(way))
}

/// Whether no earlier mutation has its file at the same end.
pub open spec fn is_first(batch: FileMutationBatch, start: LinkedWorld, index: int) -> bool {
    forall|earlier: int|
        0 <= earlier < index ==> start.end(#[trigger] target(batch, earlier)) != start.end(
            target(batch, index),
        )
}

/// Whether a link that a mutation has its file behind was cut off from `place`, and no earlier
/// mutation has its file there.
spec fn is_left(
    batch: FileMutationBatch,
    start: LinkedWorld,
    now: LinkedWorld,
    place: Place,
) -> bool {
    exists|index: int|
        0 <= index < batch.mutations@.len() && is_cut(
            start,
            now,
            #[trigger] target(batch, index),
            place,
        ) && is_first(batch, start, index)
}

/// Whether nothing is left to be put right at `place`, but for what its file holds where it is the
/// same file: it is the link or the name that it was, or it names a copy of what it led to.
spec fn is_settled(start: LinkedWorld, now: LinkedWorld, place: Place) -> bool {
    ||| now.links.contains_key(place)
    ||| !start.links.contains_key(place) && is_kept(start, now, place)
    ||| !now.names.contains_key(place) && start.file_at(place) is None
    ||| is_own(start, now, place) && now.file_at(place) == start.file_at(place)
}

/// What holds while the `pending` mutations are to be undone.
spec fn is_undoable(
    batch: FileMutationBatch,
    pending: Set<int>,
    start: LinkedWorld,
    now: LinkedWorld,
) -> bool {
    &&& is_grown(start, now)
    &&& forall|number: nat| #[trigger]
        has_changed(start, now, number) ==> is_reached_from(batch, pending, start, now, number)
    &&& forall|place: Place|
        !start.detours.contains_key(place) && !is_dealt_with(batch, pending, now, place)
            ==> #[trigger] is_settled(start, now, place) || is_left(batch, start, now, place)
}

/// Whether `preimages` are what the files of the first mutations held at the start.
spec fn are_seen(
    batch: FileMutationBatch,
    preimages: Seq<Snapshot>,
    start: LinkedWorld,
) -> bool {
    forall|index: int|
        0 <= index < preimages.len() ==> (#[trigger] preimages[index])@ == start.file_at(
            target(batch, index),
        )
}

/// The mutations of the journal.
spec fn journaled(journal: Seq<JournalEntry>) -> Set<int> {
    Set::new(
        |index: int|
            exists|i: int| 0 <= i < journal.len() && (#[trigger] journal[i]).mutation == index,
    )
}

/// The mutations that may have changed their files.
spec fn touched(state: ApplicationView) -> Set<int> {
    Set::new(|index: int| 0 <= index < state.index || index == state.index && state.stage is After)
}

/// Whether each of the `pending` mutations that had no file is the first with its end.
spec fn are_first(batch: FileMutationBatch, pending: Set<int>, start: LinkedWorld) -> bool {
    forall|index: int|
        pending.contains(index) && start.file_at(#[trigger] target(batch, index)) is None
            ==> is_first(batch, start, index)
}

/// Whether the links that led nowhere are still links.
spec fn keeps_dangling(start: LinkedWorld, now: LinkedWorld) -> bool {
    forall|link: Place|
        start.links.contains_key(link) && !start.names.contains_key(start.links[link])
            ==> #[trigger] now.links.contains_key(link)
}

/// Whether each of the first `count` mutations that had no file has made one.
spec fn are_made(
    batch: FileMutationBatch,
    count: int,
    start: LinkedWorld,
    now: LinkedWorld,
) -> bool {
    forall|index: int|
        0 <= index < count && start.file_at(#[trigger] target(batch, index)) is None
            ==> now.names.contains_key(start.end(target(batch, index)))
}

/// Whether the mutation under way has failed already.
spec fn is_failing(stage: ApplyStage) -> bool {
    stage matches ApplyStage::After { operation: Err(_), .. }
}

/// What holds of the world while a batch that started in `start` stands at `state`.
spec fn holds(state: BatchView, start: LinkedWorld, now: LinkedWorld) -> bool {
    &&& state.is_valid()
    &&& match state {
        BatchView::Checking(checks) => {
            &&& now == start
            &&& start.is_valid()
            &&& are_seen(checks.batch, checks.preimages, start)
        },
        BatchView::Applying(application) => {
            let batch = application.batch;
            &&& are_seen(batch, application.preimages, start)
            &&& is_undoable(batch, touched(application), start, now)
            &&& are_first(batch, touched(application), start)
            &&& keeps_dangling(start, now)
            &&& !is_failing(application.stage) ==> are_made(
                batch,
                application.index as int,
                start,
                now,
            )
            &&& application.stage is Operating ==> now.file_at(
                target(batch, application.index as int),
            ) == start.file_at(target(batch, application.index as int))
        },
        BatchView::RollingBack(rollback) => {
            &&& are_seen(rollback.batch, rollback.preimages, start)
            &&& are_first(rollback.batch, journaled(rollback.journal), start)
            &&& rollback.failures.len() == 0 ==> is_undoable(
                rollback.batch,
                journaled(rollback.journal),
                start,
                now,
            )
            &&& rollback.stage == RollbackStage::Directory(DirectoryStage::Removing)
                ==> now.directories.contains(now.entry(rollback.request().location().place()))
        },
    }
}

/// Whether the file that `place` leads to was made through a link of the batch that led nowhere, and
/// stayed behind when the link was taken away in its stead.
spec fn is_stranded(
    batch: FileMutationBatch,
    start: LinkedWorld,
    now: LinkedWorld,
    place: Place,
) -> bool {
    now.end(place) == start.end(place) && is_left(batch, start, now, start.end(place))
}

/// What holds of the world at `next`.
spec fn holds_next(
    batch: FileMutationBatch,
    next: BatchNext,
    start: LinkedWorld,
    now: LinkedWorld,
) -> bool {
    match next {
        BatchNext::Pending(state) => holds(state, start, now) && batch_of(state) == batch,
        BatchNext::Done(outcome) => {
            &&& outcome is Rejected ==> now == start
            &&& outcome is RolledBack ==> is_grown(start, now) && forall|place: Place| #[trigger]
                now.file_at(place) == start.file_at(place) || is_stranded(batch, start, now, place)
        },
    }
}

/// Where the file holds what it held, nothing is left to be put right on the way to it.
proof fn lemma_settled(start: LinkedWorld, now: LinkedWorld, place: Place)
    requires
        is_grown(start, now),
        now.file_at(place) == start.file_at(place),
    ensures
        is_settled(start, now, now.entry(place)),
        is_settled(start, now, now.end(place)),
        forall|number: nat|
            is_reached(start, now, place, number) ==> !#[trigger] has_changed(start, now, number),
{
    let entry = now.entry(place);
    assert(!start.detours.contains_key(start.entry(place)));
    assert(entry == start.entry(place));
    assert(start.entry(entry) == entry && now.entry(entry) == entry);
    if now.links.contains_key(entry) {
        let end = now.links[entry];
        assert(!start.links.contains_key(end) && !start.detours.contains_key(end));
        assert(start.end(end) == end && now.end(end) == end);
        if now.names.contains_key(end) {
            assert(is_kept(start, now, end) || is_own(start, now, end));
        }
    } else {
        if now.names.contains_key(entry) {
            assert(is_kept(start, now, entry) || is_own(start, now, entry));
            assert(now.end(entry) == entry);
            assert(start.file_at(entry) == start.file_at(place));
        }
    }
}

/// A write at the end of the way from the file of a mutation can be undone.
proof fn lemma_written(
    batch: FileMutationBatch,
    pending: Set<int>,
    index: int,
    start: LinkedWorld,
    before: LinkedWorld,
    after: LinkedWorld,
    done: bool,
)
    requires
        is_undoable(batch, pending, start, before),
        before.is_valid(),
        after.is_valid(),
        after.detours == before.detours,
        is_written(before, after, before.end(target(batch, index)), done),
        !done ==> before.file_at(target(batch, index)) == start.file_at(target(batch, index)),
    ensures
        is_undoable(batch, pending.insert(index), start, after),
{
    let own = target(batch, index);
    let end = before.end(own);
    let more = pending.insert(index);
    assert(forall|place: Place| #[trigger] after.end(place) == before.end(place));
    assert(forall|place: Place| #[trigger] after.entry(place) == before.entry(place));
    assert(is_grown(start, after)) by {
        assert forall|place: Place| #[trigger] after.names.contains_key(place) implies is_kept(
            start,
            after,
            place,
        ) || is_own(start, after, place) by {
            if place != end {
                assert(before.names.contains_key(place));
                if is_own(start, before, place) {
                    assert forall|other: Place|
                        other != place && #[trigger] after.names.contains_key(
                            other,
                        ) implies after.names[other] != after.names[place] by {
                        if other == end && !before.names.contains_key(end) {
                            assert(before.contents.contains_key(before.names[place]));
                        } else {
                            assert(before.names.contains_key(other));
                        }
                    }
                }
            } else if before.names.contains_key(end) {
                if is_own(start, before, end) {
                    assert forall|other: Place|
                        other != place && #[trigger] after.names.contains_key(
                            other,
                        ) implies after.names[other] != after.names[place] by {
                        assert(before.names.contains_key(other));
                    }
                }
            } else {
                assert forall|other: Place|
                    other != place && #[trigger] after.names.contains_key(other) implies
                    after.names[other] != after.names[place] by {
                    assert(before.names.contains_key(other));
                    assert(before.contents.contains_key(before.names[other]));
                }
            }
        }
    }
    assert forall|number: nat| #[trigger] has_changed(start, after, number) implies
        is_reached_from(batch, more, start, after, number) by {
        assert(before.contents.contains_key(number));
        if before.names.contains_key(end) && after.names.contains_key(end) && before.names[end]
            == number {
            // The file was there at the start, so this is the way to it.
            assert(is_kept(start, before, end));
            assert(start.names.contains_key(end));
            assert(start.end(own) == end) by {
                let entry = before.entry(own);
                if !before.links.contains_key(entry) {
                    assert(!start.links.contains_key(entry));
                }
            }
            assert(is_reached(start, after, own, number));
            assert(more.contains(index));
        } else {
            assert(has_changed(start, before, number));
            let witness = choose|witness: int|
                pending.contains(witness) && is_reached(
                    start,
                    before,
                    #[trigger] target(batch, witness),
                    number,
                );
            if start.end(target(batch, witness)) == end && !after.names.contains_key(end) {
                // The name was taken away, from a file that held what it held at the start.
                assert(before.end(target(batch, witness)) == before.end(own));
                assert(before.file_at(own) == start.file_at(own));
                assert(is_kept(start, before, end));
                assert(start.end(own) == end) by {
                    let entry = before.entry(own);
                    if !before.links.contains_key(entry) {
                        assert(!start.links.contains_key(entry));
                    }
                }
                assert(false);
            }
            assert(is_reached(start, after, target(batch, witness), number));
            assert(more.contains(witness));
        }
    }
    assert forall|place: Place|
        !start.detours.contains_key(place) && !is_dealt_with(
            batch,
            more,
            after,
            place,
        ) implies #[trigger] is_settled(start, after, place) || is_left(
        batch,
        start,
        after,
        place,
    ) by {
        assert(more.contains(index));
        assert(deals_with(batch, index, after, end));
        assert(place != end);
        if is_dealt_with(batch, pending, before, place) {
            let witness = choose|witness: int|
                pending.contains(witness) && #[trigger] deals_with(batch, witness, before, place);
            assert(more.contains(witness));
            assert(deals_with(batch, witness, after, place));
        }
        lemma_still_left(batch, start, before, after, place);
        if is_settled(start, before, place) {
            lemma_still_settled(start, before, after, place, end);
        }
    }
}

/// A link that was cut stays so.
proof fn lemma_still_left(
    batch: FileMutationBatch,
    start: LinkedWorld,
    before: LinkedWorld,
    after: LinkedWorld,
    place: Place,
)
    requires
        forall|link: Place| #[trigger]
            after.links.contains_key(link) ==> before.links.contains_key(link),
    ensures
        is_left(batch, start, before, place) ==> is_left(batch, start, after, place),
{
    if is_left(batch, start, before, place) {
        let index = choose|index: int|
            0 <= index < batch.mutations@.len() && is_cut(
                start,
                before,
                #[trigger] target(batch, index),
                place,
            ) && is_first(batch, start, index);
        assert(is_cut(start, after, target(batch, index), place));
    }
}

/// What happens at another place leaves a settled place settled.
proof fn lemma_still_settled(
    start: LinkedWorld,
    before: LinkedWorld,
    after: LinkedWorld,
    place: Place,
    touched: Place,
)
    requires
        is_settled(start, before, place),
        is_grown(start, before),
        is_grown(start, after),
        !start.detours.contains_key(place),
        place != touched,
        after.links.contains_key(place) == before.links.contains_key(place),
        same_names_but(before, after, touched),
        before.names.contains_key(touched) ==> same_contents_but(
            before,
            after,
            Some(before.names[touched]),
        ),
        !before.names.contains_key(touched) ==> same_contents_but(before, after, None),
    ensures
        is_settled(start, after, place),
{
    assert(after.names.contains_key(place) == before.names.contains_key(place));
    if is_own(start, before, place) && before.file_at(place) == start.file_at(place)
        && !before.links.contains_key(place) {
        assert(is_kept(start, after, place) || is_own(start, after, place));
        assert(before.contents.contains_key(before.names[place]));
        assert(before.names.contains_key(touched) ==> before.names[touched]
            != before.names[place]);
        assert(after.end(place) == place && before.end(place) == place);
        assert(after.file_at(place) == before.file_at(place));
        if is_kept(start, after, place) {
            assert(start.contents.contains_key(start.names[place]));
        }
    }
}

/// A removal of the file of a mutation can be undone, and so can one that undoes it.
proof fn lemma_unlinked(
    batch: FileMutationBatch,
    pending: Set<int>,
    index: int,
    start: LinkedWorld,
    before: LinkedWorld,
    after: LinkedWorld,
    done: bool,
)
    requires
        is_undoable(batch, pending, start, before),
        after.is_valid(),
        after.detours == before.detours,
        is_unlinked(before, after, before.entry(target(batch, index)), done),
        0 <= index < batch.mutations@.len(),
        start.file_at(target(batch, index)) is None ==> is_first(batch, start, index),
        before.file_at(target(batch, index)) == start.file_at(target(batch, index))
            || start.file_at(target(batch, index)) is None,
    ensures
        is_undoable(batch, pending.insert(index), start, after),
{
    let own = target(batch, index);
    let entry = before.entry(own);
    let more = pending.insert(index);
    assert(forall|place: Place| #[trigger] after.entry(place) == before.entry(place));
    assert(start.entry(own) == entry);
    assert(same_names_but(before, after, entry));
    assert(is_grown(start, after)) by {
        assert forall|place: Place| #[trigger] after.names.contains_key(place) implies is_kept(
            start,
            after,
            place,
        ) || is_own(start, after, place) by {
            assert(before.names.contains_key(place));
            if is_own(start, before, place) {
                assert forall|other: Place|
                    other != place && #[trigger] after.names.contains_key(other) implies
                    after.names[other] != after.names[place] by {
                    assert(before.names.contains_key(other));
                }
            }
        }
    }
    assert forall|number: nat| #[trigger] has_changed(start, after, number) implies
        is_reached_from(batch, more, start, after, number) by {
        assert(before.contents.contains_key(number));
        assert(has_changed(start, before, number));
        let witness = choose|witness: int|
            pending.contains(witness) && is_reached(
                start,
                before,
                #[trigger] target(batch, witness),
                number,
            );
        let way = target(batch, witness);
        if before.entry(way) == entry && before.links.contains_key(entry) {
            // What the link leads to holds what it held.
            assert(start.end(own) == before.end(own));
            assert(false);
        }
        if start.end(way) == entry && !after.names.contains_key(entry) {
            assert(start.end(own) == entry && before.end(own) == entry);
            assert(false);
        }
        assert(is_reached(start, after, way, number));
        assert(more.contains(witness));
    }
    assert forall|place: Place|
        !start.detours.contains_key(place) && !is_dealt_with(
            batch,
            more,
            after,
            place,
        ) implies #[trigger] is_settled(start, after, place) || is_left(
        batch,
        start,
        after,
        place,
    ) by {
        assert(more.contains(index));
        assert(deals_with(batch, index, after, entry));
        assert(place != entry);
        if is_dealt_with(batch, pending, before, place) {
            let witness = choose|witness: int|
                pending.contains(witness) && #[trigger] deals_with(batch, witness, before, place);
            assert(more.contains(witness));
            assert(!deals_with(batch, witness, after, place));
            // The link is gone that led there.
            assert(before.entry(target(batch, witness)) == entry);
            assert(place == before.end(own));
            assert(start.end(own) == place);
            if before.file_at(own) == start.file_at(own) {
                lemma_settled(start, before, own);
            } else {
                assert(is_cut(start, after, target(batch, index), place));
            }
        }
        lemma_still_left(batch, start, before, after, place);
        if is_settled(start, before, place) {
            lemma_still_settled(start, before, after, place, entry);
        }
    }
}

/// What leaves names, links and contents alone leaves everything to be undone as it was.
proof fn lemma_left_alone(
    batch: FileMutationBatch,
    pending: Set<int>,
    start: LinkedWorld,
    before: LinkedWorld,
    after: LinkedWorld,
)
    requires
        is_undoable(batch, pending, start, before),
        after.is_valid(),
        after.detours == before.detours,
        after.links == before.links,
        after.names == before.names,
        same_contents_but(before, after, None),
    ensures
        is_undoable(batch, pending, start, after),
        forall|place: Place| #[trigger] after.file_at(place) == before.file_at(place),
{
    assert(forall|place: Place| #[trigger] after.entry(place) == before.entry(place));
    assert forall|place: Place| #[trigger] after.file_at(place) == before.file_at(place) by {
        assert(after.end(place) == before.end(place));
    }
    assert(is_grown(start, after)) by {
        assert forall|place: Place| #[trigger] after.names.contains_key(place) implies is_kept(
            start,
            after,
            place,
        ) || is_own(start, after, place) by {
            assert(before.names.contains_key(place));
            if is_own(start, before, place) {
                assert(is_own(start, after, place));
            }
        }
    }
    assert forall|number: nat| #[trigger] has_changed(start, after, number) implies
        is_reached_from(batch, pending, start, after, number) by {
        assert(before.contents.contains_key(number));
        assert(has_changed(start, before, number));
        let witness = choose|witness: int|
            pending.contains(witness) && is_reached(
                start,
                before,
                #[trigger] target(batch, witness),
                number,
            );
        assert(is_reached(start, after, target(batch, witness), number));
    }
    assert forall|place: Place|
        !start.detours.contains_key(place) && !is_dealt_with(
            batch,
            pending,
            after,
            place,
        ) implies #[trigger] is_settled(start, after, place) || is_left(
        batch,
        start,
        after,
        place,
    ) by {
        if is_dealt_with(batch, pending, before, place) {
            let witness = choose|witness: int|
                pending.contains(witness) && #[trigger] deals_with(batch, witness, before, place);
            assert(deals_with(batch, witness, after, place));
        }
        lemma_still_left(batch, start, before, after, place);
        assert(is_settled(start, before, place) || is_left(batch, start, before, place));
        if is_own(start, before, place) {
            assert(is_own(start, after, place));
            assert(after.file_at(place) == before.file_at(place));
        }
    }
}

/// A mutation whose file holds what it held need not be undone.
proof fn lemma_undone(
    batch: FileMutationBatch,
    pending: Set<int>,
    index: int,
    rest: Set<int>,
    start: LinkedWorld,
    now: LinkedWorld,
)
    requires
        is_undoable(batch, pending, start, now),
        now.file_at(target(batch, index)) == start.file_at(target(batch, index)),
        forall|other: int| pending.contains(other) && other != index ==> rest.contains(other),
    ensures
        is_undoable(batch, rest, start, now),
{
    let own = target(batch, index);
    lemma_settled(start, now, own);
    assert forall|number: nat| #[trigger] has_changed(start, now, number) implies is_reached_from(
        batch,
        rest,
        start,
        now,
        number,
    ) by {
        let witness = choose|witness: int|
            pending.contains(witness) && is_reached(
                start,
                now,
                #[trigger] target(batch, witness),
                number,
            );
        assert(witness != index);
        assert(rest.contains(witness));
    }
    assert forall|place: Place|
        !start.detours.contains_key(place) && !is_dealt_with(
            batch,
            rest,
            now,
            place,
        ) implies #[trigger] is_settled(start, now, place) || is_left(batch, start, now, place) by {
        if is_dealt_with(batch, pending, now, place) {
            let witness = choose|witness: int|
                pending.contains(witness) && #[trigger] deals_with(batch, witness, now, place);
            if witness != index {
                assert(rest.contains(witness));
            }
        }
    }
}

/// Where nothing is left to be undone, every file holds what it held, or is stranded.
proof fn lemma_all_undone(
    batch: FileMutationBatch,
    pending: Set<int>,
    start: LinkedWorld,
    now: LinkedWorld,
)
    requires
        is_undoable(batch, pending, start, now),
        forall|index: int| !pending.contains(index),
    ensures
        forall|place: Place| #[trigger]
            now.file_at(place) == start.file_at(place) || is_stranded(batch, start, now, place),
{
    assert forall|place: Place| #[trigger] now.file_at(place) == start.file_at(place)
        || is_stranded(batch, start, now, place) by {
        let entry = start.entry(place);
        let end = start.end(place);
        assert(now.entry(place) == entry);
        assert(!start.detours.contains_key(start.entry(place)));
        assert(start.entry(entry) == entry);
        assert(!is_dealt_with(batch, pending, now, entry));
        assert(is_settled(start, now, entry) || is_left(batch, start, now, entry));
        assert(!start.detours.contains_key(end));
        assert(start.entry(end) == end);
        assert(!is_dealt_with(batch, pending, now, end));
        assert(is_settled(start, now, end) || is_left(batch, start, now, end));
        if now.links.contains_key(entry) {
            assert(now.end(place) == end);
            assert(now.end(end) == end && start.end(end) == end);
            if is_kept(start, now, end) {
                assert(!has_changed(start, now, start.names[end]));
            }
        } else if start.links.contains_key(entry) {
            // Where links lead there is none.
            assert(!is_left(batch, start, now, entry));
        } else if is_kept(start, now, entry) {
            assert(!has_changed(start, now, start.names[entry]));
        }
    }
}

/// At the start nothing is to be undone.
proof fn lemma_untouched(batch: FileMutationBatch, pending: Set<int>, start: LinkedWorld)
    requires
        start.is_valid(),
    ensures
        is_undoable(batch, pending, start, start),
{
    assert forall|place: Place| !start.detours.contains_key(place) implies #[trigger] is_settled(
        start,
        start,
        place,
    ) by {
        assert(start.entry(place) == place);
        if start.names.contains_key(place) {
            assert(is_kept(start, start, place));
            assert(start.names.dom().contains(place));
        }
    }
}

/// A snapshot changes nothing and shows what the file holds.
proof fn lemma_snapshot_true(
    stage: SnapshotStage,
    at: Location<'static>,
    follow_symlinks: bool,
    reply: FsReply,
    before: LinkedWorld,
    after: LinkedWorld,
)
    requires
        at.levels == 0,
        is_true_to(before, stage.request_spec(at, follow_symlinks), reply, after),
    ensures
        after == before,
        snapshot_next(stage, reply) matches SnapshotStep::Done(Ok(snapshot)) ==> snapshot@
            == before.file_at(at.path.place()),
{
    lemma_own_place(at);
}

/// The checks go on, or the mutations start.
proof fn lemma_checked(
    batch: FileMutationBatch,
    limits: BatchLimits,
    next: PreflightNext,
    start: LinkedWorld,
)
    requires
        start.is_valid(),
        match next {
            PreflightNext::Pending(checks) => checks.is_valid() && checks.batch == batch
                && are_seen(batch, checks.preimages, start),
            PreflightNext::Planned(preimages) => is_checked_plan(batch, preimages) && are_seen(
                batch,
                preimages,
                start,
            ),
            PreflightNext::Refused(_) => true,
        },
    ensures
        holds_next(batch, batch_checked(batch, limits, next), start, start),
{
    match next {
        PreflightNext::Planned(preimages) => {
            let first = batch_onward(batch, preimages, 0, Seq::empty());
            if first is Pending {
                assert(is_fresh_target(batch.mutations@, 0));
                lemma_untouched(batch, touched(first->Pending_0->Applying_0), start);
            }
        },
        _ => {},
    }
}

/// The checks take a reply into account.
proof fn lemma_checking(
    checks: PreflightView,
    reply: FsReply,
    start: LinkedWorld,
    after: LinkedWorld,
)
    requires
        holds(BatchView::Checking(checks), start, start),
        is_true_to(start, checks.request(), reply, after),
    ensures
        holds_next(checks.batch, batch_next(BatchView::Checking(checks), reply), start, after),
{
    let index = checks.preimages.len() as int;
    let path = checks.batch.mutations@[index].path();
    lemma_snapshot_true(
        checks.stage,
        Location { path: &path, levels: 0 },
        checks.batch.follow_symlinks,
        reply,
        start,
        after,
    );
    match snapshot_next(checks.stage, reply) {
        SnapshotStep::Done(Ok(preimage)) => {
            let preimages = checks.preimages.push(preimage);
            assert(are_seen(checks.batch, preimages, start));
            assert(preimages.drop_last() =~= checks.preimages);
            assert(is_fresh_target(checks.batch.mutations@, index));
        },
        _ => {},
    }
    lemma_checked(checks.batch, checks.limits, preflight_next(checks, reply), start);
}

/// The undoing goes on, or ends.
proof fn lemma_undoing_onward(state: RollbackView, start: LinkedWorld, now: LinkedWorld)
    requires
        state.is_consistent(),
        are_seen(state.batch, state.preimages, start),
        are_first(state.batch, journaled(state.journal), start),
        state.failures.len() == 0 ==> is_undoable(
            state.batch,
            journaled(state.journal),
            start,
            now,
        ),
    ensures
        holds_next(
            state.batch,
            batch_rolled(state.batch, state.cause, rollback_onward(state)),
            start,
            now,
        ),
{
    match rollback_onward(state) {
        RollbackNext::Done(failures) => {
            if failures.len() == 0 {
                lemma_all_undone(state.batch, journaled(state.journal), start, now);
            }
        },
        _ => {},
    }
}

/// A mutation that finds no file at its end, where there was none, is the first that comes there.
proof fn lemma_first(state: ApplicationView, start: LinkedWorld, now: LinkedWorld)
    requires
        holds(BatchView::Applying(state), start, now),
        state.stage is Operating,
        start.file_at(target(state.batch, state.index as int)) is None,
    ensures
        now.end(target(state.batch, state.index as int)) == start.end(
            target(state.batch, state.index as int),
        ),
        is_first(state.batch, start, state.index as int),
{
    let batch = state.batch;
    let index = state.index as int;
    let own = target(batch, index);
    let entry = start.entry(own);
    assert(now.entry(own) == entry);
    if start.links.contains_key(entry) {
        assert(now.links.contains_key(entry));
    }
    assert forall|earlier: int| 0 <= earlier < index implies start.end(
        #[trigger] target(batch, earlier),
    ) != start.end(own) by {
        if start.end(target(batch, earlier)) == start.end(own) {
            assert(start.file_at(target(batch, earlier)) is None);
            assert(now.names.contains_key(start.end(own)));
        }
    }
}

/// What a reply to a mutation leaves to be undone.
proof fn lemma_applied(
    state: ApplicationView,
    reply: FsReply,
    start: LinkedWorld,
    before: LinkedWorld,
    after: LinkedWorld,
)
    requires
        holds(BatchView::Applying(state), start, before),
        is_true_to(before, state.request(), reply, after),
    ensures
        is_undoable(
            state.batch,
            if state.stage is Operating {
                touched(state).insert(state.index as int)
            } else {
                touched(state)
            },
            start,
            after,
        ),
        state.stage is Before || state.stage is After ==> after == before,
        keeps_dangling(start, after),
        !is_failing(state.stage) && !(state.stage is Operating && reply->Done_0 is Err)
            ==> are_made(state.batch, state.index as int, start, after),
{
    let batch = state.batch;
    let index = state.index as int;
    let own = target(batch, index);
    let path = batch.mutations@[index].path();
    let at = Location { path: &path, levels: 0 };
    lemma_own_place(at);
    assert(target(batch, index) == path.place());
    match state.stage {
        ApplyStage::Parents(_) => {
            lemma_left_alone(batch, touched(state), start, before, after);
        },
        ApplyStage::Before(stage) => {
            lemma_snapshot_true(stage, at, batch.follow_symlinks, reply, before, after);
        },
        ApplyStage::After { snapshot, .. } => {
            lemma_snapshot_true(snapshot, at, batch.follow_symlinks, reply, before, after);
        },
        ApplyStage::Operating => {
            let done = reply->Done_0 is Ok;
            if state.request() is WriteFile {
                lemma_written(batch, touched(state), index, start, before, after, done);
            } else {
                // What is removed was there.
                assert(state.preimages[index]@ == batch.mutations@[index].before());
                assert(start.file_at(own) is Some);
                lemma_unlinked(batch, touched(state), index, start, before, after, done);
                assert(start.entry(own) == before.entry(own));
                assert forall|i: int|
                    0 <= i < index && start.file_at(#[trigger] target(batch, i)) is None implies
                    after.names.contains_key(start.end(target(batch, i))) by {
                    assert(before.names.contains_key(start.end(target(batch, i))));
                    assert(start.end(target(batch, i)) != before.entry(own));
                }
            }
        },
    }
}

/// A mutation takes a reply into account.
proof fn lemma_applying(
    state: ApplicationView,
    reply: FsReply,
    start: LinkedWorld,
    before: LinkedWorld,
    after: LinkedWorld,
)
    requires
        holds(BatchView::Applying(state), start, before),
        is_true_to(before, state.request(), reply, after),
    ensures
        holds_next(state.batch, application_next(state, reply), start, after),
{
    let batch = state.batch;
    let index = state.index as int;
    let mutation = batch.mutations@[index];
    let path = mutation.path();
    let at = Location { path: &path, levels: 0 };
    let own = target(batch, index);
    assert(is_fresh_target(batch.mutations@, index));
    assert(state.index < batch.mutations.len());
    lemma_apply_next_valid(mutation, state.preimages[index]@, state.stage, reply);
    lemma_applied(state, reply, start, before, after);
    assert(state.preimages[index]@ == start.file_at(own));
    assert(state.preimages[index]@ == mutation.before());
    if state.stage is Operating && start.file_at(own) is None {
        lemma_first(state, start, before);
    }
    match state.stage {
        ApplyStage::Before(stage) => {
            lemma_snapshot_true(stage, at, batch.follow_symlinks, reply, before, after);
        },
        ApplyStage::After { snapshot, .. } => {
            lemma_snapshot_true(snapshot, at, batch.follow_symlinks, reply, before, after);
        },
        _ => {},
    }
    match apply_next(mutation, state.preimages[index]@, state.stage, reply) {
        ApplyStep::Continue { stage, created } => {
            let next = application_next(state, reply)->Pending_0->Applying_0;
            if state.stage is Operating {
                assert(touched(next) =~= touched(state).insert(index));
            } else {
                assert(touched(next) =~= touched(state));
            }
        },
        ApplyStep::Done(Ok(observed)) => {
            let next = batch_onward(
                batch,
                state.preimages,
                (state.index + 1) as usize,
                state.created,
            );
            if next is Pending {
                assert(is_fresh_target(batch.mutations@, index + 1));
                assert(touched(next->Pending_0->Applying_0) =~= touched(state));
                if start.file_at(own) is None {
                    assert(after.entry(own) == start.entry(own));
                    assert(after.links.contains_key(start.entry(own)) == start.links.contains_key(
                        start.entry(own),
                    ));
                    assert(after.names.contains_key(start.end(own)));
                }
            }
        },
        ApplyStep::Done(Err(failure)) => {
            let journal = match failure.entry {
                Some(postimage) => journal_of(state.index as nat).push(
                    JournalEntry { mutation: state.index, postimage },
                ),
                None => journal_of(state.index as nat),
            };
            let undoing = RollbackView {
                batch,
                preimages: state.preimages,
                cause: batch_failure(batch, state.index, failure.error),
                journal,
                created: state.created,
                failures: Seq::empty(),
                stage: RollbackStage::Directory(DirectoryStage::Probing),
            };
            assert forall|other: int| 0 <= other < index implies #[trigger] journaled(
                journal,
            ).contains(other) by {
                assert(journal[other].mutation == other);
            }
            if failure.entry is Some {
                assert(journal[index].mutation == index);
                assert(journaled(journal) =~= touched(state));
            } else if state.stage is After {
                lemma_undone(batch, touched(state), index, journaled(journal), start, after);
            } else {
                assert(journaled(journal) =~= touched(state));
            }
            assert forall|other: int| #[trigger] journaled(journal).contains(other) implies touched(
                state,
            ).contains(other) by {
                let i = choose|i: int|
                    0 <= i < journal.len() && (#[trigger] journal[i]).mutation == other;
                assert(0 <= i <= index);
            }
            lemma_undoing_onward(undoing, start, after);
        },
    }
}

/// The undoing of one mutation takes a reply into account.
proof fn lemma_undoing_entry(
    state: RollbackView,
    reply: FsReply,
    start: LinkedWorld,
    before: LinkedWorld,
    after: LinkedWorld,
)
    requires
        holds(BatchView::RollingBack(state), start, before),
        is_true_to(before, state.request(), reply, after),
        state.stage is Entry,
    ensures
        holds_next(
            state.batch,
            batch_rolled(state.batch, state.cause, rollback_next(state, reply)),
            start,
            after,
        ),
{
    let stage = state.stage->Entry_0;
    let batch = state.batch;
    let entry = state.journal.last();
    let index = entry.mutation as int;
    let path = batch.mutations@[index].path();
    let at = Location { path: &path, levels: 0 };
    let preimage = state.preimages[index]@;
    let own = target(batch, index);
    let pending = journaled(state.journal);
    lemma_own_place(at);
    assert(preimage == start.file_at(own));
    assert(pending.insert(index) =~= pending) by {
        assert(state.journal[state.journal.len() - 1].mutation == index);
    }
    match stage {
        EntryStage::Checking(snapshot) => {
            lemma_snapshot_true(snapshot, at, batch.follow_symlinks, reply, before, after);
        },
        EntryStage::Verifying(snapshot) => {
            lemma_snapshot_true(snapshot, at, batch.follow_symlinks, reply, before, after);
        },
        EntryStage::Undoing => {
            if state.failures.len() == 0 && reply->Done_0 is Ok {
                if state.request() is WriteFile {
                    lemma_written(batch, pending, index, start, before, after, true);
                } else {
                    lemma_unlinked(batch, pending, index, start, before, after, true);
                }
            }
        },
    }
    match entry_next(preimage, entry.postimage.image(batch.mutations@[index]), stage, reply) {
        EntryStep::Continue(_) => {},
        EntryStep::Done(result) => {
            let failure = match result {
                Ok(_) => None,
                Err(error) => Some(RollbackFailure::Entry { mutation: entry.mutation, error }),
            };
            let rest = RollbackView {
                journal: state.journal.drop_last(),
                failures: noted(state.failures, failure),
                ..state
            };
            assert forall|other: int| #[trigger] journaled(rest.journal).contains(
                other,
            ) implies pending.contains(other) by {
                let i = choose|i: int|
                    0 <= i < rest.journal.len() && (#[trigger] rest.journal[i]).mutation == other;
                assert(state.journal[i].mutation == other);
            }
            if rest.failures.len() == 0 {
                assert forall|other: int| pending.contains(other) && other != index implies
                    journaled(rest.journal).contains(other) by {
                    let i = choose|i: int|
                        0 <= i < state.journal.len() && (#[trigger] state.journal[i]).mutation
                            == other;
                    assert(rest.journal[i].mutation == other);
                }
                lemma_undone(batch, pending, index, journaled(rest.journal), start, after);
            }
            lemma_undoing_onward(rest, start, after);
        },
    }
}

/// The undoing of one directory takes a reply into account.
proof fn lemma_undoing_directory(
    state: RollbackView,
    reply: FsReply,
    start: LinkedWorld,
    before: LinkedWorld,
    after: LinkedWorld,
)
    requires
        holds(BatchView::RollingBack(state), start, before),
        is_true_to(before, state.request(), reply, after),
        state.stage is Directory,
    ensures
        holds_next(
            state.batch,
            batch_rolled(state.batch, state.cause, rollback_next(state, reply)),
            start,
            after,
        ),
{
    let stage = state.stage->Directory_0;
    let directory = state.created.last();
    let entry = before.entry(state.request().location().place());
    if stage == DirectoryStage::Removing {
        // A directory is neither a link nor a name.
        assert(!before.links.dom().contains(entry));
        assert(!before.names.dom().contains(entry));
        assert forall|place: Place| #[trigger] after.names.contains_key(place)
            == before.names.contains_key(place) by {}
        assert(after.names.dom() =~= before.names.dom());
        assert(after.names =~= before.names);
    }
    if state.failures.len() == 0 {
        lemma_left_alone(state.batch, journaled(state.journal), start, before, after);
    }
    match directory_next(directory.metadata, stage, reply) {
        DirectoryStep::Continue(_) => {},
        DirectoryStep::Done(result) => {
            let failure = match result {
                Ok(_) => None,
                Err(error) => Some(RollbackFailure::Directory { directory, error }),
            };
            let rest = RollbackView {
                created: state.created.drop_last(),
                failures: noted(state.failures, failure),
                ..state
            };
            lemma_undoing_onward(rest, start, after);
        },
    }
}

/// A history without its last reply is one.
proof fn lemma_shorter_history(
    batch: FileMutationBatch,
    limits: BatchLimits,
    replies: Seq<FsReply>,
    worlds: Seq<LinkedWorld>,
)
    requires
        is_linked_history(batch, limits, replies, worlds),
        replies.len() > 0,
    ensures
        is_linked_history(batch, limits, replies.drop_last(), worlds.drop_last()),
        batch_after(batch, limits, replies.drop_last()) matches BatchNext::Pending(state)
            && is_true_to(
            worlds[replies.len() - 1],
            state.request(),
            replies.last(),
            worlds.last(),
        ),
{
    let earlier = replies.drop_last();
    let seen = worlds.drop_last();
    assert(earlier =~= replies.take(replies.len() - 1));
    assert forall|k: int| 0 <= k < earlier.len() implies {
        &&& batch_after(batch, limits, #[trigger] earlier.take(k)) matches BatchNext::Pending(state)
        &&& is_true_to(seen[k], state.request(), earlier[k], seen[k + 1])
    } by {
        assert(earlier.take(k) =~= replies.take(k));
    }
}

/// What holds goes on to hold after a reply.
proof fn lemma_step(
    state: BatchView,
    reply: FsReply,
    start: LinkedWorld,
    before: LinkedWorld,
    after: LinkedWorld,
)
    requires
        holds(state, start, before),
        is_true_to(before, state.request(), reply, after),
    ensures
        holds_next(batch_of(state), batch_next(state, reply), start, after),
{
    match state {
        BatchView::Checking(checks) => {
            lemma_checking(checks, reply, start, after);
        },
        BatchView::Applying(application) => {
            lemma_applying(application, reply, start, before, after);
        },
        BatchView::RollingBack(rollback) => {
            if rollback.stage is Entry {
                lemma_undoing_entry(rollback, reply, start, before, after);
            } else {
                lemma_undoing_directory(rollback, reply, start, before, after);
            }
        },
    }
}

/// The invariant of a run, by induction on the replies.
proof fn lemma_run(
    batch: FileMutationBatch,
    limits: BatchLimits,
    replies: Seq<FsReply>,
    worlds: Seq<LinkedWorld>,
)
    requires
        is_linked_history(batch, limits, replies, worlds),
    ensures
        holds_next(batch, batch_after(batch, limits, replies), worlds[0], worlds.last()),
    decreases replies.len(),
{
    let start = worlds[0];
    if replies.len() == 0 {
        assert(are_seen(batch, Seq::empty(), start));
        lemma_checked(batch, limits, preflight_start(batch, limits), start);
    } else {
        lemma_shorter_history(batch, limits, replies, worlds);
        lemma_run(batch, limits, replies.drop_last(), worlds.drop_last());
        let state = batch_after(batch, limits, replies.drop_last())->Pending_0;
        lemma_step(state, replies.last(), start, worlds[replies.len() - 1], worlds.last());
    }
}

/// Whether the file of mutation `index` is where an earlier file of the batch, a link that leads
/// nowhere, is written, which is the first that comes there.
pub open spec fn is_behind_earlier(
    batch: FileMutationBatch,
    start: LinkedWorld,
    index: int,
) -> bool {
    exists|other: int|
        0 <= other < index && start.entry(#[trigger] target(batch, other)) != start.entry(
            target(batch, index),
        ) && is_dangling(start, target(batch, other)) && start.end(target(batch, other))
            == start.end(target(batch, index)) && is_first(batch, start, other)
}

/// Whether no file of the batch is a link that leads nowhere.
pub open spec fn all_lead_somewhere(batch: FileMutationBatch, start: LinkedWorld) -> bool {
    forall|index: int|
        0 <= index < batch.mutations@.len() ==> !is_dangling(
            start,
            #[trigger] target(batch, index),
        )
}

/// A batch that is refused or undone changes no file, however its files are reached: several of them
/// may be one file under several names, or lead to one file through links, or lie in one directory
/// that has several paths. On a filesystem that tells the truth and that nobody else changes,
/// whatever fails and whenever:
/// a rejected batch changes nothing at all;
/// after a batch that was rolled back the path of every mutation leads to a file that holds what it
/// held, or to none where there was none;
/// and so does every other place, where no file of the batch is a link that leads nowhere.
///
/// A write through a link that leads nowhere makes a file at the other end, and undoing takes away
/// the link and not the file. So the path of a mutation is left out where the first file of the batch
/// that comes to the same end is such a link, and an earlier one. A later one is never written
/// through: the file is there by then.
pub proof fn law_undone_batch_restores_linked_files(
    batch: FileMutationBatch,
    limits: BatchLimits,
    replies: Seq<FsReply>,
    worlds: Seq<LinkedWorld>,
    outcome: OutcomeView,
)
    requires
        is_linked_history(batch, limits, replies, worlds),
        batch_after(batch, limits, replies) == BatchNext::Done(outcome),
    ensures
        outcome is Rejected ==> worlds.last() == worlds[0],
        outcome is RolledBack ==> forall|index: int|
            0 <= index < batch.mutations@.len() && !is_behind_earlier(batch, worlds[0], index)
                ==> worlds.last().file_at(#[trigger] target(batch, index)) == worlds[0].file_at(
                target(batch, index),
            ),
        outcome is RolledBack && all_lead_somewhere(batch, worlds[0]) ==> forall|place: Place|
            #[trigger] worlds.last().file_at(place) == worlds[0].file_at(place),
{
    lemma_run(batch, limits, replies, worlds);
    let start = worlds[0];
    let end = worlds.last();
    if outcome is RolledBack {
        assert forall|index: int|
            0 <= index < batch.mutations@.len() && !is_behind_earlier(
                batch,
                start,
                index,
            ) implies end.file_at(#[trigger] target(batch, index)) == start.file_at(
            target(batch, index),
        ) by {
            let own = target(batch, index);
            if end.file_at(own) != start.file_at(own) {
                assert(is_stranded(batch, start, end, own));
                let other = choose|other: int|
                    0 <= other < batch.mutations@.len() && is_cut(
                        start,
                        end,
                        #[trigger] target(batch, other),
                        start.end(own),
                    ) && is_first(batch, start, other);
                assert(other <= index);
                assert(start.entry(target(batch, other)) == start.entry(own));
                assert(start.links.contains_key(start.entry(own)));
                assert(end.end(own) == start.end(own));
                assert(end.entry(own) == end.end(own));
                assert(false);
            }
        }
    }
}

} // verus!
