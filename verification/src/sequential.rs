//! Mutations one by one, for a filesystem that takes no batches.

use vstd::prelude::*;

use crate::atomicity::{
    is_named, is_target, is_true_to, lemma_own_place, same_files_but, target, World,
};
use crate::error::{ErrorKind, IoError};
use crate::file_system::{FsReply, FsRequest, Location};
use crate::mutation::{mutation_path, FileMutation, FileMutationBatch, FileMutationBatchOutcome};
use crate::path::{PathUri, PathView, Place};
use crate::preflight::{are_fresh_targets, is_fresh_target};
use crate::progress::Remaining;
use crate::report::falls_back_to_sequential;
use crate::rollback::{path_views, OutcomeView};

verus! {

/// How far a mutation has come: which reply is awaited.
#[derive(Clone, Copy, Debug, PartialEq, Eq, Structural)]
pub enum SequenceStage {
    /// The directories above the file are made, where they are missing.
    Parents,
    /// The file is written or removed.
    Operating,
}

/// The mutations of a batch, under way one by one: those before `index` took place.
#[derive(Debug)]
pub struct Sequence {
    pub batch: FileMutationBatch,
    pub index: usize,
    pub stage: SequenceStage,
}

/// What follows a reply, or the start.
#[derive(Debug)]
pub enum SequenceStep {
    Pending(Sequence),
    Done(FileMutationBatchOutcome),
}

/// What follows a reply, or the start, as it is decided.
pub enum SequenceNext {
    Pending(Sequence),
    Done(OutcomeView),
}

/// The paths of the first `count` mutations.
pub open spec fn first_paths(batch: FileMutationBatch, count: int) -> Seq<PathView> {
    Seq::new(count as nat, |i: int| batch.mutations@[i].path()@)
}

/// How the mutations end where the one at `index` fails: its own file and those before it may have
/// changed.
pub open spec fn sequence_failure(
    batch: FileMutationBatch,
    index: int,
    error: IoError,
) -> SequenceNext {
    SequenceNext::Done(
        OutcomeView::Indeterminate {
            error: error.message@,
            possibly_mutated_paths: first_paths(batch, index + 1),
        },
    )
}

/// Mutation `index` starts, or all have taken place. A write starts with the directories above its
/// file.
pub open spec fn sequence_onward(batch: FileMutationBatch, index: int) -> SequenceNext {
    if index >= batch.mutations@.len() {
        SequenceNext::Done(OutcomeView::Committed)
    } else {
        let mutation = batch.mutations@[index];
        match mutation.path().native {
            Err(error) => sequence_failure(batch, index, error),
            Ok(_) => SequenceNext::Pending(
                Sequence {
                    batch,
                    index: index as usize,
                    stage: if mutation is Write && mutation.path().place().names.len() > 0 {
                        SequenceStage::Parents
                    } else {
                        SequenceStage::Operating
                    },
                },
            ),
        }
    }
}

/// What follows `reply`.
pub open spec fn sequence_next(state: Sequence, reply: FsReply) -> SequenceNext {
    match reply {
        FsReply::Done(Ok(_)) => match state.stage {
            SequenceStage::Parents => SequenceNext::Pending(
                Sequence { stage: SequenceStage::Operating, ..state },
            ),
            SequenceStage::Operating => sequence_onward(state.batch, state.index + 1),
        },
        FsReply::Done(Err(error)) => sequence_failure(state.batch, state.index as int, error),
        _ => SequenceNext::Pending(state),
    }
}

/// Whether `step` is what was decided.
pub open spec fn sequence_agrees(step: SequenceStep, next: SequenceNext) -> bool {
    match next {
        SequenceNext::Pending(state) => step == SequenceStep::Pending(state) && state.is_valid(),
        SequenceNext::Done(outcome) => step is Done && step->Done_0@ == outcome,
    }
}

fn fail(batch: &FileMutationBatch, index: usize, error: &IoError) -> (step: SequenceStep)
    requires
        index < batch.mutations@.len(),
    ensures
        sequence_agrees(step, sequence_failure(*batch, index as int, *error)),
{
    let mut paths: Vec<PathUri> = Vec::new();
    let mut i: usize = 0;
    while i <= index
        invariant
            i <= index + 1,
            index < batch.mutations@.len(),
            batch.mutations@.len() == batch.mutations.len(),
            path_views(paths@) == first_paths(*batch, i as int),
        decreases index + 1 - i,
    {
        let ghost before = paths@;
        paths.push(mutation_path(&batch.mutations[i]).clone());
        assert(path_views(paths@) =~= path_views(before).push(
            batch.mutations@[i as int].path()@,
        ));
        assert(path_views(paths@) =~= first_paths(*batch, i + 1));
        i = i + 1;
    }
    SequenceStep::Done(
        FileMutationBatchOutcome::Indeterminate {
            error: error.message.clone(),
            possibly_mutated_paths: paths,
        },
    )
}

fn onward(batch: FileMutationBatch, index: usize) -> (step: SequenceStep)
    ensures
        sequence_agrees(step, sequence_onward(batch, index as int)),
{
    if index >= batch.mutations.len() {
        return SequenceStep::Done(FileMutationBatchOutcome::Committed);
    }
    let (stage, refusal) = {
        let mutation = &batch.mutations[index];
        let has_parents = match &mutation_path(mutation).native {
            Ok(native) => native.components.len() > 0,
            Err(_) => false,
        };
        let stage = match mutation {
            FileMutation::Write { .. } => if has_parents {
                SequenceStage::Parents
            } else {
                SequenceStage::Operating
            },
            FileMutation::Remove { .. } => SequenceStage::Operating,
        };
        let refusal: Option<IoError> = match &mutation_path(mutation).native {
            Ok(_) => None,
            Err(error) => Some(error.clone()),
        };
        (stage, refusal)
    };
    match refusal {
        Some(error) => fail(&batch, index, &error),
        None => SequenceStep::Pending(Sequence { batch, index, stage }),
    }
}

/// Starts the mutations of a batch, one by one.
pub fn mutate_one_by_one(batch: FileMutationBatch) -> (step: SequenceStep)
    ensures
        sequence_agrees(step, sequence_onward(batch, 0)),
{
    onward(batch, 0)
}

/// What follows where a filesystem did not carry out a batch at all: it is carried out one by one
/// where the filesystem takes no batches, and is rejected otherwise.
pub fn fall_back(batch: FileMutationBatch, error: &IoError) -> (step: SequenceStep)
    ensures
        sequence_agrees(
            step,
            if error.kind == ErrorKind::Unsupported {
                sequence_onward(batch, 0)
            } else {
                SequenceNext::Done(OutcomeView::Rejected { error: error.message@ })
            },
        ),
{
    if falls_back_to_sequential(error) {
        mutate_one_by_one(batch)
    } else {
        SequenceStep::Done(FileMutationBatchOutcome::Rejected { error: error.message.clone() })
    }
}

impl Sequence {
    /// Whether there is a mutation whose file is on this host, and what the stage speaks of.
    pub open spec fn is_valid(self) -> bool {
        let mutation = self.batch.mutations@[self.index as int];
        &&& self.index < self.batch.mutations@.len()
        &&& mutation.path().native is Ok
        &&& self.stage is Parents ==> mutation is Write && mutation.path().place().names.len() > 0
    }

    /// The request whose reply is awaited.
    pub open spec fn request_spec(self) -> FsRequest<'static> {
        let mutation = self.batch.mutations@[self.index as int];
        let follow_symlinks = self.batch.follow_symlinks;
        let path = mutation.path();
        match self.stage {
            SequenceStage::Parents => FsRequest::CreateDirectory {
                at: Location { path: &path, levels: 1 },
                recursive: true,
                follow_symlinks,
            },
            SequenceStage::Operating => match mutation {
                FileMutation::Write { contents, .. } => FsRequest::WriteFile {
                    at: Location { path: &path, levels: 0 },
                    contents: &contents,
                    follow_symlinks,
                },
                FileMutation::Remove { .. } => FsRequest::Remove {
                    at: Location { path: &path, levels: 0 },
                    recursive: false,
                    force: false,
                    follow_symlinks,
                },
            },
        }
    }

    /// The request whose reply is awaited.
    pub fn request(&self) -> (request: FsRequest<'_>)
        requires
            self.is_valid(),
        ensures
            request == self.request_spec(),
            request.location().is_native(),
            !request.is_read(),
    {
        let follow_symlinks = self.batch.follow_symlinks;
        let mutation = &self.batch.mutations[self.index];
        let path = mutation_path(mutation);
        match self.stage {
            SequenceStage::Parents => FsRequest::CreateDirectory {
                at: Location { path, levels: 1 },
                recursive: true,
                follow_symlinks,
            },
            SequenceStage::Operating => match mutation {
                FileMutation::Write { contents, .. } => FsRequest::WriteFile {
                    at: Location { path, levels: 0 },
                    contents,
                    follow_symlinks,
                },
                FileMutation::Remove { .. } => FsRequest::Remove {
                    at: Location { path, levels: 0 },
                    recursive: false,
                    force: false,
                    follow_symlinks,
                },
            },
        }
    }

    /// Takes the awaited reply into account.
    pub fn resume(self, reply: FsReply) -> (step: SequenceStep)
        requires
            self.is_valid(),
            self.request_spec().is_answered_by(reply),
        ensures
            sequence_agrees(step, sequence_next(self, reply)),
    {
        match reply {
            FsReply::Done(Ok(_)) => match self.stage {
                SequenceStage::Parents => SequenceStep::Pending(
                    Sequence {
                        batch: self.batch,
                        index: self.index,
                        stage: SequenceStage::Operating,
                    },
                ),
                SequenceStage::Operating => {
                    assert(self.index < self.batch.mutations.len());
                    onward(self.batch, self.index + 1)
                },
            },
            FsReply::Done(Err(error)) => fail(&self.batch, self.index, &error),
            _ => SequenceStep::Pending(self),
        }
    }
}

/// Where the mutations stand after `replies`, in order.
pub open spec fn sequence_after(batch: FileMutationBatch, replies: Seq<FsReply>) -> SequenceNext
    decreases replies.len(),
{
    if replies.len() == 0 {
        sequence_onward(batch, 0)
    } else {
        match sequence_after(batch, replies.drop_last()) {
            SequenceNext::Pending(state) => sequence_next(state, replies.last()),
            SequenceNext::Done(outcome) => SequenceNext::Done(outcome),
        }
    }
}

/// Whether `replies` are those of a filesystem that goes through `worlds` meanwhile.
pub open spec fn is_sequence_history(
    batch: FileMutationBatch,
    replies: Seq<FsReply>,
    worlds: Seq<World>,
) -> bool {
    &&& worlds.len() == replies.len() + 1
    &&& forall|k: int|
        0 <= k < replies.len() ==> {
            &&& sequence_after(batch, #[trigger] replies.take(k)) matches SequenceNext::Pending(
                state,
            )
            &&& is_true_to(worlds[k], state.request_spec(), replies[k], worlds[k + 1])
        }
}

/// What holds of the files where the mutations before `index` took place, and no other.
spec fn are_changed(batch: FileMutationBatch, index: int, start: World, now: World) -> bool {
    &&& forall|i: int| 0 <= i < index ==> (#[trigger] batch.mutations@[i]).path().native is Ok
    &&& forall|place: Place|
        !is_target(batch, index, place) ==> #[trigger] now.file_at(place) == start.file_at(place)
    &&& are_fresh_targets(batch.mutations@, index) ==> forall|i: int|
        0 <= i < index ==> now.file_at(#[trigger] target(batch, i)) == batch.mutations@[i].after()
}

/// What the outcome of mutations one by one says of the files: where all took place, each file is as
/// its mutation leaves it, unless several mutations name it, and no other has changed; where one
/// failed, every file that has changed is among the paths that are named.
pub open spec fn is_sequential(
    batch: FileMutationBatch,
    outcome: OutcomeView,
    start: World,
    end: World,
) -> bool {
    let count = batch.mutations@.len() as int;
    match outcome {
        OutcomeView::Committed => {
            &&& are_fresh_targets(batch.mutations@, count) ==> forall|index: int|
                0 <= index < count ==> end.file_at(#[trigger] target(batch, index))
                    == batch.mutations@[index].after()
            &&& forall|place: Place|
                !is_target(batch, count, place) ==> #[trigger] end.file_at(place)
                    == start.file_at(place)
        },
        OutcomeView::Indeterminate { possibly_mutated_paths, .. } => forall|place: Place|
            #[trigger] end.file_at(place) != start.file_at(place) ==> is_named(
                possibly_mutated_paths,
                place,
            ),
        _ => false,
    }
}

/// What holds of the files at `next`.
spec fn holds_next(batch: FileMutationBatch, next: SequenceNext, start: World, now: World) -> bool {
    match next {
        SequenceNext::Pending(state) => {
            &&& state.is_valid()
            &&& state.batch == batch
            &&& are_changed(batch, state.index as int, start, now)
        },
        SequenceNext::Done(outcome) => is_sequential(batch, outcome, start, now),
    }
}

/// A file among those of the first mutations is among their paths.
proof fn lemma_named(batch: FileMutationBatch, index: int, count: int, place: Place)
    requires
        is_target(batch, index, place),
        index <= count,
        forall|i: int| 0 <= i < index ==> (#[trigger] batch.mutations@[i]).path().native is Ok,
    ensures
        is_named(first_paths(batch, count), place),
{
    let i = choose|i: int| 0 <= i < index && #[trigger] target(batch, i) == place;
    assert(batch.mutations@[i].path().native is Ok);
    assert(first_paths(batch, count)[i].native->Ok_0.place == place);
}

/// The next mutation starts, or there is none.
proof fn lemma_onward(batch: FileMutationBatch, index: int, start: World, now: World)
    requires
        0 <= index <= batch.mutations@.len(),
        are_changed(batch, index, start, now),
    ensures
        holds_next(batch, sequence_onward(batch, index), start, now),
{
    if index < batch.mutations@.len() {
        assert(index < batch.mutations.len());
        if batch.mutations@[index].path().native is Err {
            assert forall|place: Place| #[trigger] now.file_at(place) != start.file_at(
                place,
            ) implies is_named(first_paths(batch, index + 1), place) by {
                lemma_named(batch, index, index + 1, place);
            }
        }
    }
}

/// What holds goes on to hold after a reply.
proof fn lemma_step(state: Sequence, reply: FsReply, start: World, before: World, after: World)
    requires
        holds_next(state.batch, SequenceNext::Pending(state), start, before),
        is_true_to(before, state.request_spec(), reply, after),
    ensures
        holds_next(state.batch, sequence_next(state, reply), start, after),
{
    let batch = state.batch;
    let index = state.index as int;
    let path = batch.mutations@[index].path();
    let own = target(batch, index);
    lemma_own_place(Location { path: &path, levels: 0 });
    assert(same_files_but(before, after, own));
    assert forall|place: Place| !is_target(batch, index + 1, place) implies #[trigger] after.file_at(
        place,
    ) == start.file_at(place) by {
        assert(target(batch, index) != place);
        if is_target(batch, index, place) {
            let i = choose|i: int| 0 <= i < index && #[trigger] target(batch, i) == place;
            assert(target(batch, i) == place);
        }
        assert(before.file_at(place) == start.file_at(place));
    }
    match reply {
        FsReply::Done(Ok(_)) => {
            if state.stage is Parents {
                assert(are_changed(batch, index, start, after));
            } else {
                if are_fresh_targets(batch.mutations@, index + 1) {
                    assert(is_fresh_target(batch.mutations@, index));
                    assert(are_fresh_targets(batch.mutations@, index)) by {
                        assert forall|i: int| 0 <= i < index implies
                            #[trigger] is_fresh_target(batch.mutations@, i) by {}
                    }
                    assert forall|i: int| 0 <= i < index implies after.file_at(
                        #[trigger] target(batch, i),
                    ) == batch.mutations@[i].after() by {
                        assert(batch.mutations@[i].path().place() != path.place());
                        assert(before.file_at(target(batch, i)) == batch.mutations@[i].after());
                    }
                }
                lemma_onward(batch, index + 1, start, after);
            }
        },
        FsReply::Done(Err(_)) => {
            assert forall|place: Place| #[trigger] after.file_at(place) != start.file_at(
                place,
            ) implies is_named(first_paths(batch, index + 1), place) by {
                lemma_named(batch, index + 1, index + 1, place);
            }
        },
        _ => {},
    }
}

/// The invariant of a run, by induction on the replies.
proof fn lemma_run(batch: FileMutationBatch, replies: Seq<FsReply>, worlds: Seq<World>)
    requires
        is_sequence_history(batch, replies, worlds),
    ensures
        holds_next(batch, sequence_after(batch, replies), worlds[0], worlds.last()),
    decreases replies.len(),
{
    if replies.len() == 0 {
        lemma_onward(batch, 0, worlds[0], worlds[0]);
    } else {
        let earlier = replies.drop_last();
        let seen = worlds.drop_last();
        assert(earlier =~= replies.take(replies.len() - 1));
        assert forall|k: int| 0 <= k < earlier.len() implies {
            &&& sequence_after(batch, #[trigger] earlier.take(k)) matches SequenceNext::Pending(
                state,
            )
            &&& is_true_to(seen[k], state.request_spec(), earlier[k], seen[k + 1])
        } by {
            assert(earlier.take(k) =~= replies.take(k));
        }
        lemma_run(batch, earlier, seen);
        let state = sequence_after(batch, earlier)->Pending_0;
        lemma_step(state, replies.last(), worlds[0], worlds[replies.len() - 1], worlds.last());
    }
}

/// Mutations one by one do what their outcome says, on a filesystem that tells the truth and that
/// nobody else changes, whatever fails: see [`is_sequential`]. They are never refused as a whole and
/// never undone.
pub proof fn law_one_by_one_does_what_it_says(
    batch: FileMutationBatch,
    replies: Seq<FsReply>,
    worlds: Seq<World>,
    outcome: OutcomeView,
)
    requires
        is_sequence_history(batch, replies, worlds),
        sequence_after(batch, replies) == SequenceNext::Done(outcome),
    ensures
        is_sequential(batch, outcome, worlds[0], worlds.last()),
{
    lemma_run(batch, replies, worlds);
}

/// How much is left of mutations one by one.
pub open spec fn sequence_remaining(state: Sequence) -> Remaining {
    Remaining {
        phases: 0,
        items: (state.batch.mutations@.len() - state.index) as nat,
        requests: if state.stage is Parents { 1 } else { 0 },
    }
}

/// Mutations one by one end: every reply leaves less to do.
pub proof fn law_one_by_one_ends(state: Sequence, reply: FsReply)
    requires
        state.is_valid(),
        state.request_spec().is_answered_by(reply),
    ensures
        sequence_next(state, reply) matches SequenceNext::Pending(next)
            ==> sequence_remaining(next).is_less(sequence_remaining(state)),
{
    assert(state.index < state.batch.mutations.len());
}

/// Mutations one by one all take place where all their files are on this host and nothing fails.
pub proof fn law_served_one_by_one_is_committed(
    batch: FileMutationBatch,
    replies: Seq<FsReply>,
    worlds: Seq<World>,
    outcome: OutcomeView,
)
    requires
        is_sequence_history(batch, replies, worlds),
        sequence_after(batch, replies) == SequenceNext::Done(outcome),
        forall|i: int|
            0 <= i < batch.mutations@.len() ==> (#[trigger] batch.mutations@[i]).path().native is Ok,
        forall|k: int|
            0 <= k < replies.len() ==> (#[trigger] replies[k] matches FsReply::Done(Ok(_))),
    ensures
        outcome is Committed,
{
    if replies.len() > 0 {
        let earlier = replies.drop_last();
        lemma_earlier(batch, replies, worlds);
        let state = sequence_after(batch, earlier)->Pending_0;
        assert(replies[replies.len() - 1] is Done);
        assert(state.index < batch.mutations.len());
        if state.index + 1 < batch.mutations@.len() {
            assert(batch.mutations@[state.index + 1].path().native is Ok);
        }
    } else if batch.mutations@.len() > 0 {
        assert(batch.mutations@[0].path().native is Ok);
    }
}

/// All but the last reply is the history of a state that waits for the last.
proof fn lemma_earlier(batch: FileMutationBatch, replies: Seq<FsReply>, worlds: Seq<World>)
    requires
        is_sequence_history(batch, replies, worlds),
        replies.len() > 0,
    ensures
        sequence_after(batch, replies.drop_last()) matches SequenceNext::Pending(state)
            && state.is_valid() && state.batch == batch && state.request_spec().is_answered_by(
            replies.last(),
        ),
{
    let earlier = replies.drop_last();
    let seen = worlds.drop_last();
    assert(earlier =~= replies.take(replies.len() - 1));
    assert forall|k: int| 0 <= k < earlier.len() implies {
        &&& sequence_after(batch, #[trigger] earlier.take(k)) matches SequenceNext::Pending(state)
        &&& is_true_to(seen[k], state.request_spec(), earlier[k], seen[k + 1])
    } by {
        assert(earlier.take(k) =~= replies.take(k));
    }
    lemma_run(batch, earlier, seen);
}

/// Whether the mutation at `index` is one that failed with `error`: its file is not on this host, or
/// the last reply, to a request for it, says so.
pub open spec fn is_failed(
    batch: FileMutationBatch,
    replies: Seq<FsReply>,
    index: int,
    error: Seq<char>,
) -> bool {
    &&& 0 <= index < batch.mutations@.len()
    &&& match batch.mutations@[index].path().native {
        Err(unavailable) => error == unavailable.message@,
        Ok(_) => {
            &&& replies.len() > 0
            &&& replies.last() matches FsReply::Done(Err(refusal))
            &&& error == refusal.message@
            &&& sequence_after(batch, replies.drop_last()) matches SequenceNext::Pending(state)
            &&& *state.request_spec().location().path == batch.mutations@[index].path()
        },
    }
}

/// Mutations one by one that do not all take place stop at one that failed, say why, and name its
/// file and those of the mutations before it, in order, and no other.
pub proof fn law_one_by_one_stops_at_the_first_failure(
    batch: FileMutationBatch,
    replies: Seq<FsReply>,
    worlds: Seq<World>,
    error: Seq<char>,
    paths: Seq<PathView>,
)
    requires
        is_sequence_history(batch, replies, worlds),
        sequence_after(batch, replies) == SequenceNext::Done(
            OutcomeView::Indeterminate { error, possibly_mutated_paths: paths },
        ),
    ensures
        is_failed(batch, replies, paths.len() - 1, error),
        forall|i: int|
            0 <= i < paths.len() ==> #[trigger] paths[i] == batch.mutations@[i].path()@,
{
    if replies.len() > 0 {
        lemma_earlier(batch, replies, worlds);
        let state = sequence_after(batch, replies.drop_last())->Pending_0;
        assert(state.index < batch.mutations.len());
    }
}

/// Mutations one by one ask for nothing but their own files and the directories above them: a
/// missing directory is made with those above it, a file is written with what its mutation leaves in
/// it, and a removal takes no tree.
pub proof fn law_one_by_one_asks_only_for_its_files(state: Sequence)
    requires
        state.is_valid(),
    ensures
        ({
            let mutation = state.batch.mutations@[state.index as int];
            &&& *state.request_spec().location().path == mutation.path()
            &&& match state.request_spec() {
                FsRequest::CreateDirectory { at, recursive, follow_symlinks } => {
                    &&& at.levels == 1
                    &&& recursive
                    &&& follow_symlinks == state.batch.follow_symlinks
                    &&& mutation.after() is Some
                },
                FsRequest::WriteFile { at, contents, follow_symlinks } => {
                    &&& at.levels == 0
                    &&& follow_symlinks == state.batch.follow_symlinks
                    &&& mutation.after() == Some(contents@)
                },
                FsRequest::Remove { at, recursive, force, follow_symlinks } => {
                    &&& at.levels == 0
                    &&& !recursive && !force
                    &&& follow_symlinks == state.batch.follow_symlinks
                    &&& mutation.after() is None
                },
                _ => false,
            }
        }),
{
}

/// The directories above a file that is to be written are made first, where there are any; a removal
/// needs none. The file follows once they are there.
pub proof fn law_directories_come_before_a_written_file(batch: FileMutationBatch, index: int)
    requires
        0 <= index < batch.mutations@.len(),
    ensures
        sequence_onward(batch, index) matches SequenceNext::Pending(state) ==> {
            let mutation = batch.mutations@[index];
            &&& state.batch == batch
            &&& state.index == index
            &&& state.stage is Parents <==> mutation.after() is Some
                && mutation.path().place().names.len() > 0
        },
        forall|state: Sequence, reply: FsReply|
            state.stage is Parents ==> (#[trigger] sequence_next(state, reply) matches
                SequenceNext::Pending(next) ==> next.index == state.index && next.batch
                == state.batch && (next.stage is Operating || !(reply is Done))),
{
    assert(index < batch.mutations.len());
}

} // verus!
