//! Which batches are refused, and which are carried out.

use vstd::prelude::*;

use crate::atomicity::{
    batch_after, is_history, is_true_to, law_reached_states_are_valid, lemma_shorter_history,
    lemma_snapshot_true, target, World,
};
use crate::batch::{batch_checked, batch_next, BatchNext, BatchView};
use crate::error::ErrorKind;
use crate::file_system::{FsReply, Location};
use crate::mutation::{image_bytes, BatchLimits, FileMutation, FileMutationBatch};
use crate::preflight::{
    decoded, is_fresh_target, preflight_next, proceeding, rejection_failure, snapshot_failure,
    PreflightNext, PreflightView,
};
use crate::rollback::OutcomeView;
use crate::snapshot::{snapshot_next, Snapshot, SnapshotStep};
use crate::text::decimal_text;

verus! {

/// The bytes that a mutation carries: what its file is to hold before and after it, together, or as
/// many as a `usize` counts.
pub open spec fn carried_bytes(mutation: FileMutation) -> int {
    let sum = image_bytes(mutation.before()) + image_bytes(mutation.after());
    if sum <= usize::MAX {
        sum
    } else {
        usize::MAX as int
    }
}

/// The bytes of a mutation are counted as they are carried.
proof fn lemma_carried(mutation: FileMutation)
    ensures
        mutation.payload() == carried_bytes(mutation),
{
    if let FileMutation::Remove { expected, .. } = mutation {
        assert(expected.len() <= usize::MAX);
    }
}

/// The bytes that the first `count` mutations carry, and that their files hold.
pub open spec fn weight(batch: FileMutationBatch, start: World, count: int) -> int
    decreases count,
{
    if count <= 0 {
        0
    } else {
        weight(batch, start, count - 1) + carried_bytes(batch.mutations@[count - 1]) + image_bytes(
            start.file_at(target(batch, count - 1)),
        )
    }
}

/// Whether the batch may be carried out: it is within the limits, every file is on this host and at a
/// place of its own, and holds what its mutation expects.
pub open spec fn is_admissible(batch: FileMutationBatch, limits: BatchLimits, start: World) -> bool {
    let mutations = batch.mutations@;
    let count = mutations.len() as int;
    &&& count <= limits.max_operations
    &&& weight(batch, start, count) <= limits.max_decoded_bytes
    &&& forall|k: int|
        0 <= k < count ==> (#[trigger] mutations[k]).path().native is Ok && start.file_at(
            target(batch, k),
        ) == mutations[k].before()
    &&& forall|j: int, k: int|
        0 <= j < k < count ==> #[trigger] target(batch, j) != #[trigger] target(batch, k)
}

/// Whether the last reply is that the file of mutation `k` could not be looked at, and `error` says
/// why.
pub open spec fn is_unseen(
    batch: FileMutationBatch,
    replies: Seq<FsReply>,
    k: int,
    error: Seq<char>,
) -> bool {
    &&& replies.len() > 0
    &&& match replies.last() {
        FsReply::Metadata(Ok(metadata)) => !metadata.is_file && error == "`"@
            + batch.mutations@[k].path().display@ + "` is not a regular file"@,
        FsReply::Metadata(Err(failure)) => failure.kind != ErrorKind::NotFound && error
            == failure.message@,
        FsReply::Contents(Err(failure)) => error == failure.message@,
        _ => false,
    }
}

/// Whether nothing keeps the first `count` mutations from being carried out.
pub open spec fn are_unobjectionable(
    batch: FileMutationBatch,
    limits: BatchLimits,
    start: World,
    count: int,
) -> bool {
    let mutations = batch.mutations@;
    &&& mutations.len() <= limits.max_operations
    &&& count > 0 ==> weight(batch, start, count) <= limits.max_decoded_bytes
    &&& forall|k: int|
        0 <= k < count ==> (#[trigger] mutations[k]).path().native is Ok && start.file_at(
            target(batch, k),
        ) == mutations[k].before()
    &&& forall|j: int, k: int|
        0 <= j < k < count ==> #[trigger] target(batch, j) != #[trigger] target(batch, k)
}

/// Whether mutation `k` is the first that keeps the batch from being carried out, and `error` says
/// why: the first reason there is, in this order.
pub open spec fn is_obstacle(
    batch: FileMutationBatch,
    limits: BatchLimits,
    replies: Seq<FsReply>,
    start: World,
    k: int,
    error: Seq<char>,
) -> bool {
    let mutation = batch.mutations@[k];
    let path = mutation.path();
    let is_heavy = weight(batch, start, k) + carried_bytes(mutation) > limits.max_decoded_bytes;
    let is_repeated = exists|j: int| 0 <= j < k && #[trigger] target(batch, j) == target(batch, k);
    let too_much = "filesystem mutation batch exceeds "@ + decimal_text(
        limits.max_decoded_bytes as nat,
    ) + " decoded bytes"@;
    &&& are_unobjectionable(batch, limits, start, k)
    &&& if is_heavy {
        // It carries too much.
        error == too_much
    } else if path.native is Err {
        // Its file is not on this host.
        error == path.native->Err_0.message@
    } else if is_repeated {
        // Its file is that of an earlier one.
        error == "filesystem mutation batch targets `"@ + path.native->Ok_0@.text(0)
            + "` more than once"@
    } else {
        // Its file could not be looked at.
        ||| is_unseen(batch, replies, k, error)
        // With what its file holds it is too much.
        ||| weight(batch, start, k + 1) > limits.max_decoded_bytes && error == too_much
        // Its file does not hold what is expected.
        ||| {
            &&& weight(batch, start, k + 1) <= limits.max_decoded_bytes
            &&& start.file_at(target(batch, k)) != mutation.before()
            &&& error == "preimage changed for `"@ + path.display@ + "`"@
        }
    }
}

/// Whether the batch cannot be carried out, and `error` says why.
pub open spec fn is_refusal(
    batch: FileMutationBatch,
    limits: BatchLimits,
    replies: Seq<FsReply>,
    start: World,
    error: Seq<char>,
) -> bool {
    ||| {
        &&& batch.mutations@.len() > limits.max_operations
        &&& error == "filesystem mutation batch exceeds "@ + decimal_text(
            limits.max_operations as nat,
        ) + " operations"@
    }
    ||| exists|k: int|
        0 <= k < batch.mutations@.len() && #[trigger] is_obstacle(
            batch,
            limits,
            replies,
            start,
            k,
            error,
        )
}

/// Whether the first mutations have been found in order.
spec fn are_seen(
    batch: FileMutationBatch,
    limits: BatchLimits,
    preimages: Seq<Snapshot>,
    start: World,
) -> bool {
    let mutations = batch.mutations@;
    &&& preimages.len() <= mutations.len() <= limits.max_operations
    &&& decoded(mutations, preimages) == weight(batch, start, preimages.len() as int)
    &&& weight(batch, start, preimages.len() as int) <= limits.max_decoded_bytes
        || preimages.len() == 0
    &&& forall|k: int|
        0 <= k < preimages.len() ==> is_fresh_target(mutations, k) && start.file_at(
            #[trigger] target(batch, k),
        ) == mutations[k].before()
}

/// What holds at `next`.
spec fn holds(
    batch: FileMutationBatch,
    limits: BatchLimits,
    replies: Seq<FsReply>,
    next: BatchNext,
    start: World,
    now: World,
) -> bool {
    match next {
        BatchNext::Pending(BatchView::Checking(checks)) => {
            &&& now == start
            &&& checks.limits == limits
            &&& are_seen(batch, limits, checks.preimages, start)
        },
        BatchNext::Pending(_) => is_admissible(batch, limits, start),
        BatchNext::Done(OutcomeView::Rejected { error }) => is_refusal(
            batch,
            limits,
            replies,
            start,
            error,
        ),
        BatchNext::Done(_) => is_admissible(batch, limits, start),
    }
}

/// What has been found in order is unobjectionable.
proof fn lemma_unobjectionable(
    batch: FileMutationBatch,
    limits: BatchLimits,
    preimages: Seq<Snapshot>,
    start: World,
)
    requires
        are_seen(batch, limits, preimages, start),
    ensures
        are_unobjectionable(batch, limits, start, preimages.len() as int),
{
    let mutations = batch.mutations@;
    let count = preimages.len() as int;
    assert forall|k: int| 0 <= k < count implies (#[trigger] mutations[k]).path().native is Ok
        && start.file_at(target(batch, k)) == mutations[k].before() by {
        assert(start.file_at(target(batch, k)) == mutations[k].before());
    }
    assert forall|j: int, k: int| 0 <= j < k < count implies #[trigger] target(batch, j)
        != #[trigger] target(batch, k) by {
        assert(is_fresh_target(mutations, k));
        assert(mutations[j].path().place() != mutations[k].path().place());
    }
}

proof fn lemma_admissible(
    batch: FileMutationBatch,
    limits: BatchLimits,
    preimages: Seq<Snapshot>,
    start: World,
)
    requires
        are_seen(batch, limits, preimages, start),
        preimages.len() == batch.mutations@.len(),
    ensures
        is_admissible(batch, limits, start),
{
    lemma_unobjectionable(batch, limits, preimages, start);
}

/// The checks go on, or end.
proof fn lemma_proceeding(
    batch: FileMutationBatch,
    limits: BatchLimits,
    replies: Seq<FsReply>,
    preimages: Seq<Snapshot>,
    start: World,
)
    requires
        are_seen(batch, limits, preimages, start),
    ensures
        holds(
            batch,
            limits,
            replies,
            batch_checked(batch, limits, proceeding(batch, limits, preimages)),
            start,
            start,
        ),
{
    let mutations = batch.mutations@;
    let index = preimages.len() as int;
    match proceeding(batch, limits, preimages) {
        PreflightNext::Planned(_) => {
            lemma_admissible(batch, limits, preimages, start);
        },
        PreflightNext::Refused(rejection) => {
            let error = rejection_failure(batch, limits, rejection).message;
            if !is_fresh_target(mutations, index) && mutations[index].path().native is Ok {
                let j = choose|j: int|
                    0 <= j < index && (#[trigger] mutations[j]).path().place()
                        == mutations[index].path().place();
                assert(target(batch, j) == target(batch, index));
            }
            assert(index < mutations.len());
            assert(index < batch.mutations.len());
            lemma_carried(mutations[index]);
            lemma_unobjectionable(batch, limits, preimages, start);
            assert(is_obstacle(batch, limits, replies, start, index, error));
        },
        PreflightNext::Pending(_) => {},
    }
}

/// The checks take a reply into account.
proof fn lemma_checking(
    limits: BatchLimits,
    replies: Seq<FsReply>,
    checks: PreflightView,
    start: World,
    after: World,
)
    requires
        checks.is_valid(),
        checks.limits == limits,
        are_seen(checks.batch, limits, checks.preimages, start),
        replies.len() > 0,
        is_true_to(start, checks.request(), replies.last(), after),
    ensures
        holds(
            checks.batch,
            limits,
            replies,
            batch_next(BatchView::Checking(checks), replies.last()),
            start,
            after,
        ),
{
    let batch = checks.batch;
    let mutations = batch.mutations@;
    let reply = replies.last();
    let index = checks.preimages.len() as int;
    let path = mutations[index].path();
    let at = Location { path: &path, levels: 0 };
    lemma_snapshot_true(checks.stage, at, batch.follow_symlinks, reply, start, after);
    assert(target(batch, index) == path.place());
    assert(index < batch.mutations.len());
    lemma_carried(mutations[index]);
    lemma_unobjectionable(batch, limits, checks.preimages, start);
    assert(is_fresh_target(mutations, index));
    assert forall|j: int| 0 <= j < index implies #[trigger] target(batch, j) != target(
        batch,
        index,
    ) by {
        assert(mutations[j].path().place() != path.place());
    }
    match snapshot_next(checks.stage, reply) {
        SnapshotStep::Continue(_) => {},
        SnapshotStep::Done(Err(error)) => {
            let said = snapshot_failure(error, path.display@).message;
            assert(is_unseen(batch, replies, index, said));
            assert(is_obstacle(batch, limits, replies, start, index, said));
        },
        SnapshotStep::Done(Ok(preimage)) => {
            let preimages = checks.preimages.push(preimage);
            assert(preimages.drop_last() =~= checks.preimages);
            assert(decoded(mutations, preimages) == weight(batch, start, index + 1));
            match preflight_next(checks, reply) {
                PreflightNext::Refused(rejection) => {
                    let error = rejection_failure(
                        batch,
                        limits,
                        rejection,
                    ).message;
                    if decoded(mutations, preimages) > limits.max_decoded_bytes || preimage@
                        != mutations[index].before() {
                        assert(is_obstacle(batch, limits, replies, start, index, error));
                    } else {
                        lemma_seen_push(checks, preimage, start);
                        lemma_proceeding(batch, limits, replies, preimages, start);
                    }
                },
                _ => {
                    lemma_seen_push(checks, preimage, start);
                    lemma_proceeding(batch, limits, replies, preimages, start);
                },
            }
        },
    }
}

proof fn lemma_seen_push(checks: PreflightView, preimage: Snapshot, start: World)
    requires
        checks.is_valid(),
        are_seen(checks.batch, checks.limits, checks.preimages, start),
        preimage@ == start.file_at(target(checks.batch, checks.preimages.len() as int)),
        preimage@ == checks.batch.mutations@[checks.preimages.len() as int].before(),
        decoded(checks.batch.mutations@, checks.preimages.push(preimage))
            <= checks.limits.max_decoded_bytes,
    ensures
        are_seen(checks.batch, checks.limits, checks.preimages.push(preimage), start),
{
    let batch = checks.batch;
    let index = checks.preimages.len() as int;
    lemma_carried(batch.mutations@[index]);
    assert(checks.preimages.push(preimage).drop_last() =~= checks.preimages);
    assert forall|k: int| 0 <= k < index + 1 implies is_fresh_target(batch.mutations@, k)
        && start.file_at(#[trigger] target(batch, k)) == batch.mutations@[k].before() by {
        if k == index {
            assert(is_fresh_target(batch.mutations@, index));
        }
    }
}

/// The invariant of a run, by induction on the replies.
proof fn lemma_run(
    batch: FileMutationBatch,
    limits: BatchLimits,
    replies: Seq<FsReply>,
    worlds: Seq<World>,
)
    requires
        is_history(batch, limits, replies, worlds),
    ensures
        holds(batch, limits, replies, batch_after(batch, limits, replies), worlds[0], worlds.last()),
    decreases replies.len(),
{
    let start = worlds[0];
    if replies.len() == 0 {
        if batch.mutations@.len() <= limits.max_operations {
            lemma_proceeding(batch, limits, replies, Seq::empty(), start);
        }
    } else {
        let earlier = replies.drop_last();
        let seen = worlds.drop_last();
        lemma_shorter_history(batch, limits, replies, worlds);
        lemma_run(batch, limits, earlier, seen);
        if let BatchNext::Pending(state) = batch_after(batch, limits, earlier) {
            law_reached_states_are_valid(batch, limits, earlier, seen, state);
            if let BatchView::Checking(checks) = state {
                lemma_checking(limits, replies, checks, start, worlds.last());
            }
        }
    }
}

/// A batch is refused only for a reason, and says it: it is beyond a limit, a file is not on this
/// host or is named twice, a file could not be looked at, or one does not hold what is expected. A
/// batch that ends in any other way was within the limits, named different files, and found in each
/// what it expected. On a filesystem that tells the truth and that nobody else changes.
pub proof fn law_only_admissible_batches_are_carried_out(
    batch: FileMutationBatch,
    limits: BatchLimits,
    replies: Seq<FsReply>,
    worlds: Seq<World>,
    outcome: OutcomeView,
)
    requires
        is_history(batch, limits, replies, worlds),
        batch_after(batch, limits, replies) == BatchNext::Done(outcome),
    ensures
        match outcome {
            OutcomeView::Rejected { error } => is_refusal(
                batch,
                limits,
                replies,
                worlds[0],
                error,
            ),
            _ => is_admissible(batch, limits, worlds[0]),
        },
{
    lemma_run(batch, limits, replies, worlds);
}

} // verus!
