//! Every reply brings a batch, and the preparation of a patch, nearer to its end.

use vstd::prelude::*;

use crate::apply::{apply_next, parent_count, ApplyStage, ApplyStep};
use crate::batch::{batch_next, BatchNext, BatchView};
use crate::file_system::FsReply;
use crate::mutation::FileMutation;
use crate::parents::{parents_next, ParentStage, ParentStep};
use crate::prepared::{
    hunk_next, hunk_start, prepare_next, prepare_onward, HunkNext, LoadStage, PreparationView,
    PrepareNext, PrepareReply, PrepareStageView,
};
use crate::rollback::{DirectoryStage, EntryStage, RollbackStage};
use crate::snapshot::SnapshotStage;

verus! {

/// How much is left to do, the coarsest measure first.
pub struct Remaining {
    /// Phases, such as the checks of a batch.
    pub phases: nat,
    /// Items in the phase, such as mutations.
    pub items: nat,
    /// Requests for the item, at most.
    pub requests: nat,
}

impl Remaining {
    /// Whether less is left.
    pub open spec fn is_less(self, other: Remaining) -> bool {
        ||| self.phases < other.phases
        ||| self.phases == other.phases && self.items < other.items
        ||| self.phases == other.phases && self.items == other.items && self.requests
            < other.requests
    }
}

spec fn snapshot_requests(stage: SnapshotStage) -> nat {
    match stage {
        SnapshotStage::Metadata => 1,
        SnapshotStage::Contents => 0,
    }
}

/// The search goes up first, with one request for each directory; each directory that is missing
/// takes two.
spec fn parent_requests(count: nat, stage: ParentStage) -> nat {
    match stage {
        ParentStage::Probing { levels } => (2 * count + 2 + (count - levels)) as nat,
        ParentStage::Creating { levels } => (2 * levels + 1) as nat,
        ParentStage::Confirming { levels } => (2 * levels) as nat,
        ParentStage::Existing { levels, .. } => (2 * levels) as nat,
    }
}

spec fn apply_requests(mutation: FileMutation, stage: ApplyStage) -> nat {
    match stage {
        ApplyStage::Parents(stage) => 5 + parent_requests(parent_count(mutation), stage),
        ApplyStage::Before(stage) => 3 + snapshot_requests(stage),
        ApplyStage::Operating => 2,
        ApplyStage::After { snapshot, .. } => snapshot_requests(snapshot),
    }
}

spec fn rollback_requests(stage: RollbackStage) -> nat {
    match stage {
        RollbackStage::Entry(EntryStage::Checking(stage)) => 3 + snapshot_requests(stage),
        RollbackStage::Entry(EntryStage::Undoing) => 2,
        RollbackStage::Entry(EntryStage::Verifying(stage)) => snapshot_requests(stage),
        RollbackStage::Directory(DirectoryStage::Probing) => 2,
        RollbackStage::Directory(DirectoryStage::Removing) => 1,
        RollbackStage::Directory(DirectoryStage::Confirming) => 0,
    }
}

/// How much is left of a batch.
pub closed spec fn batch_remaining(state: BatchView) -> Remaining {
    match state {
        BatchView::Checking(checks) => Remaining {
            phases: 2,
            items: (checks.batch.mutations@.len() - checks.preimages.len()) as nat,
            requests: snapshot_requests(checks.stage),
        },
        BatchView::Applying(application) => Remaining {
            phases: 1,
            items: (application.batch.mutations@.len() - application.index) as nat,
            requests: apply_requests(
                application.batch.mutations@[application.index as int],
                application.stage,
            ),
        },
        BatchView::RollingBack(rollback) => Remaining {
            phases: 0,
            items: rollback.journal.len() + rollback.created.len(),
            requests: rollback_requests(rollback.stage),
        },
    }
}

/// One mutation needs fewer requests after each reply.
proof fn lemma_apply(
    mutation: FileMutation,
    preimage: Option<Seq<u8>>,
    stage: ApplyStage,
    follow_symlinks: bool,
    reply: FsReply,
)
    requires
        stage.is_valid(mutation),
        stage.request_spec(&mutation, follow_symlinks).is_answered_by(reply),
    ensures
        apply_next(mutation, preimage, stage, reply) matches ApplyStep::Continue { stage: next, .. }
            ==> apply_requests(mutation, next) < apply_requests(mutation, stage),
{
    if let ApplyStage::Parents(parents) = stage {
        let count = parent_count(mutation);
        assert(mutation.path().native->Ok_0.components.len() == count);
        match parents_next(count, parents, reply) {
            ParentStep::Continue(next) => {
                assert(parent_requests(count, next) < parent_requests(count, parents));
            },
            _ => {},
        }
    }
}

/// A batch ends: every reply to its request leaves less to do.
pub proof fn law_batch_ends(state: BatchView, reply: FsReply)
    requires
        state.is_valid(),
        state.request().is_answered_by(reply),
    ensures
        batch_next(state, reply) matches BatchNext::Pending(next) ==> batch_remaining(next).is_less(
            batch_remaining(state),
        ),
{
    match state {
        BatchView::Checking(_) => {},
        BatchView::Applying(application) => {
            let index = application.index as int;
            let mutation = application.batch.mutations@[index];
            assert(application.batch.mutations.len() > index);
            lemma_apply(
                mutation,
                application.preimages[index]@,
                application.stage,
                application.batch.follow_symlinks,
                reply,
            );
        },
        BatchView::RollingBack(_) => {},
    }
}

spec fn hunk_requests(stage: PrepareStageView) -> nat {
    match stage {
        PrepareStageView::Source(LoadStage::Reading) => 4,
        PrepareStageView::Source(LoadStage::Inspecting) => 3,
        PrepareStageView::Updating(_) => 2,
        PrepareStageView::Destination(LoadStage::Reading, _) => 1,
        PrepareStageView::Destination(LoadStage::Inspecting, _) => 0,
    }
}

/// How much is left of the preparation of a patch.
pub closed spec fn prepare_remaining(state: PreparationView) -> Remaining {
    Remaining {
        phases: 0,
        items: (state.patch.hunks@.len() - state.index) as nat,
        requests: hunk_requests(state.stage),
    }
}

proof fn lemma_onward(state: PreparationView, index: int)
    requires
        0 <= index,
    ensures
        prepare_onward(state.patch, state.draft, index) matches PrepareNext::Pending(next)
            ==> index <= next.index < state.patch.hunks@.len() && next.patch == state.patch,
    decreases state.patch.hunks@.len() - index,
{
    if index < state.patch.hunks@.len() {
        if let HunkNext::Advance(draft) = hunk_start(
            state.patch,
            state.patch.hunks@[index],
            state.draft,
        ) {
            lemma_onward(PreparationView { draft, ..state }, index + 1);
        }
    }
}

/// The preparation of a patch ends: every reply to its request leaves less to do.
pub proof fn law_preparation_ends(state: PreparationView, reply: PrepareReply)
    requires
        state.is_valid(),
        state.accepts(reply),
    ensures
        prepare_next(state, reply) matches PrepareNext::Pending(next)
            ==> prepare_remaining(next).is_less(prepare_remaining(state)),
{
    if let HunkNext::Advance(draft) = hunk_next(
        state.patch.follow_symlinks,
        state.hunk(),
        state.draft,
        state.stage,
        reply,
    ) {
        lemma_onward(PreparationView { draft, ..state }, state.index + 1);
    }
}

} // verus!
