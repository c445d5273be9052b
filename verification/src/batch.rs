//! A whole batch, from its checks to its outcome.

use vstd::prelude::*;

use crate::apply::{
    apply_mutation, apply_next, apply_start, is_error_at, lemma_apply_next_valid, mutation_error,
    mutation_failure, start_mutation, ApplyStage, ApplyStep, MutationError, MutationFailure,
    Postimage,
};
use crate::error::{IoError, IoErrorView};
use crate::file_system::{FileMetadata, FsReply, FsRequest};
use crate::mutation::{mutation_path, BatchLimits, FileMutationBatch, FileMutationBatchOutcome};
use crate::preflight::{
    is_checked_plan, is_fresh_target, preflight_agrees, preflight_next, preflight_start,
    preflight_with_limits, rejection_failure, Plan, Preflight, PreflightNext, PreflightStep,
    PreflightView,
};
use crate::rollback::{
    is_directory_of, rollback, rollback_agrees, rollback_next, rollback_outcome, rollback_start,
    CreatedDirectory, JournalEntry, OutcomeView, Rollback, RollbackNext, RollbackStep, RollbackView,
};
use crate::snapshot::Snapshot;
use crate::text::{decimal, decimal_text, join, joined};

verus! {

/// The mutations of a checked batch, under way: those before `index` took place.
#[derive(Debug)]
pub struct Application {
    pub plan: Plan,
    pub index: usize,
    /// The directories made so far.
    pub created: Vec<CreatedDirectory>,
    pub stage: ApplyStage,
}

/// What an [`Application`] has done.
#[verifier::ext_equal]
pub struct ApplicationView {
    pub batch: FileMutationBatch,
    pub preimages: Seq<Snapshot>,
    pub index: usize,
    pub created: Seq<CreatedDirectory>,
    pub stage: ApplyStage,
}

impl View for Application {
    type V = ApplicationView;

    open spec fn view(&self) -> ApplicationView {
        ApplicationView {
            batch: self.plan.batch,
            preimages: self.plan.preimages@,
            index: self.index,
            created: self.created@,
            stage: self.stage,
        }
    }
}

/// A batch under way.
#[derive(Debug)]
pub enum BatchMutation {
    /// Nothing has changed yet.
    Checking(Preflight),
    Applying(Application),
    RollingBack(Rollback),
}

/// What a [`BatchMutation`] has done.
pub enum BatchView {
    Checking(PreflightView),
    Applying(ApplicationView),
    RollingBack(RollbackView),
}

impl View for BatchMutation {
    type V = BatchView;

    open spec fn view(&self) -> BatchView {
        match self {
            BatchMutation::Checking(checks) => BatchView::Checking(checks@),
            BatchMutation::Applying(application) => BatchView::Applying(application@),
            BatchMutation::RollingBack(rollback) => BatchView::RollingBack(rollback@),
        }
    }
}

/// What follows a reply, or the start.
#[derive(Debug)]
pub enum BatchStep {
    Pending(BatchMutation),
    Done(FileMutationBatchOutcome),
}

/// What follows a reply, or the start, as it is decided.
pub enum BatchNext {
    Pending(BatchView),
    Done(OutcomeView),
}

impl ApplicationView {
    /// Whether the batch is a checked one, and the directories are above its files.
    pub open spec fn is_valid(self) -> bool {
        &&& is_checked_plan(self.batch, self.preimages)
        &&& self.index < self.batch.mutations@.len()
        &&& self.stage.is_valid(self.batch.mutations@[self.index as int])
        &&& forall|i: int|
            0 <= i < self.created.len() ==> is_directory_of(#[trigger] self.created[i], self.batch)
    }

    /// The request whose reply is awaited.
    pub open spec fn request(self) -> FsRequest<'static> {
        self.stage.request_spec(
            &self.batch.mutations@[self.index as int],
            self.batch.follow_symlinks,
        )
    }
}

impl BatchView {
    /// Whether this is a state that a batch can come to.
    pub open spec fn is_valid(self) -> bool {
        match self {
            BatchView::Checking(checks) => checks.is_valid(),
            BatchView::Applying(application) => application.is_valid(),
            BatchView::RollingBack(rollback) => rollback.is_valid(),
        }
    }

    /// The request whose reply is awaited.
    pub open spec fn request(self) -> FsRequest<'static> {
        match self {
            BatchView::Checking(checks) => checks.request(),
            BatchView::Applying(application) => application.request(),
            BatchView::RollingBack(rollback) => rollback.request(),
        }
    }
}

/// The journal of the first `count` mutations, each of which left what it intends.
pub open spec fn journal_of(count: nat) -> Seq<JournalEntry> {
    Seq::new(
        count,
        |i: int| JournalEntry { mutation: i as usize, postimage: Postimage::Intended },
    )
}

/// Mutation `index` starts, or the batch is committed when there is none left.
pub open spec fn batch_onward(
    batch: FileMutationBatch,
    preimages: Seq<Snapshot>,
    index: usize,
    created: Seq<CreatedDirectory>,
) -> BatchNext {
    if index < batch.mutations@.len() {
        BatchNext::Pending(
            BatchView::Applying(
                ApplicationView {
                    batch,
                    preimages,
                    index,
                    created,
                    stage: apply_start(batch.mutations@[index as int]),
                },
            ),
        )
    } else {
        BatchNext::Done(OutcomeView::Committed)
    }
}

/// What follows the checks.
pub open spec fn batch_checked(
    batch: FileMutationBatch,
    limits: BatchLimits,
    next: PreflightNext,
) -> BatchNext {
    match next {
        PreflightNext::Pending(checks) => BatchNext::Pending(BatchView::Checking(checks)),
        PreflightNext::Refused(rejection) => BatchNext::Done(
            OutcomeView::Rejected { error: rejection_failure(batch, limits, rejection).message },
        ),
        PreflightNext::Planned(preimages) => batch_onward(batch, preimages, 0, Seq::empty()),
    }
}

/// What follows in the undoing of a batch.
pub open spec fn batch_rolled(
    batch: FileMutationBatch,
    cause: IoErrorView,
    next: RollbackNext,
) -> BatchNext {
    match next {
        RollbackNext::Pending(state) => BatchNext::Pending(BatchView::RollingBack(state)),
        RollbackNext::Done(failures) => BatchNext::Done(rollback_outcome(batch, cause, failures)),
    }
}

/// Why a batch is undone after mutation `index` failed.
pub open spec fn batch_failure(
    batch: FileMutationBatch,
    index: usize,
    error: MutationError,
) -> IoErrorView {
    let path = batch.mutations@[index as int].path();
    let failure = mutation_failure(error, path);
    IoErrorView {
        kind: failure.kind,
        message: joined(
            joined("filesystem mutation "@, decimal_text(index as nat), " for `"@),
            path.display@,
            "` failed: "@,
        ) + failure.message,
    }
}

/// `created` with the directory that was made for mutation `index`, where one was made.
pub open spec fn with_created(
    created: Seq<CreatedDirectory>,
    index: usize,
    made: Option<(usize, FileMetadata)>,
) -> Seq<CreatedDirectory> {
    match made {
        Some((levels, metadata)) => created.push(
            CreatedDirectory { mutation: index, levels, metadata },
        ),
        None => created,
    }
}

/// How the undoing starts after mutation `index` failed: every mutation before it is in the journal,
/// and so is the failed one, where it may have left anything.
pub open spec fn batch_undone(state: ApplicationView, failure: MutationFailure) -> RollbackNext {
    rollback_start(
        state.batch,
        state.preimages,
        batch_failure(state.batch, state.index, failure.error),
        match failure.entry {
            Some(postimage) => Some(JournalEntry { mutation: state.index, postimage }),
            None => None,
        },
        journal_of(state.index as nat),
        state.created,
    )
}

/// What follows `reply` while mutations take place.
pub open spec fn application_next(state: ApplicationView, reply: FsReply) -> BatchNext {
    let index = state.index as int;
    match apply_next(
        state.batch.mutations@[index],
        state.preimages[index]@,
        state.stage,
        reply,
    ) {
        ApplyStep::Continue { stage, created } => BatchNext::Pending(
            BatchView::Applying(
                ApplicationView {
                    stage,
                    created: with_created(state.created, state.index, created),
                    ..state
                },
            ),
        ),
        ApplyStep::Done(Ok(_)) => batch_onward(
            state.batch,
            state.preimages,
            (state.index + 1) as usize,
            state.created,
        ),
        ApplyStep::Done(Err(failure)) => batch_rolled(
            state.batch,
            batch_failure(state.batch, state.index, failure.error),
            batch_undone(state, failure),
        ),
    }
}

/// How a batch starts.
pub open spec fn batch_start(batch: FileMutationBatch, limits: BatchLimits) -> BatchNext {
    batch_checked(batch, limits, preflight_start(batch, limits))
}

/// What follows `reply`.
pub open spec fn batch_next(state: BatchView, reply: FsReply) -> BatchNext {
    match state {
        BatchView::Checking(checks) => batch_checked(
            checks.batch,
            checks.limits,
            preflight_next(checks, reply),
        ),
        BatchView::Applying(application) => application_next(application, reply),
        BatchView::RollingBack(rollback) => batch_rolled(
            rollback.batch,
            rollback.cause,
            rollback_next(rollback, reply),
        ),
    }
}

/// Whether `step` is what was decided.
pub open spec fn batch_agrees(step: BatchStep, next: BatchNext) -> bool {
    match next {
        BatchNext::Pending(state) => {
            &&& step matches BatchStep::Pending(pending)
            &&& pending@ == state
            &&& pending.is_valid()
        },
        BatchNext::Done(outcome) => {
            &&& step matches BatchStep::Done(reached)
            &&& reached@ == outcome
        },
    }
}

/// The error that a batch is undone for.
fn batch_error(batch: &FileMutationBatch, index: usize, error: MutationError) -> (failure: IoError)
    requires
        index < batch.mutations@.len(),
        is_error_at(error, batch.mutations@[index as int].path()),
    ensures
        failure@ == batch_failure(*batch, index, error),
{
    let path = mutation_path(&batch.mutations[index]);
    let position: String = decimal(index);
    let failure = mutation_error(error, path);
    let mut message: String = join(
        join("filesystem mutation ", position.as_str(), " for `").as_str(),
        path.display.as_str(),
        "` failed: ",
    );
    message.append(failure.message.as_str());
    IoError { kind: failure.kind, message }
}

/// The journal of mutations that left what they intend.
fn journal(count: usize) -> (entries: Vec<JournalEntry>)
    ensures
        entries@ == journal_of(count as nat),
{
    let mut entries: Vec<JournalEntry> = Vec::new();
    let mut index: usize = 0;
    while index < count
        invariant
            index <= count,
            entries@ == journal_of(index as nat),
        decreases count - index,
    {
        entries.push(JournalEntry { mutation: index, postimage: Postimage::Intended });
        index = index + 1;
        assert(entries@ =~= journal_of(index as nat));
    }
    entries
}

/// Starts mutation `index`, or commits when there is none left.
fn start_next(plan: Plan, index: usize, created: Vec<CreatedDirectory>) -> (step: BatchStep)
    requires
        plan.is_checked(),
        index <= plan.batch.mutations@.len(),
        forall|i: int|
            0 <= i < created@.len() ==> is_directory_of(#[trigger] created@[i], plan.batch),
    ensures
        batch_agrees(step, batch_onward(plan.batch, plan.preimages@, index, created@)),
{
    if index < plan.batch.mutations.len() {
        assert(is_fresh_target(plan.batch.mutations@, index as int));
        let stage = start_mutation(&plan.batch.mutations[index]);
        BatchStep::Pending(
            BatchMutation::Applying(Application { plan, index, created, stage }),
        )
    } else {
        BatchStep::Done(FileMutationBatchOutcome::Committed)
    }
}

/// Goes on after the checks.
fn after_checks(
    step: PreflightStep,
    Ghost(batch): Ghost<FileMutationBatch>,
    Ghost(limits): Ghost<BatchLimits>,
    Ghost(next): Ghost<PreflightNext>,
) -> (onward: BatchStep)
    requires
        preflight_agrees(step, batch, limits, next),
    ensures
        batch_agrees(onward, batch_checked(batch, limits, next)),
{
    match step {
        PreflightStep::Pending(checks) => BatchStep::Pending(BatchMutation::Checking(checks)),
        PreflightStep::Done(Err(error)) => BatchStep::Done(
            FileMutationBatchOutcome::Rejected { error: error.message },
        ),
        PreflightStep::Done(Ok(plan)) => {
            let created: Vec<CreatedDirectory> = Vec::new();
            assert(created@ =~= Seq::<CreatedDirectory>::empty());
            start_next(plan, 0, created)
        },
    }
}

/// Goes on with the undoing.
fn after_undoing(
    step: RollbackStep,
    Ghost(batch): Ghost<FileMutationBatch>,
    Ghost(cause): Ghost<IoErrorView>,
    Ghost(next): Ghost<RollbackNext>,
) -> (onward: BatchStep)
    requires
        rollback_agrees(step, batch, cause, next),
    ensures
        batch_agrees(onward, batch_rolled(batch, cause, next)),
{
    match step {
        RollbackStep::Pending(rollback) => BatchStep::Pending(BatchMutation::RollingBack(rollback)),
        RollbackStep::Done(outcome) => BatchStep::Done(outcome),
    }
}

/// Starts a batch: it is checked, then its mutations take place in order, and when one fails
/// everything before it is undone.
pub fn mutate_batch_on(batch: FileMutationBatch, limits: BatchLimits) -> (step: BatchStep)
    ensures
        batch_agrees(step, batch_start(batch, limits)),
{
    let ghost given = batch;
    after_checks(
        preflight_with_limits(batch, limits),
        Ghost(given),
        Ghost(limits),
        Ghost(preflight_start(given, limits)),
    )
}

impl Application {
    /// The request whose reply is awaited.
    pub fn request(&self) -> (request: FsRequest<'_>)
        requires
            self@.is_valid(),
        ensures
            request == self@.request(),
    {
        self.stage.request(
            &self.plan.batch.mutations[self.index],
            self.plan.batch.follow_symlinks,
        )
    }

    /// Takes the awaited reply into account.
    pub fn resume(self, reply: FsReply) -> (step: BatchStep)
        requires
            self@.is_valid(),
            self@.request().is_answered_by(reply),
        ensures
            batch_agrees(step, application_next(self@, reply)),
    {
        let ghost state = self@;
        let Application { plan, index, created, stage } = self;
        proof {
            assert(is_fresh_target(plan.batch.mutations@, index as int));
            assert(index < plan.batch.mutations.len());
            lemma_apply_next_valid(
                plan.batch.mutations@[index as int],
                plan.preimages@[index as int]@,
                stage,
                reply,
            );
        }
        let mut created = created;
        match apply_mutation(
            &plan.batch.mutations[index],
            &plan.preimages[index],
            stage,
            reply,
        ) {
            ApplyStep::Continue { stage, created: made } => {
                match made {
                    Some((levels, metadata)) => {
                        created.push(CreatedDirectory { mutation: index, levels, metadata });
                    },
                    None => {},
                }
                BatchStep::Pending(
                    BatchMutation::Applying(Application { plan, index, created, stage }),
                )
            },
            ApplyStep::Done(Ok(_)) => start_next(plan, index + 1, created),
            ApplyStep::Done(Err(failure)) => {
                let ghost decided = batch_undone(state, failure);
                let ghost batch = plan.batch;
                let cause = batch_error(&plan.batch, index, failure.error);
                let failed_entry = match failure.entry {
                    Some(postimage) => Some(JournalEntry { mutation: index, postimage }),
                    None => None,
                };
                let ghost reason = cause@;
                after_undoing(
                    rollback(plan, cause, failed_entry, journal(index), created),
                    Ghost(batch),
                    Ghost(reason),
                    Ghost(decided),
                )
            },
        }
    }
}

impl BatchMutation {
    /// Whether this is a state that a batch can come to.
    pub open spec fn is_valid(self) -> bool {
        match self {
            BatchMutation::Checking(checks) => checks.is_valid(),
            BatchMutation::Applying(application) => application@.is_valid(),
            BatchMutation::RollingBack(rollback) => rollback@.is_valid(),
        }
    }

    /// The request whose reply is awaited.
    pub fn request(&self) -> (request: FsRequest<'_>)
        requires
            self.is_valid(),
        ensures
            request == self@.request(),
    {
        match self {
            BatchMutation::Checking(checks) => checks.request(),
            BatchMutation::Applying(application) => application.request(),
            BatchMutation::RollingBack(rollback) => rollback.request(),
        }
    }

    /// Takes the awaited reply into account.
    pub fn resume(self, reply: FsReply) -> (step: BatchStep)
        requires
            self.is_valid(),
            self@.request().is_answered_by(reply),
        ensures
            batch_agrees(step, batch_next(self@, reply)),
    {
        let ghost state = self@;
        match self {
            BatchMutation::Checking(checks) => {
                let ghost before = checks@;
                let ghost decided = preflight_next(before, reply);
                after_checks(
                    checks.resume(reply),
                    Ghost(before.batch),
                    Ghost(before.limits),
                    Ghost(decided),
                )
            },
            BatchMutation::Applying(application) => application.resume(reply),
            BatchMutation::RollingBack(rollback) => {
                let ghost before = rollback@;
                let ghost decided = rollback_next(before, reply);
                after_undoing(
                    rollback.resume(reply),
                    Ghost(before.batch),
                    Ghost(before.cause),
                    Ghost(decided),
                )
            },
        }
    }
}

} // verus!
