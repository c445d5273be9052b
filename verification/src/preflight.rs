//! The checks that a batch passes before anything changes.

use vstd::prelude::*;

use crate::error::{ErrorKind, IoError, IoErrorView};
use crate::file_system::{FsReply, FsRequest, Location};
use crate::mutation::{
    image_bytes, matches_expected, mutation_path, mutation_payload_bytes, snapshot_bytes,
    BatchLimits, FileMutation, FileMutationBatch,
};
use crate::snapshot::{
    snapshot, snapshot_next, Snapshot, SnapshotError, SnapshotStage, SnapshotStep,
};
use crate::text::{decimal, decimal_text, join, joined};

verus! {

/// Why a batch is refused. The number is the position of the mutation that is at fault.
#[derive(Debug)]
pub enum Rejection {
    /// There are more mutations than the limit allows.
    TooManyOperations,
    /// The mutations and the files hold more bytes than the limit allows.
    TooManyBytes,
    /// The path names no place on this host, for this reason.
    NotNative(IoError),
    /// An earlier mutation has the same place.
    DuplicateTarget(usize),
    /// The file could not be looked at.
    Unreadable(usize, SnapshotError),
    /// The file does not hold what the mutation expects.
    PreimageChanged(usize),
}

/// A batch that passed every check, with what each of its files held.
#[derive(Debug)]
pub struct Plan {
    pub batch: FileMutationBatch,
    /// What the file of each mutation held, in the order of the mutations.
    pub preimages: Vec<Snapshot>,
}

/// The bytes that the first mutations carry and that their files held.
pub open spec fn decoded(mutations: Seq<FileMutation>, preimages: Seq<Snapshot>) -> int
    decreases preimages.len(),
{
    if preimages.len() == 0 {
        0
    } else {
        let last = preimages.len() - 1;
        decoded(mutations, preimages.drop_last()) + mutations[last].payload() + image_bytes(
            preimages.last()@,
        )
    }
}

/// Whether mutation `index` names a place on this host that no earlier mutation names.
pub open spec fn is_fresh_target(mutations: Seq<FileMutation>, index: int) -> bool {
    &&& mutations[index].path().native is Ok
    &&& forall|earlier: int|
        0 <= earlier < index ==> (#[trigger] mutations[earlier]).path().place()
            != mutations[index].path().place()
}

/// Whether each of the first `count` mutations names a place of its own.
pub open spec fn are_fresh_targets(mutations: Seq<FileMutation>, count: int) -> bool {
    forall|index: int| 0 <= index < count ==> #[trigger] is_fresh_target(mutations, index)
}

/// Whether `preimages` are what the first mutations expect.
pub open spec fn are_expected(mutations: Seq<FileMutation>, preimages: Seq<Snapshot>) -> bool {
    forall|index: int|
        0 <= index < preimages.len() ==> (#[trigger] preimages[index])@
            == mutations[index].before()
}

impl Plan {
    /// Whether the plan is one that the checks let through.
    pub open spec fn is_checked(self) -> bool {
        is_checked_plan(self.batch, self.preimages@)
    }
}

/// Whether a batch, of whose files `preimages` were seen, passes every check on targets and
/// preimages.
pub open spec fn is_checked_plan(batch: FileMutationBatch, preimages: Seq<Snapshot>) -> bool {
    &&& preimages.len() == batch.mutations@.len()
    &&& are_fresh_targets(batch.mutations@, batch.mutations@.len() as int)
    &&& are_expected(batch.mutations@, preimages)
}

/// The checks of a batch, under way. The file of the first mutation without a preimage is being
/// looked at.
#[derive(Debug)]
pub struct Preflight {
    pub batch: FileMutationBatch,
    pub limits: BatchLimits,
    pub preimages: Vec<Snapshot>,
    /// The bytes counted so far.
    pub decoded_bytes: usize,
    pub stage: SnapshotStage,
}

/// What a [`Preflight`] has found out.
#[verifier::ext_equal]
pub struct PreflightView {
    pub batch: FileMutationBatch,
    pub limits: BatchLimits,
    pub preimages: Seq<Snapshot>,
    pub stage: SnapshotStage,
}

/// What follows a reply, or the start.
#[derive(Debug)]
pub enum PreflightStep {
    Pending(Preflight),
    Done(Result<Plan, IoError>),
}

/// What follows a reply, or the start, as it is decided.
pub enum PreflightNext {
    Pending(PreflightView),
    Planned(Seq<Snapshot>),
    Refused(Rejection),
}

impl View for Preflight {
    type V = PreflightView;

    open spec fn view(&self) -> PreflightView {
        PreflightView {
            batch: self.batch,
            limits: self.limits,
            preimages: self.preimages@,
            stage: self.stage,
        }
    }
}

impl PreflightView {
    /// Whether the checks so far have been passed.
    pub open spec fn is_valid(self) -> bool {
        let mutations = self.batch.mutations@;
        let index = self.preimages.len() as int;
        &&& index < mutations.len() <= self.limits.max_operations
        &&& are_fresh_targets(mutations, index + 1)
        &&& are_expected(mutations, self.preimages)
        &&& decoded(mutations, self.preimages) + mutations[index].payload()
            <= self.limits.max_decoded_bytes
    }

    /// The request whose reply is awaited.
    pub open spec fn request(self) -> FsRequest<'static> {
        let path = self.batch.mutations@[self.preimages.len() as int].path();
        self.stage.request_spec(Location { path: &path, levels: 0 }, self.batch.follow_symlinks)
    }
}

/// What follows once the files of the first mutations have been seen: the batch is planned when
/// they are all; otherwise the next mutation has its bytes counted and its target checked, and its
/// file is looked at.
pub open spec fn proceeding(
    batch: FileMutationBatch,
    limits: BatchLimits,
    preimages: Seq<Snapshot>,
) -> PreflightNext {
    let mutations = batch.mutations@;
    let index = preimages.len() as int;
    if index >= mutations.len() {
        PreflightNext::Planned(preimages)
    } else if decoded(mutations, preimages) + mutations[index].payload()
        > limits.max_decoded_bytes {
        PreflightNext::Refused(Rejection::TooManyBytes)
    } else if mutations[index].path().native is Err {
        PreflightNext::Refused(Rejection::NotNative(mutations[index].path().native->Err_0))
    } else if !is_fresh_target(mutations, index) {
        PreflightNext::Refused(Rejection::DuplicateTarget(index as usize))
    } else {
        PreflightNext::Pending(
            PreflightView { batch, limits, preimages, stage: SnapshotStage::Metadata },
        )
    }
}

/// How the checks of a batch start.
pub open spec fn preflight_start(batch: FileMutationBatch, limits: BatchLimits) -> PreflightNext {
    if batch.mutations@.len() > limits.max_operations {
        PreflightNext::Refused(Rejection::TooManyOperations)
    } else {
        proceeding(batch, limits, Seq::empty())
    }
}

/// What follows `reply`.
pub open spec fn preflight_next(checks: PreflightView, reply: FsReply) -> PreflightNext {
    let mutations = checks.batch.mutations@;
    let index = checks.preimages.len() as int;
    match snapshot_next(checks.stage, reply) {
        SnapshotStep::Continue(stage) => PreflightNext::Pending(PreflightView { stage, ..checks }),
        SnapshotStep::Done(Err(error)) => PreflightNext::Refused(
            Rejection::Unreadable(index as usize, error),
        ),
        SnapshotStep::Done(Ok(preimage)) => {
            let preimages = checks.preimages.push(preimage);
            if decoded(mutations, preimages) > checks.limits.max_decoded_bytes {
                PreflightNext::Refused(Rejection::TooManyBytes)
            } else if preimage@ != mutations[index].before() {
                PreflightNext::Refused(Rejection::PreimageChanged(index as usize))
            } else {
                proceeding(checks.batch, checks.limits, preimages)
            }
        },
    }
}

/// The text for a batch that carries too many bytes.
pub open spec fn too_large_text(limits: BatchLimits) -> Seq<char> {
    joined(
        "filesystem mutation batch exceeds "@,
        decimal_text(limits.max_decoded_bytes as nat),
        " decoded bytes"@,
    )
}

/// The error that a snapshot of `path` failed with.
pub open spec fn snapshot_failure(error: SnapshotError, display: Seq<char>) -> IoErrorView {
    match error {
        SnapshotError::Io(error) => error@,
        SnapshotError::NotRegularFile => IoErrorView {
            kind: ErrorKind::InvalidInput,
            message: joined("`"@, display, "` is not a regular file"@),
        },
    }
}

/// The error that a refused batch is answered with.
pub open spec fn rejection_failure(
    batch: FileMutationBatch,
    limits: BatchLimits,
    rejection: Rejection,
) -> IoErrorView {
    let mutations = batch.mutations@;
    match rejection {
        Rejection::TooManyOperations => IoErrorView {
            kind: ErrorKind::InvalidInput,
            message: joined(
                "filesystem mutation batch exceeds "@,
                decimal_text(limits.max_operations as nat),
                " operations"@,
            ),
        },
        Rejection::TooManyBytes => IoErrorView {
            kind: ErrorKind::InvalidInput,
            message: too_large_text(limits),
        },
        Rejection::NotNative(error) => error@,
        Rejection::DuplicateTarget(index) => IoErrorView {
            kind: ErrorKind::InvalidInput,
            message: joined(
                "filesystem mutation batch targets `"@,
                mutations[index as int].path().native->Ok_0@.text(0),
                "` more than once"@,
            ),
        },
        Rejection::Unreadable(index, error) => snapshot_failure(
            error,
            mutations[index as int].path().display@,
        ),
        Rejection::PreimageChanged(index) => IoErrorView {
            kind: ErrorKind::Other,
            message: joined(
                "preimage changed for `"@,
                mutations[index as int].path().display@,
                "`"@,
            ),
        },
    }
}

/// Whether `step` is what was decided.
pub open spec fn preflight_agrees(
    step: PreflightStep,
    batch: FileMutationBatch,
    limits: BatchLimits,
    next: PreflightNext,
) -> bool {
    match next {
        PreflightNext::Pending(checks) => {
            &&& step matches PreflightStep::Pending(pending)
            &&& pending@ == checks
            &&& pending.is_valid()
        },
        PreflightNext::Planned(preimages) => {
            &&& step matches PreflightStep::Done(Ok(plan))
            &&& plan.batch == batch
            &&& plan.preimages@ == preimages
            &&& plan.is_checked()
        },
        PreflightNext::Refused(rejection) => {
            &&& step matches PreflightStep::Done(Err(error))
            &&& error@ == rejection_failure(batch, limits, rejection)
        },
    }
}

/// The error for a batch that carries too many bytes.
pub fn batch_too_large_error(limits: BatchLimits) -> (error: IoError)
    ensures
        error@ == (IoErrorView {
            kind: ErrorKind::InvalidInput,
            message: too_large_text(limits),
        }),
{
    let limit: String = decimal(limits.max_decoded_bytes);
    IoError::new(
        ErrorKind::InvalidInput,
        join("filesystem mutation batch exceeds ", limit.as_str(), " decoded bytes").as_str(),
    )
}

/// The error for a snapshot that could not be taken.
pub fn snapshot_error(error: SnapshotError, display: &str) -> (failure: IoError)
    ensures
        failure@ == snapshot_failure(error, display@),
{
    match error {
        SnapshotError::Io(error) => error,
        SnapshotError::NotRegularFile => IoError::new(
            ErrorKind::InvalidInput,
            join("`", display, "` is not a regular file").as_str(),
        ),
    }
}

/// Whether a rejection speaks of mutations that the batch has.
pub open spec fn concerns(rejection: Rejection, batch: FileMutationBatch) -> bool {
    let mutations = batch.mutations@;
    match rejection {
        Rejection::TooManyOperations | Rejection::TooManyBytes | Rejection::NotNative(_) => true,
        Rejection::DuplicateTarget(index) => index < mutations.len()
            && mutations[index as int].path().native is Ok,
        Rejection::Unreadable(index, _) | Rejection::PreimageChanged(index) => index
            < mutations.len(),
    }
}

/// The error that a refused batch is answered with.
pub fn rejection_error(
    batch: &FileMutationBatch,
    limits: BatchLimits,
    rejection: Rejection,
) -> (error: IoError)
    requires
        concerns(rejection, *batch),
    ensures
        error@ == rejection_failure(*batch, limits, rejection),
{
    match rejection {
        Rejection::TooManyOperations => {
            let limit: String = decimal(limits.max_operations);
            IoError::new(
                ErrorKind::InvalidInput,
                join("filesystem mutation batch exceeds ", limit.as_str(), " operations").as_str(),
            )
        },
        Rejection::TooManyBytes => batch_too_large_error(limits),
        Rejection::NotNative(error) => error,
        Rejection::DuplicateTarget(index) => {
            match mutation_path(&batch.mutations[index]).to_abs_path() {
                Ok(native) => {
                    let place: String = native.text(0);
                    IoError::new(
                        ErrorKind::InvalidInput,
                        join(
                            "filesystem mutation batch targets `",
                            place.as_str(),
                            "` more than once",
                        ).as_str(),
                    )
                },
                Err(error) => error,
            }
        },
        Rejection::Unreadable(index, error) => snapshot_error(
            error,
            mutation_path(&batch.mutations[index]).display.as_str(),
        ),
        Rejection::PreimageChanged(index) => IoError::other(
            join(
                "preimage changed for `",
                mutation_path(&batch.mutations[index]).display.as_str(),
                "`",
            ).as_str(),
        ),
    }
}

/// Whether mutation `index`, which names a place on this host, is the first to name it.
fn is_first_to_name(mutations: &Vec<FileMutation>, index: usize) -> (first: bool)
    requires
        index < mutations@.len(),
        are_fresh_targets(mutations@, index as int),
        mutations@[index as int].path().native is Ok,
    ensures
        first == is_fresh_target(mutations@, index as int),
{
    let mut earlier: usize = 0;
    while earlier < index
        invariant
            earlier <= index < mutations@.len(),
            are_fresh_targets(mutations@, index as int),
            mutations@[index as int].path().native is Ok,
            forall|k: int|
                0 <= k < earlier ==> (#[trigger] mutations@[k]).path().place()
                    != mutations@[index as int].path().place(),
        decreases index - earlier,
    {
        assert(is_fresh_target(mutations@, earlier as int));
        match (
            &mutation_path(&mutations[earlier]).native,
            &mutation_path(&mutations[index]).native,
        ) {
            (Ok(left), Ok(right)) => {
                if left.same_place(right) {
                    assert(mutations@[earlier as int].path().place()
                        == mutations@[index as int].path().place());
                    return false;
                }
            },
            _ => {},
        }
        earlier = earlier + 1;
    }
    true
}

/// Goes on to the next mutation, after the files of the first ones have been seen.
fn proceed(
    batch: FileMutationBatch,
    limits: BatchLimits,
    preimages: Vec<Snapshot>,
    decoded_bytes: usize,
) -> (step: PreflightStep)
    requires
        preimages@.len() <= batch.mutations@.len() <= limits.max_operations,
        are_fresh_targets(batch.mutations@, preimages@.len() as int),
        are_expected(batch.mutations@, preimages@),
        decoded_bytes == decoded(batch.mutations@, preimages@),
        decoded_bytes <= limits.max_decoded_bytes,
    ensures
        preflight_agrees(step, batch, limits, proceeding(batch, limits, preimages@)),
{
    let index: usize = preimages.len();
    if index >= batch.mutations.len() {
        return PreflightStep::Done(Ok(Plan { batch, preimages }));
    }
    let payload: usize = mutation_payload_bytes(&batch.mutations[index]);
    if payload > limits.max_decoded_bytes - decoded_bytes {
        return PreflightStep::Done(Err(batch_too_large_error(limits)));
    }
    match mutation_path(&batch.mutations[index]).to_abs_path() {
        Ok(_) => {},
        Err(error) => {
            return PreflightStep::Done(
                Err(rejection_error(&batch, limits, Rejection::NotNative(error))),
            );
        },
    }
    if !is_first_to_name(&batch.mutations, index) {
        return PreflightStep::Done(
            Err(rejection_error(&batch, limits, Rejection::DuplicateTarget(index))),
        );
    }
    PreflightStep::Pending(
        Preflight {
            batch,
            limits,
            preimages,
            decoded_bytes: decoded_bytes + payload,
            stage: SnapshotStage::Metadata,
        },
    )
}

/// Starts the checks of a batch: its size, that each target is native and named once, and that each
/// file holds what its mutation expects.
pub fn preflight_with_limits(batch: FileMutationBatch, limits: BatchLimits) -> (step: PreflightStep)
    ensures
        preflight_agrees(step, batch, limits, preflight_start(batch, limits)),
{
    if batch.mutations.len() > limits.max_operations {
        return PreflightStep::Done(
            Err(rejection_error(&batch, limits, Rejection::TooManyOperations)),
        );
    }
    let preimages: Vec<Snapshot> = Vec::new();
    assert(preimages@ =~= Seq::<Snapshot>::empty());
    proceed(batch, limits, preimages, 0)
}

impl Preflight {
    /// Whether the checks so far have been passed and counted.
    pub open spec fn is_valid(self) -> bool {
        &&& self@.is_valid()
        &&& self.decoded_bytes == decoded(self.batch.mutations@, self.preimages@)
            + self.batch.mutations@[self.preimages@.len() as int].payload()
    }

    /// The request whose reply is awaited.
    pub fn request(&self) -> (request: FsRequest<'_>)
        requires
            self.is_valid(),
        ensures
            request == self@.request(),
    {
        let path = mutation_path(&self.batch.mutations[self.preimages.len()]);
        self.stage.request(Location { path, levels: 0 }, self.batch.follow_symlinks)
    }

    /// Takes the awaited reply into account.
    pub fn resume(self, reply: FsReply) -> (step: PreflightStep)
        requires
            self.is_valid(),
            self@.request().is_answered_by(reply),
        ensures
            preflight_agrees(step, self.batch, self.limits, preflight_next(self@, reply)),
    {
        let index: usize = self.preimages.len();
        match snapshot(self.stage, reply) {
            SnapshotStep::Continue(stage) => PreflightStep::Pending(Preflight { stage, ..self }),
            SnapshotStep::Done(Err(error)) => PreflightStep::Done(
                Err(
                    rejection_error(
                        &self.batch,
                        self.limits,
                        Rejection::Unreadable(index, error),
                    ),
                ),
            ),
            SnapshotStep::Done(Ok(preimage)) => {
                let bytes: usize = snapshot_bytes(&preimage);
                let matches: bool = matches_expected(&preimage, &self.batch.mutations[index]);
                let ghost longer = self.preimages@.push(preimage);
                assert(longer.drop_last() =~= self.preimages@);
                if bytes > self.limits.max_decoded_bytes - self.decoded_bytes {
                    return PreflightStep::Done(Err(batch_too_large_error(self.limits)));
                }
                if !matches {
                    return PreflightStep::Done(
                        Err(
                            rejection_error(
                                &self.batch,
                                self.limits,
                                Rejection::PreimageChanged(index),
                            ),
                        ),
                    );
                }
                let mut preimages: Vec<Snapshot> = self.preimages;
                preimages.push(preimage);
                proceed(self.batch, self.limits, preimages, self.decoded_bytes + bytes)
            },
        }
    }
}

} // verus!
