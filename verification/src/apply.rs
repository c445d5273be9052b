//! One mutation of a batch, from its parent directories to the check of what it left behind.

use vstd::prelude::*;

use crate::error::{ErrorKind, IoError, IoErrorView};
use crate::file_system::{FileMetadata, FsReply, FsRequest, Location};
use crate::mutation::{intended_postimage, mutation_path, FileMutation};
use crate::parents::{
    ensure_parent_directories, is_parent_error, parent_error, parent_failure, parents_next,
    parents_start, start_parent_directories, ParentError, ParentStage, ParentStep,
};
use crate::path::PathUri;
use crate::preflight::{snapshot_error, snapshot_failure};
use crate::snapshot::{
    snapshot, snapshot_next, Snapshot, SnapshotError, SnapshotStage, SnapshotStep,
};
use crate::text::{join, joined};

verus! {

/// How far a mutation has come: which reply is awaited.
#[derive(Debug)]
pub enum ApplyStage {
    /// The parent directories are being prepared.
    Parents(ParentStage),
    /// The file is looked at once more before it changes.
    Before(SnapshotStage),
    /// The file is being written or removed.
    Operating,
    /// That ended with `operation`, and the file is looked at again.
    After { operation: Result<(), IoError>, snapshot: SnapshotStage },
}

/// What a mutation is held to have left behind.
#[derive(Debug)]
pub enum Postimage {
    /// What the mutation intends.
    Intended,
    /// What was seen.
    Observed(Snapshot),
}

/// Why a mutation failed.
#[derive(Debug)]
pub enum MutationError {
    /// The parent directories could not be prepared.
    Parent(ParentError),
    /// The file could not be looked at.
    Snapshot(SnapshotError),
    /// The file no longer held what it held when the batch was checked.
    PreimageChanged,
    /// The file does not hold what was written.
    PostimageChanged,
    /// The filesystem refused the write or the removal.
    Io(IoError),
}

/// A mutation that failed, and what it may have left behind, where it may have left anything.
#[derive(Debug)]
pub struct MutationFailure {
    pub error: MutationError,
    pub entry: Option<Postimage>,
}

/// What follows a reply.
#[derive(Debug)]
pub enum ApplyStep {
    /// `stage` is awaited. `created` is a directory that was made: its level and its metadata.
    Continue { stage: ApplyStage, created: Option<(usize, FileMetadata)> },
    /// The mutation took place and left the snapshot behind, or it failed.
    Done(Result<Snapshot, MutationFailure>),
}

impl Postimage {
    /// The state of the file that is held to be left behind by `mutation`.
    pub open spec fn image(self, mutation: FileMutation) -> Option<Seq<u8>> {
        match self {
            Postimage::Intended => mutation.after(),
            Postimage::Observed(snapshot) => snapshot@,
        }
    }
}

/// The number of directories above the file of a mutation.
pub open spec fn parent_count(mutation: FileMutation) -> nat {
    mutation.path().place().names.len()
}

impl ApplyStage {
    /// Whether the stage is one that the mutation can come to.
    pub open spec fn is_valid(self, mutation: FileMutation) -> bool {
        self matches ApplyStage::Parents(stage) ==> stage.is_valid(parent_count(mutation))
    }

    /// The request whose reply is awaited.
    pub open spec fn request_spec<'a>(
        self,
        mutation: &'a FileMutation,
        follow_symlinks: bool,
    ) -> FsRequest<'a> {
        let path = mutation.path();
        let at = Location { path: &path, levels: 0 };
        match self {
            ApplyStage::Parents(stage) => stage.request_spec(&path, follow_symlinks),
            ApplyStage::Before(stage) => stage.request_spec(at, follow_symlinks),
            ApplyStage::Operating => match *mutation {
                FileMutation::Write { contents, .. } => FsRequest::WriteFile {
                    at,
                    contents: &contents,
                    follow_symlinks,
                },
                FileMutation::Remove { .. } => FsRequest::Remove {
                    at,
                    recursive: false,
                    force: false,
                    follow_symlinks,
                },
            },
            ApplyStage::After { snapshot, .. } => snapshot.request_spec(at, follow_symlinks),
        }
    }

    /// The request whose reply is awaited.
    pub fn request<'a>(
        &self,
        mutation: &'a FileMutation,
        follow_symlinks: bool,
    ) -> (request: FsRequest<'a>)
        ensures
            request == self.request_spec(mutation, follow_symlinks),
    {
        let path = mutation_path(mutation);
        let at = Location { path, levels: 0 };
        match self {
            ApplyStage::Parents(stage) => stage.request(path, follow_symlinks),
            ApplyStage::Before(stage) => stage.request(at, follow_symlinks),
            ApplyStage::Operating => match mutation {
                FileMutation::Write { contents, .. } => FsRequest::WriteFile {
                    at,
                    contents,
                    follow_symlinks,
                },
                FileMutation::Remove { .. } => FsRequest::Remove {
                    at,
                    recursive: false,
                    force: false,
                    follow_symlinks,
                },
            },
            ApplyStage::After { snapshot, .. } => snapshot.request(at, follow_symlinks),
        }
    }
}

/// How a mutation starts: a write with its parent directories, where it has any.
pub open spec fn apply_start(mutation: FileMutation) -> ApplyStage {
    match (mutation, parents_start(parent_count(mutation))) {
        (FileMutation::Write { .. }, ParentStep::Continue(stage)) => ApplyStage::Parents(stage),
        _ => ApplyStage::Before(SnapshotStage::Metadata),
    }
}

/// The step that awaits `stage`, with no directory made.
pub open spec fn awaiting(stage: ApplyStage) -> ApplyStep {
    ApplyStep::Continue { stage, created: None }
}

/// The step that ends with a failure.
pub open spec fn failing(error: MutationError, entry: Option<Postimage>) -> ApplyStep {
    ApplyStep::Done(Err(MutationFailure { error, entry }))
}

/// What follows once the file has been looked at after a write or removal that ended with
/// `operation`. The file is held to be unchanged only where the operation failed and the file was
/// seen to hold what it held before.
pub open spec fn apply_concluded(
    mutation: FileMutation,
    preimage: Option<Seq<u8>>,
    operation: Result<(), IoError>,
    observed: Result<Snapshot, SnapshotError>,
) -> ApplyStep {
    match (operation, observed) {
        (Ok(_), Ok(observed)) => if observed@ == mutation.after() {
            ApplyStep::Done(Ok(observed))
        } else {
            failing(MutationError::PostimageChanged, Some(Postimage::Observed(observed)))
        },
        (Ok(_), Err(error)) => failing(MutationError::Snapshot(error), Some(Postimage::Intended)),
        (Err(error), Ok(observed)) => if observed@ == preimage {
            failing(MutationError::Io(error), None)
        } else {
            failing(MutationError::Io(error), Some(Postimage::Observed(observed)))
        },
        (Err(error), Err(_)) => failing(MutationError::Io(error), Some(Postimage::Intended)),
    }
}

/// What follows `reply`, for a mutation whose file held `preimage` when the batch was checked.
pub open spec fn apply_next(
    mutation: FileMutation,
    preimage: Option<Seq<u8>>,
    stage: ApplyStage,
    reply: FsReply,
) -> ApplyStep {
    match stage {
        ApplyStage::Parents(stage) => match parents_next(parent_count(mutation), stage, reply) {
            ParentStep::Continue(stage) => awaiting(ApplyStage::Parents(stage)),
            ParentStep::Created { levels, metadata, next } => ApplyStep::Continue {
                stage: match next {
                    Some(stage) => ApplyStage::Parents(stage),
                    None => ApplyStage::Before(SnapshotStage::Metadata),
                },
                created: Some((levels, metadata)),
            },
            ParentStep::Ready => awaiting(ApplyStage::Before(SnapshotStage::Metadata)),
            ParentStep::Failed(error) => failing(MutationError::Parent(error), None),
        },
        ApplyStage::Before(stage) => match snapshot_next(stage, reply) {
            SnapshotStep::Continue(stage) => awaiting(ApplyStage::Before(stage)),
            SnapshotStep::Done(Ok(current)) => if current@ == preimage {
                awaiting(ApplyStage::Operating)
            } else {
                failing(MutationError::PreimageChanged, None)
            },
            SnapshotStep::Done(Err(error)) => failing(MutationError::Snapshot(error), None),
        },
        ApplyStage::Operating => match reply {
            FsReply::Done(operation) => awaiting(
                ApplyStage::After { operation, snapshot: SnapshotStage::Metadata },
            ),
            _ => awaiting(stage),
        },
        ApplyStage::After { operation, snapshot } => match snapshot_next(snapshot, reply) {
            SnapshotStep::Continue(snapshot) => awaiting(
                ApplyStage::After { operation, snapshot },
            ),
            SnapshotStep::Done(observed) => apply_concluded(
                mutation,
                preimage,
                operation,
                observed,
            ),
        },
    }
}

/// The error that a mutation of `path` failed with.
pub open spec fn mutation_failure(error: MutationError, path: PathUri) -> IoErrorView {
    match error {
        MutationError::Parent(error) => parent_failure(error, path.native->Ok_0@),
        MutationError::Snapshot(error) => snapshot_failure(error, path.display@),
        MutationError::PreimageChanged => IoErrorView {
            kind: ErrorKind::Other,
            message: joined("preimage changed for `"@, path.display@, "` before mutation"@),
        },
        MutationError::PostimageChanged => IoErrorView {
            kind: ErrorKind::Other,
            message: joined("postimage changed for `"@, path.display@, "`"@),
        },
        MutationError::Io(error) => error@,
    }
}

/// Whether the error is one that a mutation of `path` can fail with.
pub open spec fn is_error_at(error: MutationError, path: PathUri) -> bool {
    &&& path.native is Ok
    &&& error matches MutationError::Parent(error) ==> is_parent_error(
        error,
        path.place().names.len(),
    )
}

/// The error that a mutation of `path` failed with.
pub fn mutation_error(error: MutationError, path: &PathUri) -> (failure: IoError)
    requires
        is_error_at(error, *path),
    ensures
        failure@ == mutation_failure(error, *path),
{
    match error {
        MutationError::Parent(error) => match &path.native {
            Ok(native) => parent_error(error, native),
            Err(unavailable) => unavailable.clone(),
        },
        MutationError::Snapshot(error) => snapshot_error(error, path.display.as_str()),
        MutationError::PreimageChanged => IoError::other(
            join("preimage changed for `", path.display.as_str(), "` before mutation").as_str(),
        ),
        MutationError::PostimageChanged => IoError::other(
            join("postimage changed for `", path.display.as_str(), "`").as_str(),
        ),
        MutationError::Io(error) => error,
    }
}

/// Starts a mutation.
pub fn start_mutation(mutation: &FileMutation) -> (stage: ApplyStage)
    requires
        mutation.path().native is Ok,
    ensures
        stage == apply_start(*mutation),
        stage.is_valid(*mutation),
{
    match mutation {
        FileMutation::Write { path, .. } => match &path.native {
            Ok(native) => match start_parent_directories(native.parent_count()) {
                ParentStep::Continue(stage) => ApplyStage::Parents(stage),
                _ => ApplyStage::Before(SnapshotStage::Metadata),
            },
            Err(_) => ApplyStage::Before(SnapshotStage::Metadata),
        },
        FileMutation::Remove { .. } => ApplyStage::Before(SnapshotStage::Metadata),
    }
}

fn wait_for(stage: ApplyStage) -> (step: ApplyStep)
    ensures
        step == awaiting(stage),
{
    ApplyStep::Continue { stage, created: None }
}

fn fail_with(error: MutationError, entry: Option<Postimage>) -> (step: ApplyStep)
    ensures
        step == failing(error, entry),
{
    ApplyStep::Done(Err(MutationFailure { error, entry }))
}

/// Weighs what the write or removal reported against what the file then held.
fn conclude(
    mutation: &FileMutation,
    preimage: &Snapshot,
    operation: Result<(), IoError>,
    observed: Result<Snapshot, SnapshotError>,
) -> (step: ApplyStep)
    ensures
        step == apply_concluded(*mutation, preimage@, operation, observed),
{
    match (operation, observed) {
        (Ok(()), Ok(observed)) => {
            if observed.same_image(&intended_postimage(mutation)) {
                ApplyStep::Done(Ok(observed))
            } else {
                fail_with(MutationError::PostimageChanged, Some(Postimage::Observed(observed)))
            }
        },
        (Ok(()), Err(error)) => fail_with(
            MutationError::Snapshot(error),
            Some(Postimage::Intended),
        ),
        (Err(error), Ok(observed)) => {
            if observed.same_image(preimage) {
                fail_with(MutationError::Io(error), None)
            } else {
                fail_with(MutationError::Io(error), Some(Postimage::Observed(observed)))
            }
        },
        (Err(error), Err(_)) => fail_with(MutationError::Io(error), Some(Postimage::Intended)),
    }
}

/// Takes the awaited reply into account. `preimage` is what the file held when the batch was checked.
pub fn apply_mutation(
    mutation: &FileMutation,
    preimage: &Snapshot,
    stage: ApplyStage,
    reply: FsReply,
) -> (step: ApplyStep)
    requires
        mutation.path().native is Ok,
        stage.is_valid(*mutation),
        stage.request_spec(mutation, true).is_answered_by(reply),
    ensures
        step == apply_next(*mutation, preimage@, stage, reply),
{
    match stage {
        ApplyStage::Parents(stage) => {
            let count: usize = match &mutation_path(mutation).native {
                Ok(native) => native.parent_count(),
                Err(_) => 0,
            };
            match ensure_parent_directories(count, stage, reply) {
                ParentStep::Continue(stage) => wait_for(ApplyStage::Parents(stage)),
                ParentStep::Created { levels, metadata, next } => ApplyStep::Continue {
                    stage: match next {
                        Some(stage) => ApplyStage::Parents(stage),
                        None => ApplyStage::Before(SnapshotStage::Metadata),
                    },
                    created: Some((levels, metadata)),
                },
                ParentStep::Ready => wait_for(ApplyStage::Before(SnapshotStage::Metadata)),
                ParentStep::Failed(error) => fail_with(MutationError::Parent(error), None),
            }
        },
        ApplyStage::Before(stage) => match snapshot(stage, reply) {
            SnapshotStep::Continue(stage) => wait_for(ApplyStage::Before(stage)),
            SnapshotStep::Done(Ok(current)) => {
                if current.same_image(preimage) {
                    wait_for(ApplyStage::Operating)
                } else {
                    fail_with(MutationError::PreimageChanged, None)
                }
            },
            SnapshotStep::Done(Err(error)) => fail_with(MutationError::Snapshot(error), None),
        },
        ApplyStage::Operating => match reply {
            FsReply::Done(operation) => wait_for(
                ApplyStage::After { operation, snapshot: SnapshotStage::Metadata },
            ),
            _ => wait_for(ApplyStage::Operating),
        },
        ApplyStage::After { operation, snapshot: stage } => match snapshot(stage, reply) {
            SnapshotStep::Continue(stage) => wait_for(
                ApplyStage::After { operation, snapshot: stage },
            ),
            SnapshotStep::Done(observed) => conclude(mutation, preimage, operation, observed),
        },
    }
}

/// Whatever the reply, the next stage is one that the mutation can come to, a directory that was
/// made is one above the file, and an error speaks of such a directory.
pub proof fn lemma_apply_next_valid(
    mutation: FileMutation,
    preimage: Option<Seq<u8>>,
    stage: ApplyStage,
    reply: FsReply,
)
    requires
        mutation.path().native is Ok,
        stage.is_valid(mutation),
    ensures
        match apply_next(mutation, preimage, stage, reply) {
            ApplyStep::Continue { stage: next, created } => {
                &&& next.is_valid(mutation)
                &&& created matches Some((levels, _)) ==> 1 <= levels <= parent_count(mutation)
            },
            ApplyStep::Done(Err(failure)) => is_error_at(failure.error, mutation.path()),
            ApplyStep::Done(Ok(_)) => true,
        },
{
    assert(parent_count(mutation) == mutation.path().native->Ok_0.components.len());
}

} // verus!
