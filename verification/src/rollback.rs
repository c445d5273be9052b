//! The undoing of a batch after one of its mutations failed.

use vstd::prelude::*;

use crate::apply::Postimage;
use crate::error::{ErrorKind, IoError, IoErrorView};
use crate::file_system::{FileMetadata, FsReply, FsRequest, Location};
use crate::mutation::{
    intended_postimage, mutation_path, FileMutation, FileMutationBatch, FileMutationBatchOutcome,
};
use crate::path::{PathUri, PathView};
use crate::preflight::{is_checked_plan, is_fresh_target, snapshot_failure, Plan};
use crate::snapshot::{
    snapshot, snapshot_next, Snapshot, SnapshotError, SnapshotStage, SnapshotStep,
};
use crate::text::{bytes_copy, join, joined, separated};

verus! {

/// A mutation that has to be undone, and what it is held to have left behind.
#[derive(Debug)]
pub struct JournalEntry {
    /// The position of the mutation in the batch.
    pub mutation: usize,
    pub postimage: Postimage,
}

/// A directory that the batch made: `levels` above the file of a mutation.
#[derive(Clone, Copy, Debug, PartialEq, Eq, Structural)]
pub struct CreatedDirectory {
    /// The position of the mutation in the batch.
    pub mutation: usize,
    pub levels: usize,
    /// What the directory looked like when it had just been made.
    pub metadata: FileMetadata,
}

/// Why something could not be undone.
#[derive(Debug)]
pub enum RollbackError {
    /// The file could not be looked at.
    Snapshot(SnapshotError),
    /// The filesystem failed.
    Io(IoError),
    /// The file holds neither what it held before nor what the batch left.
    ChangedSince,
    /// The file does not hold what was restored.
    Unverified,
    /// The directory is not as it was when it was made.
    DirectoryChanged,
    /// The directory is still there.
    DirectoryRemains,
}

/// Something that could not be undone.
#[derive(Debug)]
pub enum RollbackFailure {
    /// The file of the mutation at this position.
    Entry { mutation: usize, error: RollbackError },
    Directory { directory: CreatedDirectory, error: RollbackError },
}

/// How far the undoing of one file has come: which reply is awaited.
#[derive(Clone, Copy, Debug, PartialEq, Eq, Structural)]
pub enum EntryStage {
    /// The file is looked at.
    Checking(SnapshotStage),
    /// The file is written back or removed.
    Undoing,
    /// The file is looked at again.
    Verifying(SnapshotStage),
}

/// What follows a reply.
#[derive(Debug)]
pub enum EntryStep {
    Continue(EntryStage),
    Done(Result<(), RollbackError>),
}

/// How far the undoing of one directory has come: which reply is awaited.
#[derive(Clone, Copy, Debug, PartialEq, Eq, Structural)]
pub enum DirectoryStage {
    /// The directory is looked at.
    Probing,
    /// The directory is removed.
    Removing,
    /// The directory is looked at again.
    Confirming,
}

/// What follows a reply.
#[derive(Debug)]
pub enum DirectoryStep {
    Continue(DirectoryStage),
    Done(Result<(), RollbackError>),
}

impl EntryStage {
    /// The request whose reply is awaited, for a file that held `preimage`.
    pub open spec fn request_spec<'a>(
        self,
        path: &'a PathUri,
        preimage: &'a Snapshot,
        follow_symlinks: bool,
    ) -> FsRequest<'a> {
        let at = Location { path, levels: 0 };
        match self {
            EntryStage::Checking(stage) => stage.request_spec(at, follow_symlinks),
            EntryStage::Undoing => match *preimage {
                Snapshot::Missing => FsRequest::Remove {
                    at,
                    recursive: false,
                    force: false,
                    follow_symlinks,
                },
                Snapshot::Exact(contents) => FsRequest::WriteFile {
                    at,
                    contents: &contents,
                    follow_symlinks,
                },
            },
            EntryStage::Verifying(stage) => stage.request_spec(at, follow_symlinks),
        }
    }

    /// The request whose reply is awaited, for a file that held `preimage`.
    pub fn request<'a>(
        self,
        path: &'a PathUri,
        preimage: &'a Snapshot,
        follow_symlinks: bool,
    ) -> (request: FsRequest<'a>)
        ensures
            request == self.request_spec(path, preimage, follow_symlinks),
    {
        let at = Location { path, levels: 0 };
        match self {
            EntryStage::Checking(stage) => stage.request(at, follow_symlinks),
            EntryStage::Undoing => match preimage {
                Snapshot::Missing => FsRequest::Remove {
                    at,
                    recursive: false,
                    force: false,
                    follow_symlinks,
                },
                Snapshot::Exact(contents) => FsRequest::WriteFile {
                    at,
                    contents,
                    follow_symlinks,
                },
            },
            EntryStage::Verifying(stage) => stage.request(at, follow_symlinks),
        }
    }

    /// Whether `reply` is of the awaited kind.
    pub open spec fn accepts(self, reply: FsReply) -> bool {
        match self {
            EntryStage::Checking(stage) => stage.accepts(reply),
            EntryStage::Undoing => reply is Done,
            EntryStage::Verifying(stage) => stage.accepts(reply),
        }
    }
}

/// What follows `reply`. A file that holds `preimage` is left alone; one that holds `postimage` is
/// restored and looked at again; any other is not touched.
pub open spec fn entry_next(
    preimage: Option<Seq<u8>>,
    postimage: Option<Seq<u8>>,
    stage: EntryStage,
    reply: FsReply,
) -> EntryStep {
    match stage {
        EntryStage::Checking(stage) => match snapshot_next(stage, reply) {
            SnapshotStep::Continue(stage) => EntryStep::Continue(EntryStage::Checking(stage)),
            SnapshotStep::Done(Err(error)) => EntryStep::Done(Err(RollbackError::Snapshot(error))),
            SnapshotStep::Done(Ok(current)) => if current@ == preimage {
                EntryStep::Done(Ok(()))
            } else if current@ == postimage {
                EntryStep::Continue(EntryStage::Undoing)
            } else {
                EntryStep::Done(Err(RollbackError::ChangedSince))
            },
        },
        EntryStage::Undoing => match reply {
            FsReply::Done(Err(error)) => EntryStep::Done(Err(RollbackError::Io(error))),
            _ => EntryStep::Continue(EntryStage::Verifying(SnapshotStage::Metadata)),
        },
        EntryStage::Verifying(stage) => match snapshot_next(stage, reply) {
            SnapshotStep::Continue(stage) => EntryStep::Continue(EntryStage::Verifying(stage)),
            SnapshotStep::Done(Err(error)) => EntryStep::Done(Err(RollbackError::Snapshot(error))),
            SnapshotStep::Done(Ok(restored)) => if restored@ == preimage {
                EntryStep::Done(Ok(()))
            } else {
                EntryStep::Done(Err(RollbackError::Unverified))
            },
        },
    }
}

/// Takes the awaited reply on one file into account.
pub fn rollback_entry(
    preimage: &Snapshot,
    postimage: &Snapshot,
    stage: EntryStage,
    reply: FsReply,
) -> (step: EntryStep)
    requires
        stage.accepts(reply),
    ensures
        step == entry_next(preimage@, postimage@, stage, reply),
{
    match stage {
        EntryStage::Checking(stage) => match snapshot(stage, reply) {
            SnapshotStep::Continue(stage) => EntryStep::Continue(EntryStage::Checking(stage)),
            SnapshotStep::Done(Err(error)) => EntryStep::Done(Err(RollbackError::Snapshot(error))),
            SnapshotStep::Done(Ok(current)) => {
                if current.same_image(preimage) {
                    EntryStep::Done(Ok(()))
                } else if current.same_image(postimage) {
                    EntryStep::Continue(EntryStage::Undoing)
                } else {
                    EntryStep::Done(Err(RollbackError::ChangedSince))
                }
            },
        },
        EntryStage::Undoing => match reply {
            FsReply::Done(Err(error)) => EntryStep::Done(Err(RollbackError::Io(error))),
            _ => EntryStep::Continue(EntryStage::Verifying(SnapshotStage::Metadata)),
        },
        EntryStage::Verifying(stage) => match snapshot(stage, reply) {
            SnapshotStep::Continue(stage) => EntryStep::Continue(EntryStage::Verifying(stage)),
            SnapshotStep::Done(Err(error)) => EntryStep::Done(Err(RollbackError::Snapshot(error))),
            SnapshotStep::Done(Ok(restored)) => {
                if restored.same_image(preimage) {
                    EntryStep::Done(Ok(()))
                } else {
                    EntryStep::Done(Err(RollbackError::Unverified))
                }
            },
        },
    }
}

impl DirectoryStage {
    /// The request whose reply is awaited.
    pub open spec fn request_spec<'a>(self, at: Location<'a>, follow_symlinks: bool) -> FsRequest<
        'a,
    > {
        if self is Removing {
            FsRequest::Remove { at, recursive: false, force: false, follow_symlinks }
        } else {
            FsRequest::GetMetadata { at, follow_symlinks }
        }
    }

    /// The request whose reply is awaited.
    pub fn request<'a>(self, at: Location<'a>, follow_symlinks: bool) -> (request: FsRequest<'a>)
        ensures
            request == self.request_spec(at, follow_symlinks),
    {
        match self {
            DirectoryStage::Removing => FsRequest::Remove {
                at,
                recursive: false,
                force: false,
                follow_symlinks,
            },
            _ => FsRequest::GetMetadata { at, follow_symlinks },
        }
    }

    /// Whether `reply` is of the awaited kind.
    pub open spec fn accepts(self, reply: FsReply) -> bool {
        if self is Removing { reply is Done } else { reply is Metadata }
    }
}

/// What follows `reply`. A directory that is gone needs nothing; one that is as it was when it was
/// made is removed, and looked for again; any other is not touched.
pub open spec fn directory_next(made: FileMetadata, stage: DirectoryStage, reply: FsReply) -> DirectoryStep {
    match (stage, reply) {
        (DirectoryStage::Probing, FsReply::Metadata(Ok(metadata))) => if metadata == made
            && metadata.is_directory && !metadata.is_symlink {
            DirectoryStep::Continue(DirectoryStage::Removing)
        } else {
            DirectoryStep::Done(Err(RollbackError::DirectoryChanged))
        },
        (DirectoryStage::Confirming, FsReply::Metadata(Ok(_))) => DirectoryStep::Done(
            Err(RollbackError::DirectoryRemains),
        ),
        (_, FsReply::Metadata(Err(error))) => if error.kind == ErrorKind::NotFound {
            DirectoryStep::Done(Ok(()))
        } else {
            DirectoryStep::Done(Err(RollbackError::Io(error)))
        },
        (_, FsReply::Done(Err(error))) => DirectoryStep::Done(Err(RollbackError::Io(error))),
        _ => DirectoryStep::Continue(DirectoryStage::Confirming),
    }
}

/// Takes the awaited reply on one directory into account.
pub fn rollback_created_directory(
    made: FileMetadata,
    stage: DirectoryStage,
    reply: FsReply,
) -> (step: DirectoryStep)
    requires
        stage.accepts(reply),
    ensures
        step == directory_next(made, stage, reply),
{
    match (stage, reply) {
        (DirectoryStage::Probing, FsReply::Metadata(Ok(metadata))) => {
            if metadata != made || metadata.is_symlink || !metadata.is_directory {
                DirectoryStep::Done(Err(RollbackError::DirectoryChanged))
            } else {
                DirectoryStep::Continue(DirectoryStage::Removing)
            }
        },
        (DirectoryStage::Confirming, FsReply::Metadata(Ok(_))) => DirectoryStep::Done(
            Err(RollbackError::DirectoryRemains),
        ),
        (_, FsReply::Metadata(Err(error))) => {
            if error.kind == ErrorKind::NotFound {
                DirectoryStep::Done(Ok(()))
            } else {
                DirectoryStep::Done(Err(RollbackError::Io(error)))
            }
        },
        (_, FsReply::Done(Err(error))) => DirectoryStep::Done(Err(RollbackError::Io(error))),
        _ => DirectoryStep::Continue(DirectoryStage::Confirming),
    }
}

/// What the undoing of a batch awaits.
#[derive(Clone, Copy, Debug, PartialEq, Eq, Structural)]
pub enum RollbackStage {
    /// The file of the last mutation in the journal is being undone.
    Entry(EntryStage),
    /// The journal is empty, and the last directory is being undone.
    Directory(DirectoryStage),
}

/// The undoing of a batch, under way. What is undone leaves the journal and the directories, last
/// one first.
#[derive(Debug)]
pub struct Rollback {
    pub plan: Plan,
    /// Why the batch is undone.
    pub cause: IoError,
    pub journal: Vec<JournalEntry>,
    pub created: Vec<CreatedDirectory>,
    pub failures: Vec<RollbackFailure>,
    pub stage: RollbackStage,
}

/// What a [`Rollback`] has done and has to do.
#[verifier::ext_equal]
pub struct RollbackView {
    pub batch: FileMutationBatch,
    pub preimages: Seq<Snapshot>,
    pub cause: IoErrorView,
    pub journal: Seq<JournalEntry>,
    pub created: Seq<CreatedDirectory>,
    pub failures: Seq<RollbackFailure>,
    pub stage: RollbackStage,
}

/// What follows a reply, or the start.
#[derive(Debug)]
pub enum RollbackStep {
    Pending(Rollback),
    Done(FileMutationBatchOutcome),
}

/// What follows a reply, or the start, as it is decided.
pub enum RollbackNext {
    Pending(RollbackView),
    /// Everything has been tried; these could not be undone.
    Done(Seq<RollbackFailure>),
}

/// How a batch ended, and what is said of it.
pub enum OutcomeView {
    Committed,
    Rejected { error: Seq<char> },
    RolledBack { error: Seq<char> },
    Indeterminate { error: Seq<char>, possibly_mutated_paths: Seq<PathView> },
}

impl View for FileMutationBatchOutcome {
    type V = OutcomeView;

    open spec fn view(&self) -> OutcomeView {
        match self {
            FileMutationBatchOutcome::Committed => OutcomeView::Committed,
            FileMutationBatchOutcome::Rejected { error } => OutcomeView::Rejected { error: error@ },
            FileMutationBatchOutcome::RolledBack { error } => OutcomeView::RolledBack {
                error: error@,
            },
            FileMutationBatchOutcome::Indeterminate { error, possibly_mutated_paths } =>
                OutcomeView::Indeterminate {
                error: error@,
                possibly_mutated_paths: path_views(possibly_mutated_paths@),
            },
        }
    }
}

/// What each of the paths says.
pub open spec fn path_views(paths: Seq<PathUri>) -> Seq<PathView> {
    Seq::new(paths.len(), |i: int| paths[i]@)
}

impl View for Rollback {
    type V = RollbackView;

    open spec fn view(&self) -> RollbackView {
        RollbackView {
            batch: self.plan.batch,
            preimages: self.plan.preimages@,
            cause: self.cause@,
            journal: self.journal@,
            created: self.created@,
            failures: self.failures@,
            stage: self.stage,
        }
    }
}

/// Whether the directory is one above the file of a mutation of the batch.
pub open spec fn is_directory_of(directory: CreatedDirectory, batch: FileMutationBatch) -> bool {
    &&& directory.mutation < batch.mutations@.len()
    &&& 1 <= directory.levels
        <= batch.mutations@[directory.mutation as int].path().place().names.len()
}

/// Whether the failure speaks of a mutation of the batch.
pub open spec fn is_failure_of(failure: RollbackFailure, batch: FileMutationBatch) -> bool {
    match failure {
        RollbackFailure::Entry { mutation, .. } => mutation < batch.mutations@.len(),
        RollbackFailure::Directory { directory, .. } => is_directory_of(directory, batch),
    }
}

impl RollbackView {
    /// Whether journal, directories and failures speak of a checked batch.
    pub open spec fn is_consistent(self) -> bool {
        &&& is_checked_plan(self.batch, self.preimages)
        &&& forall|i: int|
            0 <= i < self.journal.len() ==> (#[trigger] self.journal[i]).mutation
                < self.batch.mutations@.len()
        &&& forall|i: int|
            0 <= i < self.created.len() ==> is_directory_of(#[trigger] self.created[i], self.batch)
        &&& forall|i: int|
            0 <= i < self.failures.len() ==> is_failure_of(#[trigger] self.failures[i], self.batch)
    }

    /// Whether, moreover, what the stage speaks of is there to undo.
    pub open spec fn is_valid(self) -> bool {
        &&& self.is_consistent()
        &&& match self.stage {
            RollbackStage::Entry(_) => self.journal.len() > 0,
            RollbackStage::Directory(_) => self.journal.len() == 0 && self.created.len() > 0,
        }
    }

    /// The request whose reply is awaited.
    pub open spec fn request(self) -> FsRequest<'static> {
        match self.stage {
            RollbackStage::Entry(stage) => {
                let index = self.journal.last().mutation as int;
                let path = self.batch.mutations@[index].path();
                stage.request_spec(&path, &self.preimages[index], self.batch.follow_symlinks)
            },
            RollbackStage::Directory(stage) => {
                let directory = self.created.last();
                let path = self.batch.mutations@[directory.mutation as int].path();
                stage.request_spec(
                    Location { path: &path, levels: directory.levels },
                    self.batch.follow_symlinks,
                )
            },
        }
    }
}

/// What follows once the last entry or directory is dealt with: the last mutation left in the
/// journal, then the last directory left, then the end. The stage of `state` does not matter.
pub open spec fn rollback_onward(state: RollbackView) -> RollbackNext {
    if state.journal.len() > 0 {
        RollbackNext::Pending(
            RollbackView {
                stage: RollbackStage::Entry(EntryStage::Checking(SnapshotStage::Metadata)),
                ..state
            },
        )
    } else if state.created.len() > 0 {
        RollbackNext::Pending(
            RollbackView { stage: RollbackStage::Directory(DirectoryStage::Probing), ..state },
        )
    } else {
        RollbackNext::Done(state.failures)
    }
}

/// `failures` with one more, where there is one.
pub open spec fn noted(
    failures: Seq<RollbackFailure>,
    failure: Option<RollbackFailure>,
) -> Seq<RollbackFailure> {
    match failure {
        Some(failure) => failures.push(failure),
        None => failures,
    }
}

/// What follows `reply`.
pub open spec fn rollback_next(state: RollbackView, reply: FsReply) -> RollbackNext {
    match state.stage {
        RollbackStage::Entry(stage) => {
            let entry = state.journal.last();
            let index = entry.mutation as int;
            let postimage = entry.postimage.image(state.batch.mutations@[index]);
            match entry_next(state.preimages[index]@, postimage, stage, reply) {
                EntryStep::Continue(stage) => RollbackNext::Pending(
                    RollbackView { stage: RollbackStage::Entry(stage), ..state },
                ),
                EntryStep::Done(result) => {
                    let failure = match result {
                        Ok(_) => None,
                        Err(error) => Some(
                            RollbackFailure::Entry { mutation: entry.mutation, error },
                        ),
                    };
                    rollback_onward(
                        RollbackView {
                            journal: state.journal.drop_last(),
                            failures: noted(state.failures, failure),
                            ..state
                        },
                    )
                },
            }
        },
        RollbackStage::Directory(stage) => {
            let directory = state.created.last();
            match directory_next(directory.metadata, stage, reply) {
                DirectoryStep::Continue(stage) => RollbackNext::Pending(
                    RollbackView { stage: RollbackStage::Directory(stage), ..state },
                ),
                DirectoryStep::Done(result) => {
                    let failure = match result {
                        Ok(_) => None,
                        Err(error) => Some(RollbackFailure::Directory { directory, error }),
                    };
                    rollback_onward(
                        RollbackView {
                            created: state.created.drop_last(),
                            failures: noted(state.failures, failure),
                            ..state
                        },
                    )
                },
            }
        },
    }
}

/// The text of an error in undoing a file that is shown as `display`.
pub open spec fn rollback_error_message(error: RollbackError, display: Seq<char>) -> Seq<char> {
    match error {
        RollbackError::Snapshot(error) => snapshot_failure(error, display).message,
        RollbackError::Io(error) => error.message@,
        RollbackError::ChangedSince =>
            "filesystem changed after the batch mutation; refusing to overwrite it during rollback"@,
        RollbackError::Unverified => "rollback verification failed"@,
        RollbackError::DirectoryChanged =>
            "created directory changed before rollback; refusing to remove it"@,
        RollbackError::DirectoryRemains => "created directory still exists after rollback"@,
    }
}

/// What is said of something that could not be undone.
pub open spec fn failure_message(failure: RollbackFailure, batch: FileMutationBatch) -> Seq<char> {
    match failure {
        RollbackFailure::Entry { mutation, error } => {
            let display = batch.mutations@[mutation as int].path().display@;
            joined("failed to roll back `"@, display, "`: "@) + rollback_error_message(
                error,
                display,
            )
        },
        RollbackFailure::Directory { directory, error } => {
            let path = batch.mutations@[directory.mutation as int].path();
            let display = path.native->Ok_0@.text(directory.levels as nat);
            joined("failed to roll back created directory `"@, display, "`: "@)
                + rollback_error_message(error, display)
        },
    }
}

/// What is said of each failure.
pub open spec fn failure_messages(
    failures: Seq<RollbackFailure>,
    batch: FileMutationBatch,
) -> Seq<Seq<char>> {
    Seq::new(failures.len(), |i: int| failure_message(failures[i], batch))
}

/// The files that could not be undone, in the order of the failures.
pub open spec fn failed_paths(
    failures: Seq<RollbackFailure>,
    batch: FileMutationBatch,
) -> Seq<PathView>
    decreases failures.len(),
{
    if failures.len() == 0 {
        Seq::empty()
    } else {
        let earlier = failed_paths(failures.drop_last(), batch);
        match failures.last() {
            RollbackFailure::Entry { mutation, .. } => earlier.push(
                batch.mutations@[mutation as int].path()@,
            ),
            RollbackFailure::Directory { .. } => earlier,
        }
    }
}

/// How the batch ends once everything has been tried: rolled back when nothing failed, and
/// otherwise indeterminate, with every failure and every file that could not be undone.
pub open spec fn rollback_outcome(
    batch: FileMutationBatch,
    cause: IoErrorView,
    failures: Seq<RollbackFailure>,
) -> OutcomeView {
    if failures.len() == 0 {
        OutcomeView::RolledBack { error: cause.message }
    } else {
        OutcomeView::Indeterminate {
            error: joined(
                cause.message,
                "; "@,
                separated(failure_messages(failures, batch), "; "@),
            ),
            possibly_mutated_paths: failed_paths(failures, batch),
        }
    }
}

/// Whether `step` is what was decided for the batch that is undone because of `cause`.
pub open spec fn rollback_agrees(
    step: RollbackStep,
    batch: FileMutationBatch,
    cause: IoErrorView,
    next: RollbackNext,
) -> bool {
    match next {
        RollbackNext::Pending(state) => {
            &&& step matches RollbackStep::Pending(pending)
            &&& pending@ == state
            &&& pending@.is_valid()
        },
        RollbackNext::Done(failures) => {
            &&& step matches RollbackStep::Done(outcome)
            &&& outcome@ == rollback_outcome(batch, cause, failures)
        },
    }
}

fn rollback_error_text(error: &RollbackError, display: &str) -> (text: String)
    ensures
        text@ == rollback_error_message(*error, display@),
{
    match error {
        RollbackError::Snapshot(SnapshotError::Io(error)) => error.message.clone(),
        RollbackError::Snapshot(SnapshotError::NotRegularFile) => join(
            "`",
            display,
            "` is not a regular file",
        ),
        RollbackError::Io(error) => error.message.clone(),
        RollbackError::ChangedSince =>
            "filesystem changed after the batch mutation; refusing to overwrite it during rollback".to_owned(),
        RollbackError::Unverified => "rollback verification failed".to_owned(),
        RollbackError::DirectoryChanged =>
            "created directory changed before rollback; refusing to remove it".to_owned(),
        RollbackError::DirectoryRemains => "created directory still exists after rollback".to_owned(),
    }
}

fn failure_text(failure: &RollbackFailure, batch: &FileMutationBatch) -> (text: String)
    requires
        is_failure_of(*failure, *batch),
        forall|i: int|
            0 <= i < batch.mutations@.len() ==> (#[trigger] batch.mutations@[i]).path().native is Ok,
    ensures
        text@ == failure_message(*failure, *batch),
{
    match failure {
        RollbackFailure::Entry { mutation, error } => {
            let display: &str = mutation_path(&batch.mutations[*mutation]).display.as_str();
            let mut text: String = join("failed to roll back `", display, "`: ");
            text.append(rollback_error_text(error, display).as_str());
            text
        },
        RollbackFailure::Directory { directory, error } => {
            let display: String = match &mutation_path(
                &batch.mutations[directory.mutation],
            ).native {
                Ok(native) => native.text(directory.levels),
                Err(_) => String::new(),
            };
            let mut text: String = join(
                "failed to roll back created directory `",
                display.as_str(),
                "`: ",
            );
            text.append(rollback_error_text(error, display.as_str()).as_str());
            text
        },
    }
}

/// Says how the batch ended, once everything has been tried.
fn conclude(
    batch: &FileMutationBatch,
    cause: IoError,
    failures: Vec<RollbackFailure>,
) -> (outcome: FileMutationBatchOutcome)
    requires
        forall|i: int|
            0 <= i < batch.mutations@.len() ==> (#[trigger] batch.mutations@[i]).path().native is Ok,
        forall|i: int|
            0 <= i < failures@.len() ==> is_failure_of(#[trigger] failures@[i], *batch),
    ensures
        outcome@ == rollback_outcome(*batch, cause@, failures@),
{
    if failures.len() == 0 {
        return FileMutationBatchOutcome::RolledBack { error: cause.message };
    }
    let ghost messages = failure_messages(failures@, *batch);
    let mut error: String = cause.message.clone();
    let mut possibly_mutated_paths: Vec<PathUri> = Vec::new();
    let mut index: usize = 0;
    assert(failures@.take(0) =~= Seq::<RollbackFailure>::empty());
    assert(path_views(possibly_mutated_paths@) =~= Seq::<PathView>::empty());
    while index < failures.len()
        invariant
            index <= failures.len(),
            messages == failure_messages(failures@, *batch),
            forall|i: int|
                0 <= i < batch.mutations@.len() ==> (#[trigger] batch.mutations@[i]).path().native is Ok,
            forall|i: int|
                0 <= i < failures@.len() ==> is_failure_of(#[trigger] failures@[i], *batch),
            index == 0 ==> error@ == cause.message@,
            index > 0 ==> error@ == joined(
                cause.message@,
                "; "@,
                separated(messages.take(index as int), "; "@),
            ),
            path_views(possibly_mutated_paths@) == failed_paths(
                failures@.take(index as int),
                *batch,
            ),
        decreases failures.len() - index,
    {
        let ghost before = error@;
        error.append("; ");
        error.append(failure_text(&failures[index], batch).as_str());
        proof {
            let longer = messages.take(index + 1);
            assert(longer.drop_last() =~= messages.take(index as int));
            assert(longer.last() == failure_message(failures@[index as int], *batch));
            assert(error@ =~= joined(cause.message@, "; "@, separated(longer, "; "@)));
            assert(failures@.take(index + 1).drop_last() =~= failures@.take(index as int));
            assert(failures@.take(index + 1).last() == failures@[index as int]);
        }
        let ghost earlier = possibly_mutated_paths@;
        match &failures[index] {
            RollbackFailure::Entry { mutation, .. } => {
                possibly_mutated_paths.push(mutation_path(&batch.mutations[*mutation]).clone());
                assert(path_views(possibly_mutated_paths@) =~= path_views(earlier).push(
                    batch.mutations@[*mutation as int].path()@,
                ));
            },
            RollbackFailure::Directory { .. } => {},
        }
        index = index + 1;
    }
    assert(messages.take(index as int) =~= messages);
    assert(failures@.take(index as int) =~= failures@);
    FileMutationBatchOutcome::Indeterminate { error, possibly_mutated_paths }
}

/// Goes on to what is left to undo. The stage does not matter.
fn go_on(state: Rollback) -> (step: RollbackStep)
    requires
        state@.is_consistent(),
    ensures
        rollback_agrees(step, state.plan.batch, state.cause@, rollback_onward(state@)),
{
    if state.journal.len() > 0 {
        RollbackStep::Pending(
            Rollback {
                stage: RollbackStage::Entry(EntryStage::Checking(SnapshotStage::Metadata)),
                ..state
            },
        )
    } else if state.created.len() > 0 {
        RollbackStep::Pending(
            Rollback { stage: RollbackStage::Directory(DirectoryStage::Probing), ..state },
        )
    } else {
        proof {
            assert forall|i: int| 0 <= i < state.plan.batch.mutations@.len() implies (
            #[trigger] state.plan.batch.mutations@[i]).path().native is Ok by {
                assert(is_fresh_target(state.plan.batch.mutations@, i));
            }
        }
        RollbackStep::Done(conclude(&state.plan.batch, state.cause, state.failures))
    }
}

/// How the undoing starts: with the mutation that failed, where it may have left anything, then
/// with the others, last one first.
pub open spec fn rollback_start(
    batch: FileMutationBatch,
    preimages: Seq<Snapshot>,
    cause: IoErrorView,
    failed_entry: Option<JournalEntry>,
    journal: Seq<JournalEntry>,
    created: Seq<CreatedDirectory>,
) -> RollbackNext {
    rollback_onward(
        RollbackView {
            batch,
            preimages,
            cause,
            journal: match failed_entry {
                Some(entry) => journal.push(entry),
                None => journal,
            },
            created,
            failures: Seq::empty(),
            stage: RollbackStage::Directory(DirectoryStage::Probing),
        },
    )
}

/// Starts to undo a batch because of `cause`.
pub fn rollback(
    plan: Plan,
    cause: IoError,
    failed_entry: Option<JournalEntry>,
    journal: Vec<JournalEntry>,
    created: Vec<CreatedDirectory>,
) -> (step: RollbackStep)
    requires
        plan.is_checked(),
        failed_entry matches Some(entry) ==> entry.mutation < plan.batch.mutations@.len(),
        forall|i: int|
            0 <= i < journal@.len() ==> (#[trigger] journal@[i]).mutation
                < plan.batch.mutations@.len(),
        forall|i: int|
            0 <= i < created@.len() ==> is_directory_of(#[trigger] created@[i], plan.batch),
    ensures
        rollback_agrees(
            step,
            plan.batch,
            cause@,
            rollback_start(
                plan.batch,
                plan.preimages@,
                cause@,
                failed_entry,
                journal@,
                created@,
            ),
        ),
{
    let mut journal = journal;
    match failed_entry {
        Some(entry) => {
            journal.push(entry);
        },
        None => {},
    }
    let state = Rollback {
        plan,
        cause,
        journal,
        created,
        failures: Vec::new(),
        stage: RollbackStage::Directory(DirectoryStage::Probing),
    };
    assert(state.failures@ =~= Seq::<RollbackFailure>::empty());
    go_on(state)
}

impl Rollback {
    /// The request whose reply is awaited.
    pub fn request(&self) -> (request: FsRequest<'_>)
        requires
            self@.is_valid(),
        ensures
            request == self@.request(),
    {
        let follow_symlinks: bool = self.plan.batch.follow_symlinks;
        match self.stage {
            RollbackStage::Entry(stage) => {
                let index: usize = self.journal[self.journal.len() - 1].mutation;
                stage.request(
                    mutation_path(&self.plan.batch.mutations[index]),
                    &self.plan.preimages[index],
                    follow_symlinks,
                )
            },
            RollbackStage::Directory(stage) => {
                let directory = self.created[self.created.len() - 1];
                stage.request(
                    Location {
                        path: mutation_path(&self.plan.batch.mutations[directory.mutation]),
                        levels: directory.levels,
                    },
                    follow_symlinks,
                )
            },
        }
    }

    /// Takes the awaited reply into account.
    pub fn resume(self, reply: FsReply) -> (step: RollbackStep)
        requires
            self@.is_valid(),
            self@.request().is_answered_by(reply),
        ensures
            rollback_agrees(step, self.plan.batch, self.cause@, rollback_next(self@, reply)),
    {
        let mut state = self;
        match state.stage {
            RollbackStage::Entry(stage) => {
                let last: usize = state.journal.len() - 1;
                let index: usize = state.journal[last].mutation;
                let postimage: Snapshot = journaled_postimage(
                    &state.journal[last].postimage,
                    &state.plan.batch.mutations[index],
                );
                match rollback_entry(&state.plan.preimages[index], &postimage, stage, reply) {
                    EntryStep::Continue(stage) => RollbackStep::Pending(
                        Rollback { stage: RollbackStage::Entry(stage), ..state },
                    ),
                    EntryStep::Done(result) => {
                        state.journal.pop();
                        match result {
                            Ok(()) => {},
                            Err(error) => {
                                state.failures.push(
                                    RollbackFailure::Entry { mutation: index, error },
                                );
                            },
                        }
                        go_on(state)
                    },
                }
            },
            RollbackStage::Directory(stage) => {
                let directory = state.created[state.created.len() - 1];
                match rollback_created_directory(directory.metadata, stage, reply) {
                    DirectoryStep::Continue(stage) => RollbackStep::Pending(
                        Rollback { stage: RollbackStage::Directory(stage), ..state },
                    ),
                    DirectoryStep::Done(result) => {
                        state.created.pop();
                        match result {
                            Ok(()) => {},
                            Err(error) => {
                                state.failures.push(
                                    RollbackFailure::Directory { directory, error },
                                );
                            },
                        }
                        go_on(state)
                    },
                }
            },
        }
    }
}

/// The state of the file that a journal entry holds the mutation to have left behind.
fn journaled_postimage(postimage: &Postimage, mutation: &FileMutation) -> (snapshot: Snapshot)
    ensures
        snapshot@ == postimage.image(*mutation),
{
    match postimage {
        Postimage::Intended => intended_postimage(mutation),
        Postimage::Observed(Snapshot::Missing) => Snapshot::Missing,
        Postimage::Observed(Snapshot::Exact(contents)) => Snapshot::Exact(bytes_copy(contents)),
    }
}

} // verus!
