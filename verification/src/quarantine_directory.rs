//! Quarantine of directories: one that was made for a batch is moved aside before it is removed, and
//! goes only if it is still the same directory.

use vstd::prelude::*;

use crate::error::{ErrorKind, IoError, IoErrorView};
use crate::path::{NativePath, NativeView};
use crate::quarantine::{
    done_next, is_private, move_follows, plain_failure, quarantine_path, start_quarantine,
    FileIdentity, MoveStage, QuarantineNext, QuarantineReply, QuarantineRequest, QuarantineStep,
};
use crate::text::{join, joined};

verus! {

/// What a path is, without following links.
#[derive(Clone, Copy, Debug, PartialEq, Eq, Structural)]
pub struct EntryType {
    pub is_directory: bool,
    pub is_symlink: bool,
}

/// What is known of a directory's identity.
#[derive(Debug)]
pub enum IdentityStep {
    /// It is a directory, whose identity is to be asked for.
    Identify,
    /// There is none, or it cannot be told.
    Done(Result<Option<FileIdentity>, IoError>),
}

/// What is known of the identity of the directory at `path`, once it has been looked at.
pub fn directory_identity(path: &NativePath, found: Result<EntryType, IoError>) -> (step:
    IdentityStep)
    ensures
        match found {
            Ok(entry) => if entry.is_directory && !entry.is_symlink {
                step is Identify
            } else {
                &&& step is Done
                &&& step->Done_0 is Err
                &&& step->Done_0->Err_0@ == (IoErrorView {
                    kind: ErrorKind::InvalidInput,
                    message: joined("path `"@, path@.text(0), "` is not a directory"@),
                })
            },
            Err(error) => {
                &&& step is Done
                &&& if error.kind == ErrorKind::NotFound {
                    step->Done_0 is Ok && step->Done_0->Ok_0 is None
                } else {
                    step->Done_0 is Err && step->Done_0->Err_0 == error
                }
            },
        },
{
    match found {
        Ok(entry) => {
            if entry.is_directory && !entry.is_symlink {
                IdentityStep::Identify
            } else {
                let text = path.text(0);
                IdentityStep::Done(
                    Err(
                        IoError {
                            kind: ErrorKind::InvalidInput,
                            message: join("path `", text.as_str(), "` is not a directory"),
                        },
                    ),
                )
            }
        },
        Err(error) => {
            if error.kind == ErrorKind::NotFound {
                IdentityStep::Done(Ok(None))
            } else {
                IdentityStep::Done(Err(error))
            }
        },
    }
}

/// How far a directory's return has come: which reply is awaited.
#[derive(Clone, Copy, Debug, PartialEq, Eq, Structural)]
pub enum DirectoryRestoreStage {
    CheckingQuarantine,
    CheckingPath,
    Renaming,
    VerifyingPath,
    VerifyingQuarantine,
}

impl DirectoryRestoreStage {
    /// The request whose reply is awaited.
    pub open spec fn request_spec<'a>(
        self,
        path: &'a NativePath,
        quarantine_path: &'a NativePath,
    ) -> QuarantineRequest<'a> {
        match self {
            DirectoryRestoreStage::CheckingQuarantine
            | DirectoryRestoreStage::VerifyingQuarantine => QuarantineRequest::Identify {
                path: quarantine_path,
            },
            DirectoryRestoreStage::CheckingPath | DirectoryRestoreStage::VerifyingPath =>
                QuarantineRequest::Identify { path },
            DirectoryRestoreStage::Renaming => QuarantineRequest::RenameNoReplace {
                from: quarantine_path,
                to: path,
            },
        }
    }

    /// The request whose reply is awaited.
    pub fn request<'a>(
        self,
        path: &'a NativePath,
        quarantine_path: &'a NativePath,
    ) -> (request: QuarantineRequest<'a>)
        ensures
            request == self.request_spec(path, quarantine_path),
            forall|reply: QuarantineReply| #[trigger]
                self.accepts(reply) == request.is_answered_by(reply),
    {
        match self {
            DirectoryRestoreStage::CheckingQuarantine
            | DirectoryRestoreStage::VerifyingQuarantine => QuarantineRequest::Identify {
                path: quarantine_path,
            },
            DirectoryRestoreStage::CheckingPath | DirectoryRestoreStage::VerifyingPath =>
                QuarantineRequest::Identify { path },
            DirectoryRestoreStage::Renaming => QuarantineRequest::RenameNoReplace {
                from: quarantine_path,
                to: path,
            },
        }
    }

    /// Whether `reply` is of the awaited kind.
    pub open spec fn accepts(self, reply: QuarantineReply) -> bool {
        if self is Renaming {
            reply is Done
        } else {
            reply is Identity
        }
    }
}

/// What follows where `identity` has to be told.
pub open spec fn identified_next<S, T>(
    reply: QuarantineReply,
    identity: Option<FileIdentity>,
    next: QuarantineNext<S, T>,
    otherwise: Seq<char>,
) -> QuarantineNext<S, T> {
    match reply->Identity_0 {
        Ok(found) => if found == identity {
            next
        } else {
            QuarantineNext::Failed(plain_failure(otherwise))
        },
        Err(error) => QuarantineNext::Failed(error@),
    }
}

/// What follows `reply` in putting back the directory `expected`.
pub open spec fn directory_restore_next(
    expected: FileIdentity,
    stage: DirectoryRestoreStage,
    reply: QuarantineReply,
) -> QuarantineNext<DirectoryRestoreStage, ()> {
    match stage {
        DirectoryRestoreStage::CheckingQuarantine => identified_next(
            reply,
            Some(expected),
            QuarantineNext::Continue(DirectoryRestoreStage::CheckingPath),
            "quarantined directory changed before restore"@,
        ),
        DirectoryRestoreStage::CheckingPath => identified_next(
            reply,
            None,
            QuarantineNext::Continue(DirectoryRestoreStage::Renaming),
            "quarantined directory changed before restore"@,
        ),
        DirectoryRestoreStage::Renaming => done_next(reply, DirectoryRestoreStage::VerifyingPath),
        DirectoryRestoreStage::VerifyingPath => identified_next(
            reply,
            Some(expected),
            QuarantineNext::Continue(DirectoryRestoreStage::VerifyingQuarantine),
            "directory changed during quarantine restore"@,
        ),
        DirectoryRestoreStage::VerifyingQuarantine => identified_next(
            reply,
            None,
            QuarantineNext::Done(()),
            "directory changed during quarantine restore"@,
        ),
    }
}

fn same_identity(one: Option<FileIdentity>, other: Option<FileIdentity>) -> (same: bool)
    ensures
        same == (one == other),
{
    match (one, other) {
        (Some(one), Some(other)) => one == other,
        (None, None) => true,
        _ => false,
    }
}

/// Why `identity` was not told, if it was not.
fn misidentified(
    reply: QuarantineReply,
    identity: Option<FileIdentity>,
    otherwise: &str,
) -> (error: Option<IoError>)
    requires
        reply is Identity,
    ensures
        match reply->Identity_0 {
            Ok(found) => if found == identity {
                error is None
            } else {
                error is Some && error->0@ == plain_failure(otherwise@)
            },
            Err(failure) => error is Some && error->0 == failure,
        },
{
    match reply {
        QuarantineReply::Identity(Ok(found)) => {
            if same_identity(found, identity) {
                None
            } else {
                Some(IoError::other(otherwise))
            }
        },
        QuarantineReply::Identity(Err(error)) => Some(error),
        _ => None,
    }
}

/// Takes the awaited reply into account in putting a directory back. The first stage is
/// [`DirectoryRestoreStage::CheckingQuarantine`].
pub fn restore_quarantined_directory(
    expected: FileIdentity,
    stage: DirectoryRestoreStage,
    reply: QuarantineReply,
) -> (step: QuarantineStep<DirectoryRestoreStage, ()>)
    requires
        stage.accepts(reply),
    ensures
        step.agrees(directory_restore_next(expected, stage, reply)),
{
    match stage {
        DirectoryRestoreStage::CheckingQuarantine => match misidentified(
            reply,
            Some(expected),
            "quarantined directory changed before restore",
        ) {
            None => QuarantineStep::Continue(DirectoryRestoreStage::CheckingPath),
            Some(error) => QuarantineStep::Done(Err(error)),
        },
        DirectoryRestoreStage::CheckingPath => match misidentified(
            reply,
            None,
            "quarantined directory changed before restore",
        ) {
            None => QuarantineStep::Continue(DirectoryRestoreStage::Renaming),
            Some(error) => QuarantineStep::Done(Err(error)),
        },
        DirectoryRestoreStage::Renaming => match reply {
            QuarantineReply::Done(Err(error)) => QuarantineStep::Done(Err(error)),
            _ => QuarantineStep::Continue(DirectoryRestoreStage::VerifyingPath),
        },
        DirectoryRestoreStage::VerifyingPath => match misidentified(
            reply,
            Some(expected),
            "directory changed during quarantine restore",
        ) {
            None => QuarantineStep::Continue(DirectoryRestoreStage::VerifyingQuarantine),
            Some(error) => QuarantineStep::Done(Err(error)),
        },
        DirectoryRestoreStage::VerifyingQuarantine => match misidentified(
            reply,
            None,
            "directory changed during quarantine restore",
        ) {
            None => QuarantineStep::Done(Ok(())),
            Some(error) => QuarantineStep::Done(Err(error)),
        },
    }
}

/// How far the removal of a directory has come: which reply is awaited.
#[derive(Debug)]
pub enum RemovalStage {
    Checking,
    BeforeRename,
    /// The directory is moved aside.
    Quarantining(MoveStage),
    /// What was moved aside is looked at.
    Identifying(NativePath),
    /// Another directory was moved aside; its place is looked at.
    LookingBack { quarantine_path: NativePath, moved: FileIdentity },
    /// Its place is free, and it is put back.
    PuttingBack {
        quarantine_path: NativePath,
        moved: FileIdentity,
        stage: DirectoryRestoreStage,
    },
    Removing(NativePath),
    Verifying,
}

impl RemovalStage {
    /// Whether this is a stage in removing `path`.
    pub open spec fn is_valid(self, path: NativeView) -> bool {
        match self {
            RemovalStage::Quarantining(stage) => stage.is_valid(path),
            RemovalStage::Identifying(quarantine_path) => is_private(quarantine_path@, path),
            RemovalStage::LookingBack { quarantine_path, .. } => is_private(
                quarantine_path@,
                path,
            ),
            RemovalStage::PuttingBack { quarantine_path, .. } => is_private(
                quarantine_path@,
                path,
            ),
            RemovalStage::Removing(quarantine_path) => is_private(quarantine_path@, path),
            _ => true,
        }
    }

    /// The request whose reply is awaited.
    pub open spec fn request_spec<'a>(&'a self, path: &'a NativePath) -> QuarantineRequest<'a> {
        match self {
            RemovalStage::Checking
            | RemovalStage::Verifying
            | RemovalStage::LookingBack { .. } => QuarantineRequest::Identify { path },
            RemovalStage::BeforeRename => QuarantineRequest::BeforeRename,
            RemovalStage::Quarantining(stage) => stage.request_spec(path),
            RemovalStage::Identifying(quarantine_path) => QuarantineRequest::Identify {
                path: quarantine_path,
            },
            RemovalStage::PuttingBack { quarantine_path, stage, .. } => stage.request_spec(
                path,
                quarantine_path,
            ),
            RemovalStage::Removing(quarantine_path) => QuarantineRequest::RemoveDirectory {
                path: quarantine_path,
            },
        }
    }

    /// The request whose reply is awaited.
    pub fn request<'a>(&'a self, path: &'a NativePath) -> (request: QuarantineRequest<'a>)
        ensures
            request == self.request_spec(path),
            forall|reply: QuarantineReply| #[trigger]
                self.accepts(reply) == request.is_answered_by(reply),
    {
        match self {
            RemovalStage::Checking
            | RemovalStage::Verifying
            | RemovalStage::LookingBack { .. } => QuarantineRequest::Identify { path },
            RemovalStage::BeforeRename => QuarantineRequest::BeforeRename,
            RemovalStage::Quarantining(stage) => stage.request(path),
            RemovalStage::Identifying(quarantine_path) => QuarantineRequest::Identify {
                path: quarantine_path,
            },
            RemovalStage::PuttingBack { quarantine_path, stage, .. } => stage.request(
                path,
                quarantine_path,
            ),
            RemovalStage::Removing(quarantine_path) => QuarantineRequest::RemoveDirectory {
                path: quarantine_path,
            },
        }
    }

    /// Whether `reply` is of the awaited kind.
    pub open spec fn accepts(self, reply: QuarantineReply) -> bool {
        match self {
            RemovalStage::Checking
            | RemovalStage::Verifying
            | RemovalStage::LookingBack { .. }
            | RemovalStage::Identifying(_) => reply is Identity,
            RemovalStage::PuttingBack { stage, .. } => stage.accepts(reply),
            _ => reply is Done,
        }
    }
}

/// The failure where another directory was moved aside.
pub open spec fn changed_failure() -> IoErrorView {
    plain_failure("created directory identity changed during rollback"@)
}

/// Whether `step` follows the caller's word that the directory at `path` may be moved aside.
pub open spec fn removal_started(
    step: QuarantineStep<RemovalStage, ()>,
    path: NativeView,
) -> bool {
    if path.place.names.len() == 0 {
        step.agrees(
            QuarantineNext::Failed(
                IoErrorView {
                    kind: ErrorKind::InvalidInput,
                    message: "path has no parent directory"@,
                },
            ),
        )
    } else {
        &&& step matches QuarantineStep::Continue(
            RemovalStage::Quarantining(MoveStage::Searching(search)),
        )
        &&& search.attempt == 1
        &&& search.is_valid(path)
    }
}

/// Whether `step` follows `moved` in moving the directory aside.
pub open spec fn removal_moved(
    step: QuarantineStep<RemovalStage, ()>,
    moved: QuarantineStep<MoveStage, NativePath>,
) -> bool {
    match moved {
        QuarantineStep::Continue(stage) => step.agrees(
            QuarantineNext::Continue(RemovalStage::Quarantining(stage)),
        ),
        QuarantineStep::Done(Ok(quarantine_path)) => step.agrees(
            QuarantineNext::Continue(RemovalStage::Identifying(quarantine_path)),
        ),
        QuarantineStep::Done(Err(error)) => step.agrees(QuarantineNext::Failed(error@)),
    }
}

/// Whether `step` follows `reply` in removing the directory `expected` at `path`. Only that directory
/// goes; another one that was moved aside is put back where its place is free.
pub open spec fn removal_follows(
    step: QuarantineStep<RemovalStage, ()>,
    path: NativeView,
    expected: FileIdentity,
    stage: RemovalStage,
    reply: QuarantineReply,
) -> bool {
    match stage {
        RemovalStage::Checking => step.agrees(
            identified_next(
                reply,
                Some(expected),
                QuarantineNext::Continue(RemovalStage::BeforeRename),
                "created directory identity changed before rollback"@,
            ),
        ),
        RemovalStage::BeforeRename => match reply->Done_0 {
            Ok(_) => removal_started(step, path),
            Err(error) => step.agrees(QuarantineNext::Failed(error@)),
        },
        RemovalStage::Quarantining(stage) => exists|
            moved: QuarantineStep<MoveStage, NativePath>,
        | #[trigger]
            move_follows(moved, path, stage, reply->Done_0) && removal_moved(step, moved),
        RemovalStage::Identifying(quarantine_path) => match reply->Identity_0 {
            Ok(Some(moved)) => step.agrees(
                QuarantineNext::Continue(
                    if moved == expected {
                        RemovalStage::Removing(quarantine_path)
                    } else {
                        RemovalStage::LookingBack { quarantine_path, moved }
                    },
                ),
            ),
            _ => step.agrees(QuarantineNext::Failed(changed_failure())),
        },
        RemovalStage::LookingBack { quarantine_path, moved } => match reply->Identity_0 {
            Ok(None) => step.agrees(
                QuarantineNext::Continue(
                    RemovalStage::PuttingBack {
                        quarantine_path,
                        moved,
                        stage: DirectoryRestoreStage::CheckingQuarantine,
                    },
                ),
            ),
            Ok(Some(_)) => step.agrees(QuarantineNext::Failed(changed_failure())),
            Err(error) => step.agrees(QuarantineNext::Failed(error@)),
        },
        RemovalStage::PuttingBack { quarantine_path, moved, stage } => step.agrees(
            match directory_restore_next(moved, stage, reply) {
                QuarantineNext::Continue(stage) => QuarantineNext::Continue(
                    RemovalStage::PuttingBack { quarantine_path, moved, stage },
                ),
                _ => QuarantineNext::Failed(changed_failure()),
            },
        ),
        RemovalStage::Removing(_) => step.agrees(done_next(reply, RemovalStage::Verifying)),
        RemovalStage::Verifying => step.agrees(
            identified_next(
                reply,
                None,
                QuarantineNext::Done(()),
                "created directory path changed during rollback"@,
            ),
        ),
    }
}

/// The directory that is to be removed, where its identity is known. The first stage is
/// [`RemovalStage::Checking`].
pub fn start_removal(identity: Option<FileIdentity>) -> (expected: Result<FileIdentity, IoError>)
    ensures
        expected is Ok <==> identity is Some,
        expected matches Ok(expected) ==> identity == Some(expected),
        expected matches Err(error) ==> error@ == plain_failure(
            "created directory identity is unavailable during rollback"@,
        ),
{
    match identity {
        Some(identity) => Ok(identity),
        None => Err(
            IoError::other("created directory identity is unavailable during rollback"),
        ),
    }
}

fn changed_during_rollback() -> (step: QuarantineStep<RemovalStage, ()>)
    ensures
        step.agrees(QuarantineNext::Failed(changed_failure())),
{
    QuarantineStep::Done(
        Err(IoError::other("created directory identity changed during rollback")),
    )
}

/// Takes the awaited reply into account in removing the directory `expected` at `path`.
pub fn remove_created_directory(
    path: &NativePath,
    expected: FileIdentity,
    stage: RemovalStage,
    reply: QuarantineReply,
) -> (step: QuarantineStep<RemovalStage, ()>)
    requires
        stage.is_valid(path@),
        stage.accepts(reply),
    ensures
        removal_follows(step, path@, expected, stage, reply),
        step matches QuarantineStep::Continue(stage) ==> stage.is_valid(path@),
{
    match stage {
        RemovalStage::Checking => match misidentified(
            reply,
            Some(expected),
            "created directory identity changed before rollback",
        ) {
            None => QuarantineStep::Continue(RemovalStage::BeforeRename),
            Some(error) => QuarantineStep::Done(Err(error)),
        },
        RemovalStage::BeforeRename => match reply {
            QuarantineReply::Done(Err(error)) => QuarantineStep::Done(Err(error)),
            _ => match start_quarantine(path) {
                Ok(stage) => QuarantineStep::Continue(RemovalStage::Quarantining(stage)),
                Err(error) => QuarantineStep::Done(Err(error)),
            },
        },
        RemovalStage::Quarantining(stage) => match reply {
            QuarantineReply::Done(done) => {
                let moved = quarantine_path(path, stage, done);
                assert(move_follows(moved, path@, stage, done));
                match moved {
                    QuarantineStep::Continue(stage) => QuarantineStep::Continue(
                        RemovalStage::Quarantining(stage),
                    ),
                    QuarantineStep::Done(Ok(aside)) => QuarantineStep::Continue(
                        RemovalStage::Identifying(aside),
                    ),
                    QuarantineStep::Done(Err(error)) => QuarantineStep::Done(Err(error)),
                }
            },
            _ => QuarantineStep::Continue(RemovalStage::Quarantining(stage)),
        },
        RemovalStage::Identifying(quarantine_path) => match reply {
            QuarantineReply::Identity(Ok(Some(moved))) => {
                if moved == expected {
                    QuarantineStep::Continue(RemovalStage::Removing(quarantine_path))
                } else {
                    QuarantineStep::Continue(RemovalStage::LookingBack { quarantine_path, moved })
                }
            },
            _ => changed_during_rollback(),
        },
        RemovalStage::LookingBack { quarantine_path, moved } => match reply {
            QuarantineReply::Identity(Ok(None)) => QuarantineStep::Continue(
                RemovalStage::PuttingBack {
                    quarantine_path,
                    moved,
                    stage: DirectoryRestoreStage::CheckingQuarantine,
                },
            ),
            QuarantineReply::Identity(Err(error)) => QuarantineStep::Done(Err(error)),
            _ => changed_during_rollback(),
        },
        RemovalStage::PuttingBack { quarantine_path, moved, stage } =>
            match restore_quarantined_directory(moved, stage, reply) {
            QuarantineStep::Continue(stage) => QuarantineStep::Continue(
                RemovalStage::PuttingBack { quarantine_path, moved, stage },
            ),
            QuarantineStep::Done(_) => changed_during_rollback(),
        },
        RemovalStage::Removing(_) => match reply {
            QuarantineReply::Done(Err(error)) => QuarantineStep::Done(Err(error)),
            _ => QuarantineStep::Continue(RemovalStage::Verifying),
        },
        RemovalStage::Verifying => match misidentified(
            reply,
            None,
            "created directory path changed during rollback",
        ) {
            None => QuarantineStep::Done(Ok(())),
            Some(error) => QuarantineStep::Done(Err(error)),
        },
    }
}

} // verus!
