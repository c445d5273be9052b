//! The directories above a file that is about to be written.

use vstd::prelude::*;

use crate::error::{ErrorKind, IoError, IoErrorView};
use crate::file_system::{FileMetadata, FsReply, FsRequest, Location};
use crate::path::{NativePath, NativeView, PathUri};
use crate::text::{join, joined};

verus! {

/// How far the preparation of the parent directories has come: which reply is awaited. `levels`
/// counts directories upwards from the file; one is the file's own directory.
#[derive(Debug)]
pub enum ParentStage {
    /// Looks for the nearest directory that is there. Those below `levels` are missing.
    Probing { levels: usize },
    /// Makes a missing directory. Those above it are there.
    Creating { levels: usize },
    /// Looks at a directory that was just made.
    Confirming { levels: usize },
    /// Looks at what was there in place of a directory that could not be made for `error`.
    Existing { levels: usize, error: IoError },
}

/// Why the parent directories could not be prepared.
#[derive(Debug)]
pub enum ParentError {
    /// The filesystem failed.
    Io(IoError),
    /// What is there is no directory.
    NotADirectory { levels: usize },
    /// What was made is no directory, or a link.
    Unstable { levels: usize },
}

/// What follows a reply, or the start.
#[derive(Debug)]
pub enum ParentStep {
    Continue(ParentStage),
    /// A directory was made that was not there before; `next` is awaited, where anything is.
    Created { levels: usize, metadata: FileMetadata, next: Option<ParentStage> },
    /// The directories are there.
    Ready,
    Failed(ParentError),
}

impl ParentStage {
    /// The directory that the awaited reply speaks of.
    pub open spec fn levels(self) -> usize {
        match self {
            ParentStage::Probing { levels } => levels,
            ParentStage::Creating { levels } => levels,
            ParentStage::Confirming { levels } => levels,
            ParentStage::Existing { levels, .. } => levels,
        }
    }

    /// Whether the stage speaks of a directory that a path with `parent_count` directories above it
    /// has.
    pub open spec fn is_valid(self, parent_count: nat) -> bool {
        1 <= self.levels() <= parent_count
    }

    /// The request whose reply is awaited.
    pub open spec fn request_spec<'a>(self, path: &'a PathUri, follow_symlinks: bool) -> FsRequest<
        'a,
    > {
        let at = Location { path, levels: self.levels() };
        if self is Creating {
            FsRequest::CreateDirectory { at, recursive: false, follow_symlinks }
        } else {
            FsRequest::GetMetadata { at, follow_symlinks }
        }
    }

    /// The request whose reply is awaited.
    pub fn request<'a>(&self, path: &'a PathUri, follow_symlinks: bool) -> (request: FsRequest<'a>)
        ensures
            request == self.request_spec(path, follow_symlinks),
    {
        match self {
            ParentStage::Creating { levels } => FsRequest::CreateDirectory {
                at: Location { path, levels: *levels },
                recursive: false,
                follow_symlinks,
            },
            ParentStage::Probing { levels } => FsRequest::GetMetadata {
                at: Location { path, levels: *levels },
                follow_symlinks,
            },
            ParentStage::Confirming { levels } => FsRequest::GetMetadata {
                at: Location { path, levels: *levels },
                follow_symlinks,
            },
            ParentStage::Existing { levels, .. } => FsRequest::GetMetadata {
                at: Location { path, levels: *levels },
                follow_symlinks,
            },
        }
    }

    /// Whether `reply` is of the awaited kind.
    pub open spec fn accepts(self, reply: FsReply) -> bool {
        if self is Creating { reply is Done } else { reply is Metadata }
    }
}

/// What follows once the directory at `levels` is there: the next one below it is made, until the
/// file's own directory is there.
pub open spec fn below(levels: usize) -> Option<ParentStage> {
    if levels <= 1 {
        None
    } else {
        Some(ParentStage::Creating { levels: (levels - 1) as usize })
    }
}

/// The step that awaits `stage`, or is ready.
pub open spec fn step_to(stage: Option<ParentStage>) -> ParentStep {
    match stage {
        Some(stage) => ParentStep::Continue(stage),
        None => ParentStep::Ready,
    }
}

/// How the preparation starts for a path with `parent_count` directories above it.
pub open spec fn parents_start(parent_count: nat) -> ParentStep {
    if parent_count == 0 {
        ParentStep::Ready
    } else {
        ParentStep::Continue(ParentStage::Probing { levels: 1 })
    }
}

/// What follows `reply`.
pub open spec fn parents_next(parent_count: nat, stage: ParentStage, reply: FsReply) -> ParentStep {
    match (stage, reply) {
        // The nearest directory that is there.
        (ParentStage::Probing { levels }, FsReply::Metadata(Ok(metadata))) => {
            if metadata.is_directory {
                step_to(below(levels))
            } else {
                ParentStep::Failed(ParentError::NotADirectory { levels })
            }
        },
        // A missing directory: the search goes up, and making starts at the root at the latest.
        (ParentStage::Probing { levels }, FsReply::Metadata(Err(error))) => {
            if error.kind != ErrorKind::NotFound {
                ParentStep::Failed(ParentError::Io(error))
            } else if levels < parent_count {
                ParentStep::Continue(ParentStage::Probing { levels: (levels + 1) as usize })
            } else {
                ParentStep::Continue(ParentStage::Creating { levels })
            }
        },
        (ParentStage::Creating { levels }, FsReply::Done(Ok(_))) => ParentStep::Continue(
            ParentStage::Confirming { levels },
        ),
        (ParentStage::Creating { levels }, FsReply::Done(Err(error))) => {
            if error.kind == ErrorKind::AlreadyExists {
                ParentStep::Continue(ParentStage::Existing { levels, error })
            } else {
                ParentStep::Failed(ParentError::Io(error))
            }
        },
        (ParentStage::Confirming { levels }, FsReply::Metadata(Ok(metadata))) => {
            if metadata.is_directory && !metadata.is_symlink {
                ParentStep::Created { levels, metadata, next: below(levels) }
            } else {
                ParentStep::Failed(ParentError::Unstable { levels })
            }
        },
        (ParentStage::Existing { levels, error }, FsReply::Metadata(Ok(metadata))) => {
            if metadata.is_directory {
                step_to(below(levels))
            } else {
                ParentStep::Failed(ParentError::Io(error))
            }
        },
        (_, FsReply::Metadata(Err(error))) => ParentStep::Failed(ParentError::Io(error)),
        _ => ParentStep::Continue(stage),
    }
}

/// The error that the preparation for `path` failed with.
pub open spec fn parent_failure(error: ParentError, path: NativeView) -> IoErrorView {
    match error {
        ParentError::Io(error) => error@,
        ParentError::NotADirectory { levels } => IoErrorView {
            kind: ErrorKind::InvalidInput,
            message: joined("parent `"@, path.text(levels as nat), "` is not a directory"@),
        },
        ParentError::Unstable { levels } => IoErrorView {
            kind: ErrorKind::Other,
            message: joined(
                "created parent `"@,
                path.text(levels as nat),
                "` is not a stable directory"@,
            ),
        },
    }
}

/// Whether the error speaks of a directory that a path with `parent_count` directories above it has.
pub open spec fn is_parent_error(error: ParentError, parent_count: nat) -> bool {
    match error {
        ParentError::Io(_) => true,
        ParentError::NotADirectory { levels } => levels <= parent_count,
        ParentError::Unstable { levels } => levels <= parent_count,
    }
}

/// The error that the preparation for `path` failed with.
pub fn parent_error(error: ParentError, path: &NativePath) -> (failure: IoError)
    requires
        is_parent_error(error, path@.place.names.len()),
    ensures
        failure@ == parent_failure(error, path@),
{
    match error {
        ParentError::Io(error) => error,
        ParentError::NotADirectory { levels } => {
            let place: String = path.text(levels);
            IoError::new(
                ErrorKind::InvalidInput,
                join("parent `", place.as_str(), "` is not a directory").as_str(),
            )
        },
        ParentError::Unstable { levels } => {
            let place: String = path.text(levels);
            IoError::other(
                join("created parent `", place.as_str(), "` is not a stable directory").as_str(),
            )
        },
    }
}

fn stage_below(levels: usize) -> (stage: Option<ParentStage>)
    ensures
        stage == below(levels),
{
    if levels <= 1 {
        None
    } else {
        Some(ParentStage::Creating { levels: levels - 1 })
    }
}

fn proceed_to(stage: Option<ParentStage>) -> (step: ParentStep)
    ensures
        step == step_to(stage),
{
    match stage {
        Some(stage) => ParentStep::Continue(stage),
        None => ParentStep::Ready,
    }
}

/// Starts the preparation of the directories above a path.
pub fn start_parent_directories(parent_count: usize) -> (step: ParentStep)
    ensures
        step == parents_start(parent_count as nat),
{
    if parent_count == 0 {
        ParentStep::Ready
    } else {
        ParentStep::Continue(ParentStage::Probing { levels: 1 })
    }
}

/// Takes the awaited reply into account. The directories above a path are looked for upwards until
/// one is there, and the missing ones are made downwards from it.
pub fn ensure_parent_directories(
    parent_count: usize,
    stage: ParentStage,
    reply: FsReply,
) -> (step: ParentStep)
    requires
        stage.is_valid(parent_count as nat),
        stage.accepts(reply),
    ensures
        step == parents_next(parent_count as nat, stage, reply),
{
    match (stage, reply) {
        (ParentStage::Probing { levels }, FsReply::Metadata(Ok(metadata))) => {
            if metadata.is_directory {
                proceed_to(stage_below(levels))
            } else {
                ParentStep::Failed(ParentError::NotADirectory { levels })
            }
        },
        (ParentStage::Probing { levels }, FsReply::Metadata(Err(error))) => {
            if error.kind != ErrorKind::NotFound {
                ParentStep::Failed(ParentError::Io(error))
            } else if levels < parent_count {
                ParentStep::Continue(ParentStage::Probing { levels: levels + 1 })
            } else {
                ParentStep::Continue(ParentStage::Creating { levels })
            }
        },
        (ParentStage::Creating { levels }, FsReply::Done(Ok(_))) => ParentStep::Continue(
            ParentStage::Confirming { levels },
        ),
        (ParentStage::Creating { levels }, FsReply::Done(Err(error))) => {
            if error.kind == ErrorKind::AlreadyExists {
                ParentStep::Continue(ParentStage::Existing { levels, error })
            } else {
                ParentStep::Failed(ParentError::Io(error))
            }
        },
        (ParentStage::Confirming { levels }, FsReply::Metadata(Ok(metadata))) => {
            if metadata.is_directory && !metadata.is_symlink {
                ParentStep::Created { levels, metadata, next: stage_below(levels) }
            } else {
                ParentStep::Failed(ParentError::Unstable { levels })
            }
        },
        (ParentStage::Existing { levels, error }, FsReply::Metadata(Ok(metadata))) => {
            if metadata.is_directory {
                proceed_to(stage_below(levels))
            } else {
                ParentStep::Failed(ParentError::Io(error))
            }
        },
        (_, FsReply::Metadata(Err(error))) => ParentStep::Failed(ParentError::Io(error)),
        (stage, _) => ParentStep::Continue(stage),
    }
}

} // verus!
