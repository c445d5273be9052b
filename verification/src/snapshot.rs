//! The state of one file, and how it is read.

use vstd::prelude::*;

use crate::error::{ErrorKind, IoError};
use crate::file_system::{FsReply, FsRequest, Location};
use crate::text::bytes_equal;

verus! {

/// What a path held when it was looked at.
#[derive(Debug)]
pub enum Snapshot {
    /// Nothing.
    Missing,
    /// A regular file with exactly these bytes.
    Exact(Vec<u8>),
}

impl View for Snapshot {
    type V = Option<Seq<u8>>;

    open spec fn view(&self) -> Option<Seq<u8>> {
        match self {
            Snapshot::Missing => None,
            Snapshot::Exact(contents) => Some(contents@),
        }
    }
}

impl Snapshot {
    /// Whether both snapshots show the same.
    pub fn same_image(&self, other: &Snapshot) -> (same: bool)
        ensures
            same == (self@ == other@),
    {
        match (self, other) {
            (Snapshot::Missing, Snapshot::Missing) => true,
            (Snapshot::Exact(left), Snapshot::Exact(right)) => bytes_equal(left, right),
            _ => false,
        }
    }
}

/// Why no snapshot could be taken.
#[derive(Debug)]
pub enum SnapshotError {
    /// The filesystem failed.
    Io(IoError),
    /// The path is there and is not a regular file.
    NotRegularFile,
}

/// How far the reading of a snapshot has come: which reply is awaited.
#[derive(Clone, Copy, Debug, PartialEq, Eq, Structural)]
pub enum SnapshotStage {
    Metadata,
    Contents,
}

/// What follows a reply.
#[derive(Debug)]
pub enum SnapshotStep {
    Continue(SnapshotStage),
    Done(Result<Snapshot, SnapshotError>),
}

impl SnapshotStage {
    /// The request whose reply is awaited.
    pub open spec fn request_spec<'a>(self, at: Location<'a>, follow_symlinks: bool) -> FsRequest<
        'a,
    > {
        match self {
            SnapshotStage::Metadata => FsRequest::GetMetadata { at, follow_symlinks },
            SnapshotStage::Contents => FsRequest::ReadFile { at, follow_symlinks },
        }
    }

    /// The request whose reply is awaited.
    pub fn request<'a>(self, at: Location<'a>, follow_symlinks: bool) -> (request: FsRequest<'a>)
        ensures
            request == self.request_spec(at, follow_symlinks),
    {
        match self {
            SnapshotStage::Metadata => FsRequest::GetMetadata { at, follow_symlinks },
            SnapshotStage::Contents => FsRequest::ReadFile { at, follow_symlinks },
        }
    }

    /// Whether `reply` is of the awaited kind.
    pub open spec fn accepts(self, reply: FsReply) -> bool {
        match self {
            SnapshotStage::Metadata => reply is Metadata,
            SnapshotStage::Contents => reply is Contents,
        }
    }
}

/// What follows `reply`: a path that is not found has no file, one that is no regular file is an
/// error, and the contents are read of any other.
pub open spec fn snapshot_next(stage: SnapshotStage, reply: FsReply) -> SnapshotStep {
    match reply {
        FsReply::Metadata(Ok(metadata)) => if metadata.is_file {
            SnapshotStep::Continue(SnapshotStage::Contents)
        } else {
            SnapshotStep::Done(Err(SnapshotError::NotRegularFile))
        },
        FsReply::Metadata(Err(error)) => if error.kind == ErrorKind::NotFound {
            SnapshotStep::Done(Ok(Snapshot::Missing))
        } else {
            SnapshotStep::Done(Err(SnapshotError::Io(error)))
        },
        FsReply::Contents(Ok(contents)) => SnapshotStep::Done(Ok(Snapshot::Exact(contents))),
        FsReply::Contents(Err(error)) => SnapshotStep::Done(Err(SnapshotError::Io(error))),
        FsReply::Done(_) => SnapshotStep::Continue(stage),
    }
}

/// Takes the awaited reply into account.
pub fn snapshot(stage: SnapshotStage, reply: FsReply) -> (step: SnapshotStep)
    requires
        stage.accepts(reply),
    ensures
        step == snapshot_next(stage, reply),
{
    match reply {
        FsReply::Metadata(Ok(metadata)) => {
            if metadata.is_file {
                SnapshotStep::Continue(SnapshotStage::Contents)
            } else {
                SnapshotStep::Done(Err(SnapshotError::NotRegularFile))
            }
        },
        FsReply::Metadata(Err(error)) => {
            if error.kind == ErrorKind::NotFound {
                SnapshotStep::Done(Ok(Snapshot::Missing))
            } else {
                SnapshotStep::Done(Err(SnapshotError::Io(error)))
            }
        },
        FsReply::Contents(Ok(contents)) => SnapshotStep::Done(Ok(Snapshot::Exact(contents))),
        FsReply::Contents(Err(error)) => SnapshotStep::Done(Err(SnapshotError::Io(error))),
        FsReply::Done(_) => SnapshotStep::Continue(stage),
    }
}

} // verus!
