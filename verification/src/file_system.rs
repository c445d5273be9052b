//! What a batch asks of a filesystem, and what the filesystem replies.

use vstd::prelude::*;

use crate::error::IoError;
use crate::path::{PathUri, Place};

verus! {

/// What a filesystem reports of a path.
#[derive(Clone, Copy, Debug, PartialEq, Eq, Structural)]
pub struct FileMetadata {
    pub is_directory: bool,
    pub is_file: bool,
    pub is_symlink: bool,
    pub size: u64,
    pub created_at_ms: i64,
    pub modified_at_ms: i64,
}

/// A path, or one of the directories above it.
#[derive(Clone, Copy, Debug)]
pub struct Location<'a> {
    pub path: &'a PathUri,
    /// How many directories above the path; zero is the path itself.
    pub levels: usize,
}

impl<'a> Location<'a> {
    /// Whether the location exists on this host: the path has a native form with that many
    /// directories above it.
    pub open spec fn is_native(self) -> bool {
        self.path.native is Ok && self.levels <= self.path.place().names.len()
    }

    /// The place in the file tree.
    pub open spec fn place(self) -> Place {
        self.path.place().up(self.levels as nat)
    }
}

/// One request to the filesystem. The caller carries it out and hands back the reply.
#[derive(Clone, Copy, Debug)]
pub enum FsRequest<'a> {
    GetMetadata { at: Location<'a>, follow_symlinks: bool },
    ReadFile { at: Location<'a>, follow_symlinks: bool },
    WriteFile { at: Location<'a>, contents: &'a Vec<u8>, follow_symlinks: bool },
    Remove { at: Location<'a>, recursive: bool, force: bool, follow_symlinks: bool },
    CreateDirectory { at: Location<'a>, recursive: bool, follow_symlinks: bool },
}

/// What the filesystem replies to a request.
#[derive(Debug)]
pub enum FsReply {
    /// The reply to [`FsRequest::GetMetadata`].
    Metadata(Result<FileMetadata, IoError>),
    /// The reply to [`FsRequest::ReadFile`].
    Contents(Result<Vec<u8>, IoError>),
    /// The reply to every other request.
    Done(Result<(), IoError>),
}

impl<'a> FsRequest<'a> {
    /// Whether `reply` is the kind of reply that the request gets.
    pub open spec fn is_answered_by(self, reply: FsReply) -> bool {
        match self {
            FsRequest::GetMetadata { .. } => reply is Metadata,
            FsRequest::ReadFile { .. } => reply is Contents,
            _ => reply is Done,
        }
    }

    /// Where the request goes.
    pub open spec fn location(self) -> Location<'a> {
        match self {
            FsRequest::GetMetadata { at, .. } => at,
            FsRequest::ReadFile { at, .. } => at,
            FsRequest::WriteFile { at, .. } => at,
            FsRequest::Remove { at, .. } => at,
            FsRequest::CreateDirectory { at, .. } => at,
        }
    }

    /// Whether the request only looks.
    pub open spec fn is_read(self) -> bool {
        self is GetMetadata || self is ReadFile
    }
}

} // verus!
