//! The messages between a sandboxed filesystem and its helper process.

use vstd::prelude::*;

use crate::error::{ErrorKind, IoError};
use crate::path::PathUri;

verus! {

/// The sandbox that a filesystem operation is to run in.
#[derive(Debug)]
pub struct FileSystemSandboxContext {
    /// Whether the policy is one that the platform sandbox enforces.
    pub should_run_in_sandbox: bool,
    /// Every setting of the context, in one text. Two contexts are the same when their texts are.
    pub settings: String,
}

impl FileSystemSandboxContext {
    /// Whether both contexts are the same.
    pub open spec fn is_same(self, other: FileSystemSandboxContext) -> bool {
        self.should_run_in_sandbox == other.should_run_in_sandbox && self.settings@
            == other.settings@
    }

    /// Whether both contexts are the same.
    pub fn same_context(&self, other: &FileSystemSandboxContext) -> (same: bool)
        ensures
            same == self.is_same(*other),
    {
        self.should_run_in_sandbox == other.should_run_in_sandbox && self.settings
            == other.settings
    }
}

impl Clone for FileSystemSandboxContext {
    fn clone(&self) -> (copy: Self)
        ensures
            copy == *self,
    {
        FileSystemSandboxContext {
            should_run_in_sandbox: self.should_run_in_sandbox,
            settings: self.settings.clone(),
        }
    }
}

#[derive(Clone, Copy, Debug, PartialEq, Eq, Structural)]
pub struct ReadFileOptions {
    pub follow_symlinks: bool,
}

#[derive(Clone, Copy, Debug, PartialEq, Eq, Structural)]
pub struct WriteFileOptions {
    pub follow_symlinks: bool,
}

#[derive(Clone, Copy, Debug, PartialEq, Eq, Structural)]
pub struct CreateDirectoryOptions {
    pub recursive: bool,
    pub follow_symlinks: bool,
}

#[derive(Clone, Copy, Debug, PartialEq, Eq, Structural)]
pub struct GetMetadataOptions {
    pub follow_symlinks: bool,
}

#[derive(Clone, Copy, Debug, PartialEq, Eq, Structural)]
pub struct RemoveOptions {
    pub recursive: bool,
    pub force: bool,
    pub follow_symlinks: bool,
}

#[derive(Clone, Copy, Debug, PartialEq, Eq, Structural)]
pub struct CopyOptions {
    pub recursive: bool,
}

/// How a directory tree is to be walked, in the form in which it travels.
#[derive(Debug)]
pub struct WalkOptions {
    pub encoded: String,
}

/// What a walk found, in the form in which it travels.
#[derive(Debug)]
pub struct WalkOutcome {
    pub encoded: String,
}

/// The roots that are to be looked at for capabilities, in the form in which they travel.
#[derive(Debug)]
pub struct CapabilityRootsDiscoverParams {
    pub encoded: String,
}

/// The capabilities that were found, in the form in which they travel.
#[derive(Debug)]
pub struct CapabilityRootsDiscoverResponse {
    pub encoded: String,
}

#[derive(Debug)]
pub struct FsOpenParams<'a> {
    pub path: &'a PathUri,
    pub sandbox: Option<&'a FileSystemSandboxContext>,
}

#[derive(Debug)]
pub struct FsCanonicalizeParams<'a> {
    pub path: &'a PathUri,
    pub sandbox: Option<&'a FileSystemSandboxContext>,
}

/// `follow_symlinks` is given only where links are not to be followed.
#[derive(Debug)]
pub struct FsReadFileParams<'a> {
    pub path: &'a PathUri,
    pub follow_symlinks: Option<bool>,
    pub sandbox: Option<&'a FileSystemSandboxContext>,
}

/// `follow_symlinks` is given only where links are not to be followed.
#[derive(Debug)]
pub struct FsWriteFileParams<'a> {
    pub path: &'a PathUri,
    pub data_base64: String,
    pub follow_symlinks: Option<bool>,
    pub sandbox: Option<&'a FileSystemSandboxContext>,
}

/// `follow_symlinks` is given only where links are not to be followed.
#[derive(Debug)]
pub struct FsCreateDirectoryParams<'a> {
    pub path: &'a PathUri,
    pub recursive: Option<bool>,
    pub follow_symlinks: Option<bool>,
    pub sandbox: Option<&'a FileSystemSandboxContext>,
}

/// `follow_symlinks` is given only where links are not to be followed.
#[derive(Debug)]
pub struct FsGetMetadataParams<'a> {
    pub path: &'a PathUri,
    pub follow_symlinks: Option<bool>,
    pub sandbox: Option<&'a FileSystemSandboxContext>,
}

#[derive(Debug)]
pub struct FsReadDirectoryParams<'a> {
    pub path: &'a PathUri,
    pub sandbox: Option<&'a FileSystemSandboxContext>,
}

#[derive(Debug)]
pub struct FsWalkParams<'a> {
    pub path: &'a PathUri,
    pub options: WalkOptions,
    pub sandbox: Option<&'a FileSystemSandboxContext>,
}

/// `follow_symlinks` is given only where links are not to be followed.
#[derive(Debug)]
pub struct FsRemoveParams<'a> {
    pub path: &'a PathUri,
    pub recursive: Option<bool>,
    pub force: Option<bool>,
    pub follow_symlinks: Option<bool>,
    pub sandbox: Option<&'a FileSystemSandboxContext>,
}

#[derive(Debug)]
pub struct FsCopyParams<'a> {
    pub source_path: &'a PathUri,
    pub destination_path: &'a PathUri,
    pub recursive: bool,
    pub sandbox: Option<&'a FileSystemSandboxContext>,
}

/// What a helper is asked.
#[derive(Debug)]
pub enum FsHelperRequest<'a> {
    DiscoverCapabilityRoots(CapabilityRootsDiscoverParams),
    Open(FsOpenParams<'a>),
    ReadFile(FsReadFileParams<'a>),
    WriteFile(FsWriteFileParams<'a>),
    CreateDirectory(FsCreateDirectoryParams<'a>),
    GetMetadata(FsGetMetadataParams<'a>),
    Canonicalize(FsCanonicalizeParams<'a>),
    ReadDirectory(FsReadDirectoryParams<'a>),
    Walk(FsWalkParams<'a>),
    Remove(FsRemoveParams<'a>),
    Copy(FsCopyParams<'a>),
}

/// An entry of a directory.
#[derive(Debug)]
pub struct ReadDirectoryEntry {
    pub file_name: String,
    pub is_directory: bool,
    pub is_file: bool,
}

/// What a helper answers when it succeeds.
#[derive(Debug)]
pub enum FsHelperPayload {
    DiscoverCapabilityRoots(CapabilityRootsDiscoverResponse),
    Open,
    ReadFile { data_base64: String },
    WriteFile,
    CreateDirectory,
    GetMetadata {
        is_directory: bool,
        is_file: bool,
        is_symlink: bool,
        size: u64,
        created_at_ms: i64,
        modified_at_ms: i64,
    },
    Canonicalize { path: PathUri },
    ReadDirectory { entries: Vec<ReadDirectoryEntry> },
    Walk(WalkOutcome),
    Remove,
    Copy,
}

/// An error as a helper or its runner reports it.
#[derive(Debug)]
pub struct JSONRPCErrorError {
    pub code: i64,
    pub message: String,
}

pub const CAPABILITY_ROOTS_DISCOVER_METHOD: &'static str = "capabilityRoots/discover";

pub const FS_OPEN_METHOD: &'static str = "fs/open";

pub const FS_READ_FILE_METHOD: &'static str = "fs/readFile";

pub const FS_WRITE_FILE_METHOD: &'static str = "fs/writeFile";

pub const FS_CREATE_DIRECTORY_METHOD: &'static str = "fs/createDirectory";

pub const FS_GET_METADATA_METHOD: &'static str = "fs/getMetadata";

pub const FS_CANONICALIZE_METHOD: &'static str = "fs/canonicalize";

pub const FS_READ_DIRECTORY_METHOD: &'static str = "fs/readDirectory";

pub const FS_WALK_METHOD: &'static str = "fs/walk";

pub const FS_REMOVE_METHOD: &'static str = "fs/remove";

pub const FS_COPY_METHOD: &'static str = "fs/copy";

/// The name under which a request is known.
pub open spec fn operation_name(request: FsHelperRequest<'_>) -> Seq<char> {
    match request {
        FsHelperRequest::DiscoverCapabilityRoots(_) => "capabilityRoots/discover"@,
        FsHelperRequest::Open(_) => "fs/open"@,
        FsHelperRequest::ReadFile(_) => "fs/readFile"@,
        FsHelperRequest::WriteFile(_) => "fs/writeFile"@,
        FsHelperRequest::CreateDirectory(_) => "fs/createDirectory"@,
        FsHelperRequest::GetMetadata(_) => "fs/getMetadata"@,
        FsHelperRequest::Canonicalize(_) => "fs/canonicalize"@,
        FsHelperRequest::ReadDirectory(_) => "fs/readDirectory"@,
        FsHelperRequest::Walk(_) => "fs/walk"@,
        FsHelperRequest::Remove(_) => "fs/remove"@,
        FsHelperRequest::Copy(_) => "fs/copy"@,
    }
}

/// The name under which a request is known.
pub fn fs_helper_operation(request: &FsHelperRequest<'_>) -> (name: &'static str)
    ensures
        name@ == operation_name(*request),
{
    match request {
        FsHelperRequest::DiscoverCapabilityRoots(_) => CAPABILITY_ROOTS_DISCOVER_METHOD,
        FsHelperRequest::Open(_) => FS_OPEN_METHOD,
        FsHelperRequest::ReadFile(_) => FS_READ_FILE_METHOD,
        FsHelperRequest::WriteFile(_) => FS_WRITE_FILE_METHOD,
        FsHelperRequest::CreateDirectory(_) => FS_CREATE_DIRECTORY_METHOD,
        FsHelperRequest::GetMetadata(_) => FS_GET_METADATA_METHOD,
        FsHelperRequest::Canonicalize(_) => FS_CANONICALIZE_METHOD,
        FsHelperRequest::ReadDirectory(_) => FS_READ_DIRECTORY_METHOD,
        FsHelperRequest::Walk(_) => FS_WALK_METHOD,
        FsHelperRequest::Remove(_) => FS_REMOVE_METHOD,
        FsHelperRequest::Copy(_) => FS_COPY_METHOD,
    }
}

/// The kind of error that a code stands for.
pub open spec fn kind_of_code(code: i64) -> ErrorKind {
    if code == -32004 {
        ErrorKind::NotFound
    } else if code == -32600 {
        ErrorKind::InvalidInput
    } else {
        ErrorKind::Other
    }
}

/// The error that a helper's error amounts to.
pub fn map_sandbox_error(error: JSONRPCErrorError) -> (failure: IoError)
    ensures
        failure == (IoError { kind: kind_of_code(error.code), message: error.message }),
{
    let kind = match error.code {
        -32004 => ErrorKind::NotFound,
        -32600 => ErrorKind::InvalidInput,
        _ => ErrorKind::Other,
    };
    IoError { kind, message: error.message }
}

/// Two codes stand for a kind of their own, and no other code does.
pub proof fn law_two_codes_have_a_kind(code: i64)
    ensures
        kind_of_code(code) == ErrorKind::NotFound <==> code == -32004,
        kind_of_code(code) == ErrorKind::InvalidInput <==> code == -32600,
        code != -32004 && code != -32600 ==> kind_of_code(code) == ErrorKind::Other,
{
}

} // verus!
