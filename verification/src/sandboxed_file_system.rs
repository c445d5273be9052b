//! A filesystem whose operations run in a helper process inside a sandbox.
//!
//! Each operation has two halves: the first checks the sandbox and the paths and says what the
//! helper is to be asked; the second, whose name starts with `finish_`, turns the helper's answer
//! into the result.

use vstd::prelude::*;

use crate::base64_codec::{base64_bytes, base64_text, decode_base64, encode_base64, is_encodable};
use crate::error::{ErrorKind, IoError, IoErrorView};
use crate::file_system::FileMetadata;
use crate::fs_helper::{
    map_sandbox_error, operation_name, CapabilityRootsDiscoverParams,
    CapabilityRootsDiscoverResponse, CopyOptions, CreateDirectoryOptions, FileSystemSandboxContext,
    FsCanonicalizeParams, FsCopyParams, FsCreateDirectoryParams, FsGetMetadataParams,
    FsHelperPayload, FsHelperRequest, FsReadDirectoryParams, FsReadFileParams, FsRemoveParams,
    FsWalkParams, FsWriteFileParams, GetMetadataOptions, JSONRPCErrorError, ReadDirectoryEntry,
    ReadFileOptions, RemoveOptions, WalkOptions, WalkOutcome, WriteFileOptions,
    CAPABILITY_ROOTS_DISCOVER_METHOD, FS_CANONICALIZE_METHOD, FS_COPY_METHOD,
    FS_CREATE_DIRECTORY_METHOD, FS_GET_METADATA_METHOD, FS_OPEN_METHOD, FS_READ_DIRECTORY_METHOD,
    FS_READ_FILE_METHOD, FS_REMOVE_METHOD, FS_WALK_METHOD, FS_WRITE_FILE_METHOD,
};
use crate::path::PathUri;
use crate::report::ends_with;
use crate::scoped_helper::{
    route_in_scope, run_sandboxed, HelperRoute, HelperScope, ScopedFsHelperKey,
};
use crate::text::{join, joined};

verus! {

/// Where the programs are that a server runs.
#[derive(Debug)]
pub struct ExecServerRuntimePaths {
    pub codex_self_exe: String,
    pub codex_linux_sandbox_exe: Option<String>,
}

impl Clone for ExecServerRuntimePaths {
    fn clone(&self) -> (copy: Self)
        ensures
            copy == *self,
    {
        ExecServerRuntimePaths {
            codex_self_exe: self.codex_self_exe.clone(),
            codex_linux_sandbox_exe: match &self.codex_linux_sandbox_exe {
                Some(path) => Some(path.clone()),
                None => None,
            },
        }
    }
}

/// What starts the helper processes.
#[derive(Debug)]
pub struct FileSystemSandboxRunner {
    pub runtime_paths: ExecServerRuntimePaths,
}

/// What tells one filesystem from another. A copy of a filesystem has the same.
#[derive(Clone, Copy, Debug, PartialEq, Eq, Structural)]
pub struct RunnerId {
    pub value: usize,
}

/// Where filesystems get what tells them apart.
#[derive(Debug)]
pub struct RunnerIds {
    /// The value that is issued next; all lower ones have been.
    pub next: usize,
}

impl RunnerIds {
    /// Whether `id` has been issued.
    pub open spec fn has_issued(self, id: RunnerId) -> bool {
        id.value < self.next
    }

    /// Nothing has been issued.
    pub fn new() -> (ids: Self)
        ensures
            ids.next == 0,
            forall|id: RunnerId| !ids.has_issued(id),
    {
        RunnerIds { next: 0 }
    }

    /// Issues an identity that has not been issued before, while there is one.
    pub fn issue(&mut self) -> (id: Option<RunnerId>)
        ensures
            id is Some <==> old(self).next < usize::MAX,
            id matches Some(id) ==> id.value == old(self).next && final(self).next == old(
                self,
            ).next + 1,
            id is None ==> final(self).next == old(self).next,
            id matches Some(id) ==> !old(self).has_issued(id) && final(self).has_issued(id),
            forall|earlier: RunnerId| #[trigger]
                old(self).has_issued(earlier) ==> final(self).has_issued(earlier),
    {
        if self.next == usize::MAX {
            return None;
        }
        let id = RunnerId { value: self.next };
        self.next = self.next + 1;
        Some(id)
    }
}

/// A filesystem whose operations run in a sandbox.
#[derive(Debug)]
pub struct SandboxedFileSystem {
    pub sandbox_runner: FileSystemSandboxRunner,
    pub scoped_runner_id: RunnerId,
}

/// Whether the filesystems were made one after the other with identities from one source, as
/// [`SandboxedFileSystem::new_issued`] makes them.
pub open spec fn are_made_in_turn(file_systems: Seq<SandboxedFileSystem>, ids: Seq<RunnerIds>) -> bool {
    &&& ids.len() == file_systems.len() + 1
    &&& forall|k: int|
        0 <= k < file_systems.len() ==> (
        #[trigger] file_systems[k]).scoped_runner_id.value == ids[k].next && ids[k + 1].next
            == ids[k].next + 1
}

proof fn lemma_ids_grow(
    file_systems: Seq<SandboxedFileSystem>,
    ids: Seq<RunnerIds>,
    i: int,
    j: int,
)
    requires
        are_made_in_turn(file_systems, ids),
        0 <= i <= j <= file_systems.len(),
    ensures
        ids[j].next == ids[i].next + (j - i),
    decreases j - i,
{
    if i < j {
        lemma_ids_grow(file_systems, ids, i, j - 1);
        assert(file_systems[j - 1].scoped_runner_id.value == ids[j - 1].next);
    }
}

/// A helper that was started for a filesystem serves that filesystem and its copies, in an equal
/// sandbox, and no other filesystem that was made, whatever its programs.
pub proof fn law_helper_serves_one_file_system_and_its_copies(
    file_systems: Seq<SandboxedFileSystem>,
    ids: Seq<RunnerIds>,
    owner: int,
    other: int,
    sandbox: FileSystemSandboxContext,
    asked: FileSystemSandboxContext,
)
    requires
        are_made_in_turn(file_systems, ids),
        0 <= owner < file_systems.len(),
        0 <= other < file_systems.len(),
    ensures
        route_in_scope(
            Some(file_systems[owner].key_for(sandbox)),
            file_systems[other].key_for(asked),
        ) == (if owner == other && sandbox.is_same(asked) {
            HelperRoute::Installed
        } else {
            HelperRoute::OneShot
        }),
{
    assert(file_systems[owner].scoped_runner_id.value == ids[owner].next);
    assert(file_systems[other].scoped_runner_id.value == ids[other].next);
    if owner < other {
        lemma_ids_grow(file_systems, ids, owner, other);
    } else {
        lemma_ids_grow(file_systems, ids, other, owner);
    }
}

impl Clone for SandboxedFileSystem {
    fn clone(&self) -> (copy: Self)
        ensures
            copy == *self,
    {
        SandboxedFileSystem::new(
            self.sandbox_runner.runtime_paths.clone(),
            self.scoped_runner_id,
        )
    }
}

/// What a helper is to be asked, and in which sandbox.
#[derive(Debug)]
pub struct SandboxCall<'a> {
    pub sandbox: &'a FileSystemSandboxContext,
    pub request: FsHelperRequest<'a>,
}

/// The error for an operation without a platform sandbox.
pub open spec fn no_sandbox_failure() -> IoErrorView {
    IoErrorView {
        kind: ErrorKind::InvalidInput,
        message:
            "sandboxed filesystem operations require ReadOnly or WorkspaceWrite sandbox policy"@,
    }
}

/// The sandbox that an operation on `path` runs in, or why it does not run: there is no sandbox that
/// the platform enforces, or the path names no place on this host.
pub open spec fn checked<'a>(
    sandbox: Option<&'a FileSystemSandboxContext>,
    path: PathUri,
) -> Result<&'a FileSystemSandboxContext, IoErrorView> {
    match sandbox {
        Some(context) => if !context.should_run_in_sandbox {
            Err(no_sandbox_failure())
        } else {
            match path.native {
                Ok(_) => Ok(context),
                Err(error) => Err(error@),
            }
        },
        None => Err(no_sandbox_failure()),
    }
}

/// Whether `call` asks for `request`, in the sandbox, or fails, as `check` says.
pub open spec fn asks<'a>(
    call: Result<SandboxCall<'a>, IoError>,
    check: Result<&'a FileSystemSandboxContext, IoErrorView>,
    request: FsHelperRequest<'a>,
) -> bool {
    match check {
        Ok(context) => {
            &&& call is Ok
            &&& call->Ok_0.sandbox == context
            &&& call->Ok_0.request == request
        },
        Err(failure) => call is Err && call->Err_0@ == failure,
    }
}

/// How a request says whether links are followed: it says so only where they are not.
pub open spec fn follow_flag(follow_symlinks: bool) -> Option<bool> {
    if follow_symlinks {
        None
    } else {
        Some(false)
    }
}

/// What a helper that is not told whether to follow links does.
pub open spec fn followed(flag: Option<bool>) -> bool {
    match flag {
        Some(follow_symlinks) => follow_symlinks,
        None => true,
    }
}

/// Whether links are followed survives the trip to the helper.
pub proof fn law_follow_flag_is_faithful(follow_symlinks: bool)
    ensures
        followed(follow_flag(follow_symlinks)) == follow_symlinks,
        follow_flag(follow_symlinks) is Some <==> !follow_symlinks,
{
}

/// The name of the operation that a payload answers.
pub open spec fn answered_operation(payload: FsHelperPayload) -> Seq<char> {
    match payload {
        FsHelperPayload::DiscoverCapabilityRoots(_) => CAPABILITY_ROOTS_DISCOVER_METHOD@,
        FsHelperPayload::Open => FS_OPEN_METHOD@,
        FsHelperPayload::ReadFile { .. } => FS_READ_FILE_METHOD@,
        FsHelperPayload::WriteFile => FS_WRITE_FILE_METHOD@,
        FsHelperPayload::CreateDirectory => FS_CREATE_DIRECTORY_METHOD@,
        FsHelperPayload::GetMetadata { .. } => FS_GET_METADATA_METHOD@,
        FsHelperPayload::Canonicalize { .. } => FS_CANONICALIZE_METHOD@,
        FsHelperPayload::ReadDirectory { .. } => FS_READ_DIRECTORY_METHOD@,
        FsHelperPayload::Walk(_) => FS_WALK_METHOD@,
        FsHelperPayload::Remove => FS_REMOVE_METHOD@,
        FsHelperPayload::Copy => FS_COPY_METHOD@,
    }
}

/// The error for an answer to another operation than `expected`.
pub open spec fn unexpected_failure(expected: Seq<char>, payload: FsHelperPayload) -> IoErrorView {
    IoErrorView {
        kind: ErrorKind::Other,
        message: joined(
            "unexpected fs sandbox helper response: expected "@,
            expected,
            ", got "@,
        ) + answered_operation(payload),
    }
}

/// Whether `result` is the failure that `reply` amounts to where it does not answer `expected`: its
/// own error, or that it answers something else.
pub open spec fn fails<T>(
    result: Result<T, IoError>,
    expected: Seq<char>,
    reply: Result<FsHelperPayload, IoError>,
) -> bool {
    &&& result is Err
    &&& match reply {
        Ok(payload) => result->Err_0@ == unexpected_failure(expected, payload),
        Err(error) => result->Err_0 == error,
    }
}

fn answered(payload: &FsHelperPayload) -> (name: &'static str)
    ensures
        name@ == answered_operation(*payload),
{
    match payload {
        FsHelperPayload::DiscoverCapabilityRoots(_) => CAPABILITY_ROOTS_DISCOVER_METHOD,
        FsHelperPayload::Open => FS_OPEN_METHOD,
        FsHelperPayload::ReadFile { .. } => FS_READ_FILE_METHOD,
        FsHelperPayload::WriteFile => FS_WRITE_FILE_METHOD,
        FsHelperPayload::CreateDirectory => FS_CREATE_DIRECTORY_METHOD,
        FsHelperPayload::GetMetadata { .. } => FS_GET_METADATA_METHOD,
        FsHelperPayload::Canonicalize { .. } => FS_CANONICALIZE_METHOD,
        FsHelperPayload::ReadDirectory { .. } => FS_READ_DIRECTORY_METHOD,
        FsHelperPayload::Walk(_) => FS_WALK_METHOD,
        FsHelperPayload::Remove => FS_REMOVE_METHOD,
        FsHelperPayload::Copy => FS_COPY_METHOD,
    }
}

/// The failure that a reply amounts to where it does not answer `expected`.
fn failure_of(expected: &str, reply: Result<FsHelperPayload, IoError>) -> (failure: IoError)
    ensures
        match reply {
            Ok(payload) => failure@ == unexpected_failure(expected@, payload),
            Err(error) => failure == error,
        },
{
    match reply {
        Ok(payload) => {
            let mut message: String = join(
                "unexpected fs sandbox helper response: expected ",
                expected,
                ", got ",
            );
            message.append(answered(&payload));
            map_sandbox_error(JSONRPCErrorError { code: -32603, message })
        },
        Err(error) => error,
    }
}

/// Lets an operation on a path pass that names a place on this host.
pub fn validate_native_path(path: &PathUri) -> (valid: Result<(), IoError>)
    ensures
        valid is Ok <==> path.native is Ok,
        valid matches Err(error) ==> error == path.native->Err_0,
{
    match path.to_abs_path() {
        Ok(_) => Ok(()),
        Err(error) => Err(error),
    }
}

/// Lets an operation pass that has a sandbox which the platform enforces.
pub fn require_platform_sandbox<'a>(
    sandbox: Option<&'a FileSystemSandboxContext>,
) -> (required: Result<&'a FileSystemSandboxContext, IoError>)
    ensures
        required is Ok <==> sandbox is Some && sandbox->0.should_run_in_sandbox,
        required matches Ok(context) ==> sandbox == Some(context),
        required matches Err(error) ==> error@ == no_sandbox_failure(),
{
    match sandbox {
        Some(context) => {
            if context.should_run_in_sandbox {
                return Ok(context);
            }
        },
        None => {},
    }
    Err(
        IoError::new(
            ErrorKind::InvalidInput,
            "sandboxed filesystem operations require ReadOnly or WorkspaceWrite sandbox policy",
        ),
    )
}

fn check<'a>(
    sandbox: Option<&'a FileSystemSandboxContext>,
    path: &PathUri,
) -> (context: Result<&'a FileSystemSandboxContext, IoError>)
    ensures
        context is Ok == checked(sandbox, *path) is Ok,
        context matches Ok(context) ==> context == checked(sandbox, *path)->Ok_0,
        context matches Err(error) ==> error@ == checked(sandbox, *path)->Err_0,
{
    match require_platform_sandbox(sandbox) {
        Ok(context) => match validate_native_path(path) {
            Ok(()) => Ok(context),
            Err(error) => Err(error),
        },
        Err(error) => Err(error),
    }
}

fn flag(follow_symlinks: bool) -> (flag: Option<bool>)
    ensures
        flag == follow_flag(follow_symlinks),
{
    if follow_symlinks {
        None
    } else {
        Some(false)
    }
}

/// The error for contents that are no base64 text.
pub open spec fn undecodable_failure(problem: Seq<char>) -> IoErrorView {
    IoErrorView {
        kind: ErrorKind::InvalidData,
        message: "fs/readFile returned invalid base64 dataBase64: "@ + problem,
    }
}

/// The contents of a file that was read, where `decoded` is what its base64 text decoded to.
pub fn decoded_contents(decoded: Result<Vec<u8>, String>) -> (contents: Result<Vec<u8>, IoError>)
    ensures
        match decoded {
            Ok(bytes) => contents is Ok && contents->Ok_0 == bytes,
            Err(problem) => contents is Err && contents->Err_0@ == undecodable_failure(problem@),
        },
{
    match decoded {
        Ok(bytes) => Ok(bytes),
        Err(problem) => {
            let mut message: String =
                "fs/readFile returned invalid base64 dataBase64: ".to_owned();
            message.append(problem.as_str());
            Err(IoError { kind: ErrorKind::InvalidData, message })
        },
    }
}

impl SandboxedFileSystem {
    /// A filesystem that finds its programs at `runtime_paths`, and that nothing but its copies
    /// shares its identity with, where the identity was issued for it.
    pub fn new(runtime_paths: ExecServerRuntimePaths, scoped_runner_id: RunnerId) -> (file_system:
        Self)
        ensures
            file_system.sandbox_runner.runtime_paths == runtime_paths,
            file_system.scoped_runner_id == scoped_runner_id,
    {
        SandboxedFileSystem {
            sandbox_runner: FileSystemSandboxRunner { runtime_paths },
            scoped_runner_id,
        }
    }

    /// A filesystem that finds its programs at `runtime_paths` and has an identity that was not
    /// issued before, while there is one. So no filesystem that was made before with an identity
    /// from `ids` shares its helpers.
    pub fn new_issued(runtime_paths: ExecServerRuntimePaths, ids: &mut RunnerIds) -> (file_system:
        Option<Self>)
        ensures
            file_system is Some <==> old(ids).next < usize::MAX,
            file_system matches Some(file_system) ==> {
                &&& file_system.sandbox_runner.runtime_paths == runtime_paths
                &&& !old(ids).has_issued(file_system.scoped_runner_id)
                &&& final(ids).has_issued(file_system.scoped_runner_id)
                &&& file_system.scoped_runner_id.value == old(ids).next
                &&& final(ids).next == old(ids).next + 1
            },
            file_system is None ==> final(ids).next == old(ids).next,
            forall|earlier: RunnerId| #[trigger]
                old(ids).has_issued(earlier) ==> final(ids).has_issued(earlier),
            file_system matches Some(file_system) ==> forall|
                other: Self,
                sandbox: FileSystemSandboxContext,
                asked: FileSystemSandboxContext,
            |
                old(ids).has_issued(other.scoped_runner_id) ==> #[trigger] route_in_scope(
                    Some(other.key_for(sandbox)),
                    file_system.key_for(asked),
                ) is OneShot,
    {
        match ids.issue() {
            Some(id) => Some(SandboxedFileSystem::new(runtime_paths, id)),
            None => None,
        }
    }

    /// What a helper for this filesystem is started for.
    pub open spec fn key_for(self, sandbox: FileSystemSandboxContext) -> ScopedFsHelperKey {
        ScopedFsHelperKey { runner_id: self.scoped_runner_id.value, sandbox }
    }

    /// What a helper for this filesystem is started for.
    pub fn helper_key(&self, sandbox: &FileSystemSandboxContext) -> (key: ScopedFsHelperKey)
        ensures
            key == self.key_for(*sandbox),
    {
        ScopedFsHelperKey { runner_id: self.scoped_runner_id.value, sandbox: sandbox.clone() }
    }

    /// Who serves a request of this filesystem in a sandbox: a helper of the scope that was started
    /// for it, or for a copy of it, in an equal sandbox; one that is to be started; or one for this
    /// request alone.
    pub fn run_sandboxed(
        &self,
        scope: Option<&HelperScope>,
        sandbox: &FileSystemSandboxContext,
    ) -> (route: HelperRoute)
        ensures
            route == match scope {
                Some(scope) => route_in_scope(scope.installed, self.key_for(*sandbox)),
                None => HelperRoute::OneShot,
            },
    {
        run_sandboxed(scope, &self.helper_key(sandbox))
    }

    /// Asks which capabilities there are. Neither sandbox nor paths are checked.
    pub fn discover_capability_roots<'a>(
        params: CapabilityRootsDiscoverParams,
        sandbox: &'a FileSystemSandboxContext,
    ) -> (call: SandboxCall<'a>)
        ensures
            call.sandbox == sandbox,
            call.request == FsHelperRequest::<'a>::DiscoverCapabilityRoots(params),
    {
        SandboxCall { sandbox, request: FsHelperRequest::DiscoverCapabilityRoots(params) }
    }

    /// The capabilities that were found.
    pub fn finish_discover_capability_roots(
        reply: Result<FsHelperPayload, IoError>,
    ) -> (result: Result<CapabilityRootsDiscoverResponse, IoError>)
        ensures
            match reply {
                Ok(FsHelperPayload::DiscoverCapabilityRoots(found)) => result is Ok && result->Ok_0
                    == found,
                _ => fails(result, CAPABILITY_ROOTS_DISCOVER_METHOD@, reply),
            },
    {
        match reply {
            Ok(FsHelperPayload::DiscoverCapabilityRoots(found)) => Ok(found),
            reply => Err(failure_of(CAPABILITY_ROOTS_DISCOVER_METHOD, reply)),
        }
    }

    /// Checks what is needed to open a file: the sandbox that it is opened in.
    pub fn open_file_for_read<'a>(
        path: &PathUri,
        sandbox: Option<&'a FileSystemSandboxContext>,
    ) -> (context: Result<&'a FileSystemSandboxContext, IoError>)
        ensures
            context is Ok == checked(sandbox, *path) is Ok,
            context matches Ok(context) ==> context == checked(sandbox, *path)->Ok_0,
            context matches Err(error) ==> error@ == checked(sandbox, *path)->Err_0,
    {
        check(sandbox, path)
    }

    /// Asks for the canonical form of a path.
    pub fn canonicalize<'a>(
        path: &'a PathUri,
        sandbox: Option<&'a FileSystemSandboxContext>,
    ) -> (call: Result<SandboxCall<'a>, IoError>)
        ensures
            asks(
                call,
                checked(sandbox, *path),
                FsHelperRequest::Canonicalize(FsCanonicalizeParams { path, sandbox: None }),
            ),
    {
        let sandbox = check(sandbox, path)?;
        Ok(
            SandboxCall {
                sandbox,
                request: FsHelperRequest::Canonicalize(
                    FsCanonicalizeParams { path, sandbox: None },
                ),
            },
        )
    }

    /// The canonical form of the path.
    pub fn finish_canonicalize(reply: Result<FsHelperPayload, IoError>) -> (result: Result<
        PathUri,
        IoError,
    >)
        ensures
            match reply {
                Ok(FsHelperPayload::Canonicalize { path }) => result is Ok && result->Ok_0 == path,
                _ => fails(result, FS_CANONICALIZE_METHOD@, reply),
            },
    {
        match reply {
            Ok(FsHelperPayload::Canonicalize { path }) => Ok(path),
            reply => Err(failure_of(FS_CANONICALIZE_METHOD, reply)),
        }
    }

    /// Asks for the contents of a file.
    pub fn read_file<'a>(
        path: &'a PathUri,
        options: ReadFileOptions,
        sandbox: Option<&'a FileSystemSandboxContext>,
    ) -> (call: Result<SandboxCall<'a>, IoError>)
        ensures
            asks(
                call,
                checked(sandbox, *path),
                FsHelperRequest::ReadFile(
                    FsReadFileParams {
                        path,
                        follow_symlinks: follow_flag(options.follow_symlinks),
                        sandbox: None,
                    },
                ),
            ),
    {
        let sandbox = check(sandbox, path)?;
        Ok(
            SandboxCall {
                sandbox,
                request: FsHelperRequest::ReadFile(
                    FsReadFileParams {
                        path,
                        follow_symlinks: flag(options.follow_symlinks),
                        sandbox: None,
                    },
                ),
            },
        )
    }

    /// The file's contents, decoded.
    pub fn finish_read_file(reply: Result<FsHelperPayload, IoError>) -> (result: Result<
        Vec<u8>,
        IoError,
    >)
        ensures
            match reply {
                Ok(FsHelperPayload::ReadFile { data_base64 }) => match base64_bytes(data_base64@) {
                    Ok(contents) => result is Ok && result->Ok_0@ == contents,
                    Err(problem) => result is Err && result->Err_0@ == undecodable_failure(
                        problem,
                    ),
                },
                _ => fails(result, FS_READ_FILE_METHOD@, reply),
            },
    {
        match reply {
            Ok(FsHelperPayload::ReadFile { data_base64 }) => decoded_contents(
                decode_base64(data_base64.as_str()),
            ),
            reply => Err(failure_of(FS_READ_FILE_METHOD, reply)),
        }
    }

    /// Asks for a file to be written. The contents travel as base64 text, which decodes to them.
    pub fn write_file<'a>(
        path: &'a PathUri,
        contents: Vec<u8>,
        options: WriteFileOptions,
        sandbox: Option<&'a FileSystemSandboxContext>,
    ) -> (call: Result<SandboxCall<'a>, IoError>)
        requires
            is_encodable(contents@.len()),
        ensures
            match checked(sandbox, *path) {
                Ok(context) => {
                    &&& call is Ok
                    &&& call->Ok_0.sandbox == context
                    &&& call->Ok_0.request matches FsHelperRequest::WriteFile(params)
                    &&& params.path == path
                    &&& params.data_base64@ == base64_text(contents@)
                    &&& base64_bytes(params.data_base64@) is Ok
                    &&& base64_bytes(params.data_base64@)->Ok_0 == contents@
                    &&& params.follow_symlinks == follow_flag(options.follow_symlinks)
                    &&& params.sandbox is None
                },
                Err(failure) => call is Err && call->Err_0@ == failure,
            },
    {
        let sandbox = check(sandbox, path)?;
        Ok(
            SandboxCall {
                sandbox,
                request: FsHelperRequest::WriteFile(
                    FsWriteFileParams {
                        path,
                        data_base64: encode_base64(&contents),
                        follow_symlinks: flag(options.follow_symlinks),
                        sandbox: None,
                    },
                ),
            },
        )
    }

    /// Whether the file was written.
    pub fn finish_write_file(reply: Result<FsHelperPayload, IoError>) -> (result: Result<
        (),
        IoError,
    >)
        ensures
            match reply {
                Ok(FsHelperPayload::WriteFile) => result is Ok,
                _ => fails(result, FS_WRITE_FILE_METHOD@, reply),
            },
    {
        match reply {
            Ok(FsHelperPayload::WriteFile) => Ok(()),
            reply => Err(failure_of(FS_WRITE_FILE_METHOD, reply)),
        }
    }

    /// Asks for a directory to be made.
    pub fn create_directory<'a>(
        path: &'a PathUri,
        options: CreateDirectoryOptions,
        sandbox: Option<&'a FileSystemSandboxContext>,
    ) -> (call: Result<SandboxCall<'a>, IoError>)
        ensures
            asks(
                call,
                checked(sandbox, *path),
                FsHelperRequest::CreateDirectory(
                    FsCreateDirectoryParams {
                        path,
                        recursive: Some(options.recursive),
                        follow_symlinks: follow_flag(options.follow_symlinks),
                        sandbox: None,
                    },
                ),
            ),
    {
        let sandbox = check(sandbox, path)?;
        Ok(
            SandboxCall {
                sandbox,
                request: FsHelperRequest::CreateDirectory(
                    FsCreateDirectoryParams {
                        path,
                        recursive: Some(options.recursive),
                        follow_symlinks: flag(options.follow_symlinks),
                        sandbox: None,
                    },
                ),
            },
        )
    }

    /// Whether the directory was made.
    pub fn finish_create_directory(reply: Result<FsHelperPayload, IoError>) -> (result: Result<
        (),
        IoError,
    >)
        ensures
            match reply {
                Ok(FsHelperPayload::CreateDirectory) => result is Ok,
                _ => fails(result, FS_CREATE_DIRECTORY_METHOD@, reply),
            },
    {
        match reply {
            Ok(FsHelperPayload::CreateDirectory) => Ok(()),
            reply => Err(failure_of(FS_CREATE_DIRECTORY_METHOD, reply)),
        }
    }

    /// Asks what a path is.
    pub fn get_metadata<'a>(
        path: &'a PathUri,
        options: GetMetadataOptions,
        sandbox: Option<&'a FileSystemSandboxContext>,
    ) -> (call: Result<SandboxCall<'a>, IoError>)
        ensures
            asks(
                call,
                checked(sandbox, *path),
                FsHelperRequest::GetMetadata(
                    FsGetMetadataParams {
                        path,
                        follow_symlinks: follow_flag(options.follow_symlinks),
                        sandbox: None,
                    },
                ),
            ),
    {
        let sandbox = check(sandbox, path)?;
        Ok(
            SandboxCall {
                sandbox,
                request: FsHelperRequest::GetMetadata(
                    FsGetMetadataParams {
                        path,
                        follow_symlinks: flag(options.follow_symlinks),
                        sandbox: None,
                    },
                ),
            },
        )
    }

    /// What the path is.
    pub fn finish_get_metadata(reply: Result<FsHelperPayload, IoError>) -> (result: Result<
        FileMetadata,
        IoError,
    >)
        ensures
            match reply {
                Ok(
                    FsHelperPayload::GetMetadata {
                        is_directory,
                        is_file,
                        is_symlink,
                        size,
                        created_at_ms,
                        modified_at_ms,
                    },
                ) => result is Ok && result->Ok_0 == (FileMetadata {
                    is_directory,
                    is_file,
                    is_symlink,
                    size,
                    created_at_ms,
                    modified_at_ms,
                }),
                _ => fails(result, FS_GET_METADATA_METHOD@, reply),
            },
    {
        match reply {
            Ok(
                FsHelperPayload::GetMetadata {
                    is_directory,
                    is_file,
                    is_symlink,
                    size,
                    created_at_ms,
                    modified_at_ms,
                },
            ) => Ok(
                FileMetadata {
                    is_directory,
                    is_file,
                    is_symlink,
                    size,
                    created_at_ms,
                    modified_at_ms,
                },
            ),
            reply => Err(failure_of(FS_GET_METADATA_METHOD, reply)),
        }
    }

    /// Asks for the entries of a directory.
    pub fn read_directory<'a>(
        path: &'a PathUri,
        sandbox: Option<&'a FileSystemSandboxContext>,
    ) -> (call: Result<SandboxCall<'a>, IoError>)
        ensures
            asks(
                call,
                checked(sandbox, *path),
                FsHelperRequest::ReadDirectory(FsReadDirectoryParams { path, sandbox: None }),
            ),
    {
        let sandbox = check(sandbox, path)?;
        Ok(
            SandboxCall {
                sandbox,
                request: FsHelperRequest::ReadDirectory(
                    FsReadDirectoryParams { path, sandbox: None },
                ),
            },
        )
    }

    /// The entries of the directory.
    pub fn finish_read_directory(reply: Result<FsHelperPayload, IoError>) -> (result: Result<
        Vec<ReadDirectoryEntry>,
        IoError,
    >)
        ensures
            match reply {
                Ok(FsHelperPayload::ReadDirectory { entries }) => result is Ok && result->Ok_0
                    == entries,
                _ => fails(result, FS_READ_DIRECTORY_METHOD@, reply),
            },
    {
        match reply {
            Ok(FsHelperPayload::ReadDirectory { entries }) => Ok(entries),
            reply => Err(failure_of(FS_READ_DIRECTORY_METHOD, reply)),
        }
    }

    /// Asks for a walk through a directory tree.
    pub fn walk<'a>(
        path: &'a PathUri,
        options: WalkOptions,
        sandbox: Option<&'a FileSystemSandboxContext>,
    ) -> (call: Result<SandboxCall<'a>, IoError>)
        ensures
            asks(
                call,
                checked(sandbox, *path),
                FsHelperRequest::Walk(FsWalkParams { path, options, sandbox: None }),
            ),
    {
        let sandbox = check(sandbox, path)?;
        Ok(
            SandboxCall {
                sandbox,
                request: FsHelperRequest::Walk(FsWalkParams { path, options, sandbox: None }),
            },
        )
    }

    /// What the walk found.
    pub fn finish_walk(reply: Result<FsHelperPayload, IoError>) -> (result: Result<
        WalkOutcome,
        IoError,
    >)
        ensures
            match reply {
                Ok(FsHelperPayload::Walk(outcome)) => result is Ok && result->Ok_0 == outcome,
                _ => fails(result, FS_WALK_METHOD@, reply),
            },
    {
        match reply {
            Ok(FsHelperPayload::Walk(outcome)) => Ok(outcome),
            reply => Err(failure_of(FS_WALK_METHOD, reply)),
        }
    }

    /// Asks for a path to be removed.
    pub fn remove<'a>(
        path: &'a PathUri,
        remove_options: RemoveOptions,
        sandbox: Option<&'a FileSystemSandboxContext>,
    ) -> (call: Result<SandboxCall<'a>, IoError>)
        ensures
            asks(
                call,
                checked(sandbox, *path),
                FsHelperRequest::Remove(
                    FsRemoveParams {
                        path,
                        recursive: Some(remove_options.recursive),
                        force: Some(remove_options.force),
                        follow_symlinks: follow_flag(remove_options.follow_symlinks),
                        sandbox: None,
                    },
                ),
            ),
    {
        let sandbox = check(sandbox, path)?;
        Ok(
            SandboxCall {
                sandbox,
                request: FsHelperRequest::Remove(
                    FsRemoveParams {
                        path,
                        recursive: Some(remove_options.recursive),
                        force: Some(remove_options.force),
                        follow_symlinks: flag(remove_options.follow_symlinks),
                        sandbox: None,
                    },
                ),
            },
        )
    }

    /// Whether the path was removed.
    pub fn finish_remove(reply: Result<FsHelperPayload, IoError>) -> (result: Result<(), IoError>)
        ensures
            match reply {
                Ok(FsHelperPayload::Remove) => result is Ok,
                _ => fails(result, FS_REMOVE_METHOD@, reply),
            },
    {
        match reply {
            Ok(FsHelperPayload::Remove) => Ok(()),
            reply => Err(failure_of(FS_REMOVE_METHOD, reply)),
        }
    }

    /// Asks for a copy. Both paths have to name places on this host; the source is checked first.
    pub fn copy<'a>(
        source_path: &'a PathUri,
        destination_path: &'a PathUri,
        options: CopyOptions,
        sandbox: Option<&'a FileSystemSandboxContext>,
    ) -> (call: Result<SandboxCall<'a>, IoError>)
        ensures
            asks(
                call,
                match checked(sandbox, *source_path) {
                    Ok(_) => checked(sandbox, *destination_path),
                    Err(failure) => Err(failure),
                },
                FsHelperRequest::Copy(
                    FsCopyParams {
                        source_path,
                        destination_path,
                        recursive: options.recursive,
                        sandbox: None,
                    },
                ),
            ),
    {
        let context = check(sandbox, source_path)?;
        validate_native_path(destination_path)?;
        Ok(
            SandboxCall {
                sandbox: context,
                request: FsHelperRequest::Copy(
                    FsCopyParams {
                        source_path,
                        destination_path,
                        recursive: options.recursive,
                        sandbox: None,
                    },
                ),
            },
        )
    }

    /// Whether the copy was made.
    pub fn finish_copy(reply: Result<FsHelperPayload, IoError>) -> (result: Result<(), IoError>)
        ensures
            match reply {
                Ok(FsHelperPayload::Copy) => result is Ok,
                _ => fails(result, FS_COPY_METHOD@, reply),
            },
    {
        match reply {
            Ok(FsHelperPayload::Copy) => Ok(()),
            reply => Err(failure_of(FS_COPY_METHOD, reply)),
        }
    }
}

/// An operation runs exactly where there is a sandbox that the platform enforces and its path names
/// a place on this host, and it runs in that sandbox. A path is not complained of while there is no
/// sandbox.
pub proof fn law_operations_run_only_in_an_enforced_sandbox(
    sandbox: Option<&FileSystemSandboxContext>,
    path: PathUri,
)
    ensures
        checked(sandbox, path) is Ok <==> sandbox is Some && sandbox->0.should_run_in_sandbox
            && path.native is Ok,
        checked(sandbox, path) matches Ok(context) ==> sandbox == Some(context),
        checked(sandbox, path) matches Err(failure) ==> if sandbox is Some
            && sandbox->0.should_run_in_sandbox {
            path.native matches Err(error) && failure == error@
        } else {
            failure.kind == ErrorKind::InvalidInput
        },
{
}

/// Whether the payload answers the request: both are of the same operation.
pub open spec fn is_answer(request: FsHelperRequest<'_>, payload: FsHelperPayload) -> bool {
    match request {
        FsHelperRequest::DiscoverCapabilityRoots(_) => payload is DiscoverCapabilityRoots,
        FsHelperRequest::Open(_) => payload is Open,
        FsHelperRequest::ReadFile(_) => payload is ReadFile,
        FsHelperRequest::WriteFile(_) => payload is WriteFile,
        FsHelperRequest::CreateDirectory(_) => payload is CreateDirectory,
        FsHelperRequest::GetMetadata(_) => payload is GetMetadata,
        FsHelperRequest::Canonicalize(_) => payload is Canonicalize,
        FsHelperRequest::ReadDirectory(_) => payload is ReadDirectory,
        FsHelperRequest::Walk(_) => payload is Walk,
        FsHelperRequest::Remove(_) => payload is Remove,
        FsHelperRequest::Copy(_) => payload is Copy,
    }
}

/// A request and a payload go by the same name exactly where the payload answers the request.
pub proof fn law_answers_go_by_the_name_of_their_request(
    request: FsHelperRequest<'_>,
    payload: FsHelperPayload,
)
    ensures
        operation_name(request) == answered_operation(payload) <==> is_answer(request, payload),
{
    reveal_strlit("capabilityRoots/discover");
    reveal_strlit("fs/open");
    reveal_strlit("fs/readFile");
    reveal_strlit("fs/writeFile");
    reveal_strlit("fs/createDirectory");
    reveal_strlit("fs/getMetadata");
    reveal_strlit("fs/canonicalize");
    reveal_strlit("fs/readDirectory");
    reveal_strlit("fs/walk");
    reveal_strlit("fs/remove");
    reveal_strlit("fs/copy");
    assert("capabilityRoots/discover"@.len() == 24);
    assert("fs/readFile"@.len() == 11);
    assert("fs/writeFile"@.len() == 12);
    assert("fs/createDirectory"@.len() == 18);
    assert("fs/getMetadata"@.len() == 14);
    assert("fs/canonicalize"@.len() == 15);
    assert("fs/readDirectory"@.len() == 16);
    assert("fs/remove"@.len() == 9);
    assert("fs/open"@.len() == 7 && "fs/open"@[3] == 'o');
    assert("fs/walk"@.len() == 7 && "fs/walk"@[3] == 'w');
    assert("fs/copy"@.len() == 7 && "fs/copy"@[3] == 'c');
}

/// An operation that passes its check asks for just its request, in the sandbox of the check, and one
/// that does not asks for nothing and fails as the check does.
pub proof fn law_call_is_what_the_check_allows<'a>(
    call: Result<SandboxCall<'a>, IoError>,
    check: Result<&'a FileSystemSandboxContext, IoErrorView>,
    request: FsHelperRequest<'a>,
)
    requires
        asks(call, check, request),
    ensures
        call is Ok <==> check is Ok,
        call matches Ok(asked) ==> asked.request == request && check->Ok_0 == asked.sandbox,
        call matches Err(error) ==> check->Err_0 == error@,
{
}

/// An answer to another operation, or none, is a failure: its own error, or one that ends with what
/// was answered instead.
pub proof fn law_other_answers_fail(
    result: Result<(), IoError>,
    expected: Seq<char>,
    reply: Result<FsHelperPayload, IoError>,
)
    requires
        fails(result, expected, reply),
    ensures
        result matches Err(failure) && match reply {
            Err(error) => failure == error,
            Ok(payload) => failure.kind == ErrorKind::Other && ends_with(
                failure.message@,
                expected + ", got "@ + answered_operation(payload),
            ),
        },
{
    if let Ok(payload) = reply {
        let end = expected + ", got "@ + answered_operation(payload);
        let message = result->Err_0.message@;
        assert(result->Err_0@ == unexpected_failure(expected, payload));
        assert(message.skip(message.len() - end.len()) =~= end);
    }
}

} // verus!
