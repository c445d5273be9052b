use patch_batch::error::{ErrorKind, IoError};
use patch_batch::fs_helper::{
    fs_helper_operation, map_sandbox_error, CapabilityRootsDiscoverParams,
    CapabilityRootsDiscoverResponse, CopyOptions, CreateDirectoryOptions,
    FileSystemSandboxContext, FsHelperPayload, FsHelperRequest, GetMetadataOptions,
    JSONRPCErrorError, ReadDirectoryEntry, ReadFileOptions, RemoveOptions, WalkOptions,
    WalkOutcome, WriteFileOptions,
};
use patch_batch::path::{NativePath, PathUri};
use patch_batch::sandboxed_file_system::{
    decoded_contents, require_platform_sandbox, validate_native_path, ExecServerRuntimePaths,
    RunnerId, RunnerIds, SandboxedFileSystem,
};
use patch_batch::scoped_helper::{HelperPipes, HelperRoute, HelperScope};

fn sandbox(should_run_in_sandbox: bool) -> FileSystemSandboxContext {
    FileSystemSandboxContext { should_run_in_sandbox, settings: "workspace-write".to_string() }
}

fn path(name: &str) -> PathUri {
    PathUri {
        uri: format!("file:///{name}"),
        display: format!("/{name}"),
        native: Ok(NativePath {
            root: "/".to_string(),
            separator: "/".to_string(),
            components: vec![name.to_string()],
        }),
    }
}

fn foreign_path() -> PathUri {
    PathUri {
        uri: "file:///c:/x".to_string(),
        display: "C:\\x".to_string(),
        native: Err(IoError::new(ErrorKind::InvalidInput, "not a path of this host")),
    }
}

fn runtime_paths() -> ExecServerRuntimePaths {
    ExecServerRuntimePaths {
        codex_self_exe: "/bin/self".to_string(),
        codex_linux_sandbox_exe: Some("/bin/sandbox".to_string()),
    }
}

#[test]
fn new_keeps_the_runtime_paths() {
    let file_system = SandboxedFileSystem::new(runtime_paths(), RunnerId { value: 7 });
    let copy = file_system.clone();
    assert_eq!(copy.sandbox_runner.runtime_paths.codex_self_exe, "/bin/self");
    assert_eq!(
        copy.sandbox_runner.runtime_paths.codex_linux_sandbox_exe.as_deref(),
        Some("/bin/sandbox")
    );
    assert_eq!(copy.scoped_runner_id, RunnerId { value: 7 });
}

#[test]
fn helper_serves_copies_and_no_other_file_system() {
    let mut ids = RunnerIds::new();
    let owner = SandboxedFileSystem::new_issued(runtime_paths(), &mut ids).unwrap();
    let other = SandboxedFileSystem::new_issued(runtime_paths(), &mut ids).unwrap();
    assert_eq!(owner.sandbox_runner.runtime_paths.codex_self_exe, "/bin/self");
    let copy = owner.clone();
    assert!(owner.helper_key(&sandbox(true)).same_key(&copy.helper_key(&sandbox(true))));
    assert!(!owner.helper_key(&sandbox(true)).same_key(&other.helper_key(&sandbox(true))));

    let mut scope = HelperScope::new();
    assert_eq!(owner.run_sandboxed(None, &sandbox(true)), HelperRoute::OneShot);
    assert_eq!(owner.run_sandboxed(Some(&scope), &sandbox(true)), HelperRoute::Start);
    let pipes = HelperPipes { has_stdin: true, has_stdout: true };
    scope.start(owner.helper_key(&sandbox(true)), Ok(pipes)).unwrap();
    assert_eq!(owner.run_sandboxed(Some(&scope), &sandbox(true)), HelperRoute::Installed);
    assert_eq!(copy.run_sandboxed(Some(&scope), &sandbox(true)), HelperRoute::Installed);
    assert_eq!(other.run_sandboxed(Some(&scope), &sandbox(true)), HelperRoute::OneShot);
    assert_eq!(copy.run_sandboxed(Some(&scope), &sandbox(false)), HelperRoute::OneShot);
}

#[test]
fn identities_are_issued_once() {
    let mut ids = RunnerIds { next: usize::MAX - 1 };
    assert_eq!(ids.issue(), Some(RunnerId { value: usize::MAX - 1 }));
    assert_eq!(ids.issue(), None);
    assert_eq!(ids.issue(), None);
    assert!(SandboxedFileSystem::new_issued(runtime_paths(), &mut ids).is_none());
}

#[test]
fn operations_need_a_sandbox_and_then_a_native_path() {
    let inside = sandbox(true);
    let outside = sandbox(false);
    let text = "sandboxed filesystem operations require ReadOnly or WorkspaceWrite sandbox policy";
    for context in [None, Some(&outside)] {
        let error = SandboxedFileSystem::canonicalize(&foreign_path(), context)
            .map(|_| ())
            .unwrap_err();
        assert_eq!(error.kind, ErrorKind::InvalidInput);
        assert_eq!(error.message, text);
        assert_eq!(require_platform_sandbox(context).map(|_| ()).unwrap_err().message, text);
    }
    let error =
        SandboxedFileSystem::canonicalize(&foreign_path(), Some(&inside)).map(|_| ()).unwrap_err();
    assert_eq!(error.message, "not a path of this host");
    assert!(validate_native_path(&path("a")).is_ok());
    assert!(validate_native_path(&foreign_path()).is_err());

    let a = path("a");
    let options = CopyOptions { recursive: true };
    let second = SandboxedFileSystem::copy(&a, &foreign_path(), options, Some(&inside))
        .map(|_| ())
        .unwrap_err();
    assert_eq!(second.message, "not a path of this host");
    assert!(SandboxedFileSystem::open_file_for_read(&a, Some(&inside)).is_ok());
    assert!(SandboxedFileSystem::open_file_for_read(&a, None).is_err());
}

#[test]
fn requests_carry_what_was_asked() {
    let inside = sandbox(true);
    let a = path("a");
    let b = path("b");

    let call = SandboxedFileSystem::read_file(
        &a,
        ReadFileOptions { follow_symlinks: false },
        Some(&inside),
    )
    .unwrap();
    assert_eq!(call.sandbox.settings, "workspace-write");
    assert_eq!(fs_helper_operation(&call.request), "fs/readFile");
    match call.request {
        FsHelperRequest::ReadFile(params) => {
            assert!(params.path.same_uri(&a));
            assert_eq!(params.follow_symlinks, Some(false));
            assert!(params.sandbox.is_none());
        }
        other => panic!("unexpected request {other:?}"),
    }

    let call = SandboxedFileSystem::get_metadata(
        &a,
        GetMetadataOptions { follow_symlinks: true },
        Some(&inside),
    )
    .unwrap();
    match call.request {
        FsHelperRequest::GetMetadata(params) => assert_eq!(params.follow_symlinks, None),
        other => panic!("unexpected request {other:?}"),
    }

    let call = SandboxedFileSystem::remove(
        &a,
        RemoveOptions { recursive: true, force: false, follow_symlinks: false },
        Some(&inside),
    )
    .unwrap();
    assert_eq!(fs_helper_operation(&call.request), "fs/remove");
    match call.request {
        FsHelperRequest::Remove(params) => {
            assert_eq!(params.recursive, Some(true));
            assert_eq!(params.force, Some(false));
            assert_eq!(params.follow_symlinks, Some(false));
        }
        other => panic!("unexpected request {other:?}"),
    }

    let call = SandboxedFileSystem::create_directory(
        &a,
        CreateDirectoryOptions { recursive: true, follow_symlinks: true },
        Some(&inside),
    )
    .unwrap();
    assert_eq!(fs_helper_operation(&call.request), "fs/createDirectory");
    match call.request {
        FsHelperRequest::CreateDirectory(params) => {
            assert_eq!(params.recursive, Some(true));
            assert_eq!(params.follow_symlinks, None);
        }
        other => panic!("unexpected request {other:?}"),
    }

    let call =
        SandboxedFileSystem::copy(&a, &b, CopyOptions { recursive: true }, Some(&inside)).unwrap();
    match call.request {
        FsHelperRequest::Copy(params) => {
            assert!(params.source_path.same_uri(&a));
            assert!(params.destination_path.same_uri(&b));
            assert!(params.recursive);
        }
        other => panic!("unexpected request {other:?}"),
    }

    let call = SandboxedFileSystem::walk(
        &a,
        WalkOptions { encoded: "{}".to_string() },
        Some(&inside),
    )
    .unwrap();
    assert_eq!(fs_helper_operation(&call.request), "fs/walk");
    let call = SandboxedFileSystem::read_directory(&a, Some(&inside)).unwrap();
    assert_eq!(fs_helper_operation(&call.request), "fs/readDirectory");
    let call = SandboxedFileSystem::canonicalize(&a, Some(&inside)).unwrap();
    assert_eq!(fs_helper_operation(&call.request), "fs/canonicalize");
    let params = CapabilityRootsDiscoverParams { encoded: "[]".to_string() };
    let call = SandboxedFileSystem::discover_capability_roots(params, &inside);
    assert_eq!(fs_helper_operation(&call.request), "capabilityRoots/discover");
}

#[test]
fn written_contents_read_back() {
    let inside = sandbox(true);
    let a = path("a");
    for contents in [b"".to_vec(), b"f".to_vec(), b"foobar".to_vec(), vec![0, 255, 128, 10]] {
        let call = SandboxedFileSystem::write_file(
            &a,
            contents.clone(),
            WriteFileOptions { follow_symlinks: true },
            Some(&inside),
        )
        .unwrap();
        let data_base64 = match call.request {
            FsHelperRequest::WriteFile(params) => params.data_base64,
            other => panic!("unexpected request {other:?}"),
        };
        let read =
            SandboxedFileSystem::finish_read_file(Ok(FsHelperPayload::ReadFile { data_base64 }));
        assert_eq!(read.unwrap(), contents);
    }

    let call = SandboxedFileSystem::write_file(
        &a,
        b"foobar!".to_vec(),
        WriteFileOptions { follow_symlinks: false },
        Some(&inside),
    )
    .unwrap();
    match call.request {
        FsHelperRequest::WriteFile(params) => {
            assert_eq!(params.data_base64, "Zm9vYmFyIQ==");
            assert_eq!(params.follow_symlinks, Some(false));
        }
        other => panic!("unexpected request {other:?}"),
    }
}

#[test]
fn contents_that_are_no_base64_are_invalid_data() {
    let error = SandboxedFileSystem::finish_read_file(Ok(FsHelperPayload::ReadFile {
        data_base64: "not base64!".to_string(),
    }))
    .unwrap_err();
    assert_eq!(error.kind, ErrorKind::InvalidData);
    let prefix = "fs/readFile returned invalid base64 dataBase64: ";
    assert!(error.message.starts_with(prefix));
    assert!(error.message.len() > prefix.len());

    let error = decoded_contents(Err("broken".to_string())).unwrap_err();
    assert_eq!(error.message, "fs/readFile returned invalid base64 dataBase64: broken");
    assert_eq!(decoded_contents(Ok(vec![1, 2])).unwrap(), vec![1, 2]);
}

#[test]
fn answers_are_taken_apart() {
    let metadata = SandboxedFileSystem::finish_get_metadata(Ok(FsHelperPayload::GetMetadata {
        is_directory: false,
        is_file: true,
        is_symlink: true,
        size: 7,
        created_at_ms: 1,
        modified_at_ms: 2,
    }))
    .unwrap();
    assert!(metadata.is_file && metadata.is_symlink && !metadata.is_directory);
    assert_eq!((metadata.size, metadata.created_at_ms, metadata.modified_at_ms), (7, 1, 2));

    let entries = SandboxedFileSystem::finish_read_directory(Ok(FsHelperPayload::ReadDirectory {
        entries: vec![ReadDirectoryEntry {
            file_name: "a".to_string(),
            is_directory: false,
            is_file: true,
        }],
    }))
    .unwrap();
    assert_eq!(entries.len(), 1);
    assert_eq!(entries[0].file_name, "a");

    let found =
        SandboxedFileSystem::finish_canonicalize(Ok(FsHelperPayload::Canonicalize { path: path("a") }))
            .unwrap();
    assert!(found.same_uri(&path("a")));
    let walked = SandboxedFileSystem::finish_walk(Ok(FsHelperPayload::Walk(WalkOutcome {
        encoded: "[]".to_string(),
    })));
    assert_eq!(walked.unwrap().encoded, "[]");
    let roots = SandboxedFileSystem::finish_discover_capability_roots(Ok(
        FsHelperPayload::DiscoverCapabilityRoots(CapabilityRootsDiscoverResponse {
            encoded: "{}".to_string(),
        }),
    ));
    assert_eq!(roots.unwrap().encoded, "{}");
    assert!(SandboxedFileSystem::finish_write_file(Ok(FsHelperPayload::WriteFile)).is_ok());
    assert!(SandboxedFileSystem::finish_create_directory(Ok(FsHelperPayload::CreateDirectory)).is_ok());
    assert!(SandboxedFileSystem::finish_remove(Ok(FsHelperPayload::Remove)).is_ok());
    assert!(SandboxedFileSystem::finish_copy(Ok(FsHelperPayload::Copy)).is_ok());
}

#[test]
fn answers_to_something_else_are_failures() {
    let error = SandboxedFileSystem::finish_copy(Ok(FsHelperPayload::Remove)).unwrap_err();
    assert_eq!(error.kind, ErrorKind::Other);
    assert_eq!(
        error.message,
        "unexpected fs sandbox helper response: expected fs/copy, got fs/remove"
    );
    let passed_on =
        SandboxedFileSystem::finish_copy(Err(IoError::new(ErrorKind::NotFound, "gone"))).unwrap_err();
    assert_eq!(passed_on.kind, ErrorKind::NotFound);
    assert_eq!(passed_on.message, "gone");
}

#[test]
fn codes_stand_for_kinds() {
    let kind = |code| map_sandbox_error(JSONRPCErrorError { code, message: "m".to_string() }).kind;
    assert_eq!(kind(-32004), ErrorKind::NotFound);
    assert_eq!(kind(-32600), ErrorKind::InvalidInput);
    assert_eq!(kind(-32603), ErrorKind::Other);
    assert_eq!(kind(0), ErrorKind::Other);
}
