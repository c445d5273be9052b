use std::collections::BTreeMap;

use patch_batch::batch::{mutate_batch_on, BatchStep};
use patch_batch::error::{ErrorKind, IoError};
use patch_batch::file_system::{FileMetadata, FsReply, FsRequest};
use patch_batch::mutation::{
    BatchLimits, FileMutation, FileMutationBatch, FileMutationBatchOutcome, FilePreimage,
};
use patch_batch::patch::{
    AffectedPaths, AppliedPatchDelta, AppliedPatchFileChange, ApplyPatchError,
    ApplyPatchFileChange, FileChanges, FileUpdate, Hunk, HunkOperation, RepeatedSourcePaths,
};
use patch_batch::path::{NativePath, PathUri};
use patch_batch::prepared::{
    prepare_hunks, Patch, PrepareReply, PrepareRequest, PrepareStep, PreparedAction,
};
use patch_batch::report::{conclude_batch, falls_back_to_sequential, print_summary};
use patch_batch::sequential::{fall_back, mutate_one_by_one, SequenceStep};

const LIMITS: BatchLimits = BatchLimits { max_operations: 128, max_decoded_bytes: 1 << 20 };

#[derive(Clone, Debug, PartialEq)]
enum Node {
    Directory { made: i64 },
    File { bytes: Vec<u8>, made: i64 },
    Link(Vec<String>),
}

/// A filesystem in memory, which can be told to fail.
#[derive(Clone, Debug)]
struct MemFs {
    nodes: BTreeMap<Vec<String>, Node>,
    clock: i64,
    write_calls: usize,
    remove_calls: usize,
    fail_write_call: Option<usize>,
    fail_remove: bool,
    requests: Vec<String>,
}

fn parts(path: &str) -> Vec<String> {
    path.split('/').filter(|part| !part.is_empty()).map(|part| part.to_string()).collect()
}

fn path_uri(path: &str) -> PathUri {
    PathUri {
        uri: format!("file://{path}"),
        display: path.to_string(),
        native: Ok(NativePath {
            root: "/".to_string(),
            separator: "/".to_string(),
            components: parts(path),
        }),
    }
}

impl MemFs {
    fn new() -> Self {
        let mut fs = MemFs {
            nodes: BTreeMap::new(),
            clock: 0,
            write_calls: 0,
            remove_calls: 0,
            fail_write_call: None,
            fail_remove: false,
            requests: Vec::new(),
        };
        fs.make_dir("/work");
        fs
    }

    fn tick(&mut self) -> i64 {
        self.clock += 1;
        self.clock
    }

    fn make_dir(&mut self, path: &str) {
        let made = self.tick();
        self.nodes.insert(parts(path), Node::Directory { made });
    }

    fn put(&mut self, path: &str, bytes: &[u8]) {
        let made = self.tick();
        self.nodes.insert(parts(path), Node::File { bytes: bytes.to_vec(), made });
    }

    fn link(&mut self, target: &str, path: &str) {
        self.nodes.insert(parts(path), Node::Link(parts(target)));
    }

    fn read(&self, path: &str) -> Vec<u8> {
        match self.nodes.get(&parts(path)) {
            Some(Node::File { bytes, .. }) => bytes.clone(),
            other => panic!("no file at {path}: {other:?}"),
        }
    }

    fn is_there(&self, path: &str) -> bool {
        self.nodes.contains_key(&parts(path))
    }

    fn resolve(&self, place: &[String], follow: bool) -> Result<Vec<String>, IoError> {
        let mut current: Vec<String> = Vec::new();
        for (index, name) in place.iter().enumerate() {
            let mut next = current.clone();
            next.push(name.clone());
            current = match self.nodes.get(&next) {
                Some(Node::Link(_)) if !follow && index + 1 == place.len() => next,
                Some(Node::Link(_)) if !follow => {
                    return Err(IoError::other("path goes through a link"));
                }
                Some(Node::Link(target)) => self.resolve(target, true)?,
                _ => next,
            };
        }
        Ok(current)
    }

    fn is_directory(&self, place: &[String]) -> bool {
        place.is_empty() || matches!(self.nodes.get(place), Some(Node::Directory { .. }))
    }

    fn metadata(&self, place: &[String], follow: bool) -> Result<FileMetadata, IoError> {
        let is_link = matches!(self.nodes.get(place), Some(Node::Link(_)));
        let at = self.resolve(place, follow)?;
        let (is_directory, is_file, size, made) = match self.nodes.get(&at) {
            _ if at.is_empty() => (true, false, 0, 0),
            Some(Node::Directory { made }) => (true, false, 0, *made),
            Some(Node::File { bytes, made }) => (false, true, bytes.len() as u64, *made),
            Some(Node::Link(_)) => (false, false, 0, 0),
            None => return Err(IoError::new(ErrorKind::NotFound, "no such file")),
        };
        Ok(FileMetadata {
            is_directory,
            is_file,
            is_symlink: is_link,
            size,
            created_at_ms: made,
            modified_at_ms: made,
        })
    }

    fn contents(&self, place: &[String], follow: bool) -> Result<Vec<u8>, IoError> {
        match self.nodes.get(&self.resolve(place, follow)?) {
            Some(Node::File { bytes, .. }) => Ok(bytes.clone()),
            Some(_) => Err(IoError::new(ErrorKind::InvalidInput, "not a regular file")),
            None => Err(IoError::new(ErrorKind::NotFound, "no such file")),
        }
    }

    fn write(&mut self, place: &[String], bytes: &[u8], follow: bool) -> Result<(), IoError> {
        self.write_calls += 1;
        if self.fail_write_call == Some(self.write_calls) {
            return Err(IoError::other("injected write failure"));
        }
        let at = self.resolve(place, follow)?;
        if !self.is_directory(&at[..at.len() - 1]) {
            return Err(IoError::new(ErrorKind::NotFound, "no such directory"));
        }
        let made = self.tick();
        self.nodes.insert(at, Node::File { bytes: bytes.to_vec(), made });
        Ok(())
    }

    fn remove(&mut self, place: &[String]) -> Result<(), IoError> {
        self.remove_calls += 1;
        if self.fail_remove {
            return Err(IoError::other("injected remove failure"));
        }
        if self.nodes.keys().any(|key| key.len() > place.len() && key.starts_with(place)) {
            return Err(IoError::other("directory not empty"));
        }
        match self.nodes.remove(place) {
            Some(_) => Ok(()),
            None => Err(IoError::new(ErrorKind::NotFound, "no such file")),
        }
    }

    fn create_directory(&mut self, place: &[String]) -> Result<(), IoError> {
        if self.nodes.contains_key(place) || place.is_empty() {
            return Err(IoError::new(ErrorKind::AlreadyExists, "already there"));
        }
        if !self.is_directory(&place[..place.len() - 1]) {
            return Err(IoError::new(ErrorKind::NotFound, "no such directory"));
        }
        let made = self.tick();
        self.nodes.insert(place.to_vec(), Node::Directory { made });
        Ok(())
    }

    fn serve(&mut self, request: FsRequest<'_>) -> FsReply {
        let at = match request {
            FsRequest::GetMetadata { at, .. } => at,
            FsRequest::ReadFile { at, .. } => at,
            FsRequest::WriteFile { at, .. } => at,
            FsRequest::Remove { at, .. } => at,
            FsRequest::CreateDirectory { at, .. } => at,
        };
        let names = &at.path.native.as_ref().unwrap().components;
        let place: Vec<String> = names[..names.len() - at.levels].to_vec();
        let text = place.join("/");
        match request {
            FsRequest::GetMetadata { follow_symlinks, .. } => {
                self.requests.push(format!("metadata /{text}"));
                FsReply::Metadata(self.metadata(&place, follow_symlinks))
            }
            FsRequest::ReadFile { follow_symlinks, .. } => {
                self.requests.push(format!("read /{text}"));
                FsReply::Contents(self.contents(&place, follow_symlinks))
            }
            FsRequest::WriteFile { contents, follow_symlinks, .. } => {
                self.requests.push(format!("write /{text}"));
                FsReply::Done(self.write(&place, contents, follow_symlinks))
            }
            FsRequest::Remove { recursive, force, .. } => {
                assert!(!recursive && !force);
                self.requests.push(format!("remove /{text}"));
                FsReply::Done(self.remove(&place))
            }
            FsRequest::CreateDirectory { recursive: true, .. } => {
                self.requests.push(format!("mkdir all /{text}"));
                for depth in 1..=place.len() {
                    if !self.is_directory(&place[..depth]) {
                        if let Err(error) = self.create_directory(&place[..depth]) {
                            return FsReply::Done(Err(error));
                        }
                    }
                }
                FsReply::Done(Ok(()))
            }
            FsRequest::CreateDirectory { recursive: false, .. } => {
                self.requests.push(format!("mkdir /{text}"));
                FsReply::Done(self.create_directory(&place))
            }
        }
    }
}

/// One line that a hunk replaces by another.
type Lines = (&'static str, &'static str);

fn resolved(path: &str) -> Result<PathUri, ApplyPatchError> {
    Ok(path_uri(&format!("/work/{path}")))
}

fn add(path: &str, contents: &str) -> Hunk {
    Hunk {
        path: path.to_string(),
        source: resolved(path),
        operation: HunkOperation::AddFile { contents: contents.to_string() },
    }
}

fn delete(path: &str) -> Hunk {
    Hunk {
        path: path.to_string(),
        source: resolved(path),
        operation: HunkOperation::DeleteFile,
    }
}

fn update(path: &str, destination: Option<&str>) -> Hunk {
    Hunk {
        path: path.to_string(),
        source: resolved(path),
        operation: HunkOperation::UpdateFile { destination: destination.map(resolved) },
    }
}

fn patch(hunks: Vec<Hunk>) -> Patch {
    Patch { hunks, repeated_source_paths: RepeatedSourcePaths::Allow, follow_symlinks: true }
}

fn updated(original: &str, (old, new): Lines) -> Result<FileUpdate, ApplyPatchError> {
    if !original.contains(old) {
        return Err(ApplyPatchError::Unresolved(format!("no line {old:?}")));
    }
    Ok(FileUpdate {
        original_content: original.to_string(),
        unified_diff: format!("-{old}+{new}"),
        content: original.replace(old, new),
    })
}

fn prepare(
    fs: &mut MemFs,
    patch: Patch,
    lines: &[Lines],
) -> Result<PreparedAction, ApplyPatchError> {
    let mut lines = lines.iter();
    let mut step = prepare_hunks(patch);
    loop {
        match step {
            PrepareStep::Pending(state) => {
                let reply = match state.request() {
                    PrepareRequest::Fs(request) => PrepareReply::Fs(fs.serve(request)),
                    PrepareRequest::Update { original, .. } => PrepareReply::Updated(updated(
                        original,
                        *lines.next().expect("lines for the hunk"),
                    )),
                };
                step = state.resume(reply);
            }
            PrepareStep::Done(result) => return result,
        }
    }
}

fn run_batch(
    fs: &mut MemFs,
    batch: patch_batch::mutation::FileMutationBatch,
) -> FileMutationBatchOutcome {
    let mut step = mutate_batch_on(batch, LIMITS);
    loop {
        match step {
            BatchStep::Pending(state) => {
                let reply = fs.serve(state.request());
                step = state.resume(reply);
            }
            BatchStep::Done(outcome) => return outcome,
        }
    }
}

fn run_one_by_one(fs: &mut MemFs, mut step: SequenceStep) -> FileMutationBatchOutcome {
    loop {
        match step {
            SequenceStep::Pending(state) => {
                let reply = fs.serve(state.request());
                step = state.resume(reply);
            }
            SequenceStep::Done(outcome) => return outcome,
        }
    }
}

fn io_failure(result: Result<PreparedAction, ApplyPatchError>) -> (String, ErrorKind, String) {
    match result {
        Err(ApplyPatchError::Io { context, source }) => (context, source.kind, source.message),
        other => panic!("expected a failure of the filesystem, got {other:?}"),
    }
}

#[test]
fn mutation_phase_uses_one_batch_request_for_multiple_files() {
    let mut fs = MemFs::new();
    fs.put("/work/modify.txt", b"line1\nline2\n");
    fs.put("/work/delete.txt", b"obsolete\n");
    let hunks = vec![
        add("nested/new.txt", "created\n"),
        delete("delete.txt"),
        update("modify.txt", None),
    ];

    let action = prepare(&mut fs, patch(hunks), &[("line2", "changed")])
        .expect("the patch can be prepared");
    assert_eq!(fs.write_calls, 0);
    assert_eq!(fs.remove_calls, 0);
    let prepared = action.prepared;
    assert_eq!(prepared.batch.mutations.len(), 3);
    let outcome = run_batch(&mut fs, prepared.batch);
    let delta = conclude_batch(&outcome, prepared.delta).expect("batch apply should succeed");

    assert!(delta.exact);
    assert_eq!(delta.changes.len(), 3);
    assert_eq!(fs.read("/work/nested/new.txt"), b"created\n");
    assert_eq!(fs.read("/work/modify.txt"), b"line1\nchanged\n");
    assert!(!fs.is_there("/work/delete.txt"));
    assert_eq!(
        print_summary(&prepared.affected),
        "Success. Updated the following files:\nA nested/new.txt\nM modify.txt\nD delete.txt\n"
    );
}

#[test]
fn unsupported_batch_falls_back_to_sequential_mutation() {
    let unsupported =
        IoError::new(ErrorKind::Unsupported, "test backend does not support batches");
    assert!(falls_back_to_sequential(&unsupported));
    assert!(!falls_back_to_sequential(&IoError::other("connection lost")));

    let mut fs = MemFs::new();
    fs.put("/work/file.txt", b"old\n");
    let action = prepare(&mut fs, patch(vec![update("file.txt", None)]), &[("old", "new")])
        .expect("the patch can be prepared");
    let step = fall_back(action.prepared.batch, &unsupported);
    let outcome = run_one_by_one(&mut fs, step);
    let delta = conclude_batch(&outcome, action.prepared.delta)
        .expect("legacy fallback should succeed");
    assert_eq!(fs.write_calls, 1);
    assert_eq!(fs.remove_calls, 0);
    assert!(delta.exact);
    assert_eq!(fs.read("/work/file.txt"), b"new\n");
}

#[test]
fn other_refusals_do_not_fall_back() {
    let mut fs = MemFs::new();
    fs.put("/work/file.txt", b"old\n");
    let action = prepare(&mut fs, patch(vec![update("file.txt", None)]), &[("old", "new")])
        .expect("the patch can be prepared");
    let step = fall_back(action.prepared.batch, &IoError::other("connection lost"));
    match run_one_by_one(&mut fs, step) {
        FileMutationBatchOutcome::Rejected { error } => assert_eq!(error, "connection lost"),
        other => panic!("unexpected outcome {other:?}"),
    }
    assert_eq!(fs.read("/work/file.txt"), b"old\n");
}

#[test]
fn one_by_one_makes_parents_and_removes() {
    let mut fs = MemFs::new();
    fs.put("/work/a.txt", b"one\n");
    let hunks = vec![update("a.txt", Some("x/y/b.txt"))];
    let action = prepare(&mut fs, patch(hunks), &[("one", "two")]).expect("it can be prepared");
    let before = fs.requests.len();
    let step = mutate_one_by_one(action.prepared.batch);
    let outcome = run_one_by_one(&mut fs, step);
    assert!(matches!(outcome, FileMutationBatchOutcome::Committed), "{outcome:?}");
    let mut asked = fs.requests[before..].to_vec();
    asked.sort();
    assert_eq!(asked, vec!["mkdir all /work/x/y", "remove /work/a.txt", "write /work/x/y/b.txt"]);
    assert_eq!(fs.read("/work/x/y/b.txt"), b"two\n");
    assert!(!fs.is_there("/work/a.txt"));
}

#[test]
fn one_by_one_names_the_files_up_to_the_failed_one() {
    let mut fs = MemFs::new();
    fs.fail_write_call = Some(2);
    let hunks = vec![add("a.txt", "a"), add("b.txt", "b"), add("c.txt", "c")];
    let action = prepare(&mut fs, patch(hunks), &[]).expect("it can be prepared");
    let step = mutate_one_by_one(action.prepared.batch);
    match run_one_by_one(&mut fs, step) {
        FileMutationBatchOutcome::Indeterminate { error, possibly_mutated_paths } => {
            assert_eq!(error, "injected write failure");
            let named: Vec<&str> =
                possibly_mutated_paths.iter().map(|path| path.display.as_str()).collect();
            assert_eq!(named, vec!["/work/a.txt", "/work/b.txt"]);
        }
        other => panic!("unexpected outcome {other:?}"),
    }
    assert_eq!(fs.read("/work/a.txt"), b"a");
    assert!(!fs.is_there("/work/c.txt"));

    let foreign = PathUri {
        uri: "file:///c:/x".to_string(),
        display: "C:\\x".to_string(),
        native: Err(IoError::new(ErrorKind::InvalidInput, "not a path of this host")),
    };
    let batch = FileMutationBatch {
        mutations: vec![FileMutation::Remove { path: foreign, expected: Vec::new() }],
        follow_symlinks: true,
    };
    match mutate_one_by_one(batch) {
        SequenceStep::Done(FileMutationBatchOutcome::Indeterminate {
            error,
            possibly_mutated_paths,
        }) => {
            assert_eq!(error, "not a path of this host");
            assert_eq!(possibly_mutated_paths.len(), 1);
        }
        other => panic!("unexpected step {other:?}"),
    }
}

#[test]
fn failed_read_keeps_its_kind() {
    for kind in [ErrorKind::TimedOut, ErrorKind::Interrupted, ErrorKind::Uncategorized] {
        let state = match prepare_hunks(patch(vec![update("a.txt", None)])) {
            PrepareStep::Pending(state) => state,
            other => panic!("unexpected step {other:?}"),
        };
        let reply = PrepareReply::Fs(FsReply::Contents(Err(IoError::new(kind, "no luck"))));
        let result = match state.resume(reply) {
            PrepareStep::Done(result) => result,
            other => panic!("unexpected step {other:?}"),
        };
        assert_eq!(
            io_failure(result),
            ("Failed to read /work/a.txt".to_string(), kind, "no luck".to_string())
        );
    }
}

#[test]
fn without_links_followed_a_file_is_not_looked_at_again() {
    let mut fs = MemFs::new();
    fs.put("/work/a.txt", b"one\n");
    fs.put("/work/b.txt", b"two\n");
    let no_follow = Patch {
        hunks: vec![update("a.txt", Some("b.txt"))],
        repeated_source_paths: RepeatedSourcePaths::Allow,
        follow_symlinks: false,
    };
    let action = prepare(&mut fs, no_follow, &[("one", "three")]).expect("it can be prepared");
    assert_eq!(fs.requests, vec!["read /work/a.txt", "read /work/b.txt"]);
    assert!(action.prepared.delta.exact);
}

#[test]
fn rejected_and_rolled_back_batches_report_no_committed_delta() {
    for outcome in [
        FileMutationBatchOutcome::Rejected { error: "stale preimage".to_string() },
        FileMutationBatchOutcome::RolledBack { error: "write failed".to_string() },
    ] {
        let mut fs = MemFs::new();
        fs.put("/work/file.txt", b"old\n");
        let action = prepare(&mut fs, patch(vec![update("file.txt", None)]), &[("old", "new")])
            .expect("the patch can be prepared");
        assert_eq!(action.prepared.delta.changes.len(), 1);

        let failure = conclude_batch(&outcome, action.prepared.delta).expect_err("batch should fail");
        assert!(failure.delta.exact);
        assert!(failure.delta.changes.is_empty());
        assert!(!failure.indeterminate);
        assert!(!failure.message.is_empty());
        assert_eq!(fs.read("/work/file.txt"), b"old\n");
    }
}

#[test]
fn indeterminate_batch_marks_possibly_mutated_delta_inexact() {
    let mut fs = MemFs::new();
    let outcome = FileMutationBatchOutcome::Indeterminate {
        error: "connection lost".to_string(),
        possibly_mutated_paths: vec![path_uri("/work/new.txt")],
    };
    let action = prepare(&mut fs, patch(vec![add("new.txt", "new\n")]), &[])
        .expect("the patch can be prepared");

    let failure = conclude_batch(&outcome, action.prepared.delta)
        .expect_err("batch should be indeterminate");
    assert!(failure.indeterminate);
    assert!(!failure.delta.exact);
    assert_eq!(failure.delta.changes.len(), 1);
    assert!(failure.message.contains("indeterminate state"));
}

#[test]
fn net_no_op_is_sent_as_an_empty_batch_without_writes() {
    let mut fs = MemFs::new();
    fs.put("/work/same.txt", b"same\n");
    let action = prepare(&mut fs, patch(vec![add("same.txt", "same\n")]), &[])
        .expect("the patch can be prepared");
    assert!(action.prepared.batch.mutations.is_empty());
    let outcome = run_batch(&mut fs, action.prepared.batch);
    let delta = conclude_batch(&outcome, action.prepared.delta).expect("no-op batch should succeed");
    assert_eq!(fs.write_calls, 0);
    assert_eq!(fs.read("/work/same.txt"), b"same\n");
    assert!(delta.exact);
}

#[test]
fn preparation_uses_runtime_follow_symlinks_and_preserves_delta_exactness() {
    let mut fs = MemFs::new();
    fs.put("/work/real.txt", b"old\n");
    fs.link("/work/real.txt", "/work/link.txt");

    let no_follow = Patch {
        hunks: vec![update("link.txt", None)],
        repeated_source_paths: RepeatedSourcePaths::Allow,
        follow_symlinks: false,
    };
    let failure = prepare(&mut fs, no_follow, &[("old", "new")]);
    assert!(failure.is_err(), "no-follow preparation should reject the symlink");
    assert_eq!(fs.read("/work/real.txt"), b"old\n");

    let follow = Patch {
        hunks: vec![update("link.txt", None)],
        repeated_source_paths: RepeatedSourcePaths::Allow,
        follow_symlinks: true,
    };
    let action = prepare(&mut fs, follow, &[("old", "new")])
        .expect("follow-symlinks mode should keep the supported behavior");
    assert!(action.prepared.batch.follow_symlinks);
    let outcome = run_batch(&mut fs, action.prepared.batch);
    let delta = conclude_batch(&outcome, action.prepared.delta).expect("the batch commits");
    assert!(!delta.exact);
    assert_eq!(fs.read("/work/real.txt"), b"new\n");
}

#[test]
fn hunks_see_what_earlier_hunks_did() {
    let mut fs = MemFs::new();
    fs.put("/work/a.txt", b"one\n");
    let hunks = vec![
        update("a.txt", None),
        update("a.txt", Some("b.txt")),
        add("a.txt", "fresh\n"),
        add("c.txt", "gone\n"),
        delete("c.txt"),
    ];
    let action = prepare(&mut fs, patch(hunks), &[("one", "two"), ("two", "three")])
        .expect("the patch can be prepared");
    let prepared = action.prepared;

    // One mutation for each file that is not as it was, in the order in which they were read.
    assert_eq!(prepared.batch.mutations.len(), 2);
    match &prepared.batch.mutations[0] {
        FileMutation::Write { path, expected: FilePreimage::Exact(expected), contents } => {
            assert!(path.same_uri(&path_uri("/work/a.txt")));
            assert_eq!(expected, b"one\n");
            assert_eq!(contents, b"fresh\n");
        }
        other => panic!("unexpected mutation {other:?}"),
    }
    match &prepared.batch.mutations[1] {
        FileMutation::Write { path, expected: FilePreimage::Missing, contents } => {
            assert!(path.same_uri(&path_uri("/work/b.txt")));
            assert_eq!(contents, b"three\n");
        }
        other => panic!("unexpected mutation {other:?}"),
    }
    assert!(prepared.delta.exact);
    assert_eq!(prepared.delta.changes.len(), 5);
    assert_eq!(prepared.affected.added, vec!["a.txt", "c.txt"]);
    assert_eq!(prepared.affected.modified, vec!["a.txt", "a.txt"]);
    assert_eq!(prepared.affected.deleted, vec!["c.txt"]);

    // The last change to a path is the one that counts.
    match action.changes.get(&path_uri("/work/a.txt")) {
        Some(ApplyPatchFileChange::Add { content }) => assert_eq!(content, "fresh\n"),
        other => panic!("unexpected change {other:?}"),
    }
    assert!(action.changes.get(&path_uri("/work/b.txt")).is_none());
}

fn undo(files: &mut BTreeMap<String, Vec<u8>>, delta: &AppliedPatchDelta) {
    let mut set = |path: &PathUri, text: Option<&String>| {
        match text {
            Some(text) => files.insert(path.uri.clone(), text.clone().into_bytes()),
            None => files.remove(&path.uri),
        };
    };
    for applied in delta.changes.iter().rev() {
        match &applied.change {
            AppliedPatchFileChange::Add { overwritten_content, .. } => {
                set(&applied.path, overwritten_content.as_ref());
            }
            AppliedPatchFileChange::Delete { content } => set(&applied.path, Some(content)),
            AppliedPatchFileChange::Update {
                move_path, old_content, overwritten_move_content, ..
            } => {
                if let Some(destination) = move_path {
                    set(destination, overwritten_move_content.as_ref());
                }
                set(&applied.path, Some(old_content));
            }
        }
    }
}

#[test]
fn an_exact_delta_undoes_the_patch() {
    let mut fs = MemFs::new();
    fs.put("/work/a.txt", b"one\n");
    fs.put("/work/b.txt", b"overwritten\n");
    fs.put("/work/c.txt", b"deleted\n");
    let files = |fs: &MemFs| -> BTreeMap<String, Vec<u8>> {
        fs.nodes
            .iter()
            .filter_map(|(place, node)| match node {
                Node::File { bytes, .. } => {
                    Some((path_uri(&format!("/{}", place.join("/"))).uri, bytes.clone()))
                }
                _ => None,
            })
            .collect()
    };
    let before = files(&fs);
    let hunks = vec![
        update("a.txt", Some("b.txt")),
        delete("c.txt"),
        add("c.txt", "again\n"),
        add("d.txt", "new\n"),
    ];
    let action =
        prepare(&mut fs, patch(hunks), &[("one", "two")]).expect("the patch can be prepared");
    let outcome = run_batch(&mut fs, action.prepared.batch);
    assert!(matches!(outcome, FileMutationBatchOutcome::Committed));
    let mut after = files(&fs);
    assert_ne!(after, before);
    assert!(action.prepared.delta.exact);
    undo(&mut after, &action.prepared.delta);
    assert_eq!(after, before);
}

#[test]
fn what_is_no_text_makes_the_delta_inexact() {
    let mut fs = MemFs::new();
    fs.put("/work/binary", &[0xff, 0xfe]);
    let action = prepare(&mut fs, patch(vec![delete("binary")]), &[])
        .expect("the patch can be prepared");
    assert!(!action.prepared.delta.exact);
    assert!(action.prepared.delta.changes.is_empty());
    match action.changes.get(&path_uri("/work/binary")) {
        Some(ApplyPatchFileChange::Delete { content }) => assert_eq!(content, ""),
        other => panic!("unexpected change {other:?}"),
    }
    assert_eq!(action.prepared.batch.mutations.len(), 1);

    let action = prepare(&mut fs, patch(vec![add("binary", "text\n")]), &[])
        .expect("the patch can be prepared");
    assert!(!action.prepared.delta.exact);
    assert_eq!(action.prepared.delta.changes.len(), 1);

    let (context, kind, message) =
        io_failure(prepare(&mut fs, patch(vec![update("binary", None)]), &[]));
    assert_eq!(context, "Failed to read file to update /work/binary");
    assert_eq!(kind, ErrorKind::InvalidData);
    assert_eq!(message, String::from_utf8(vec![0xff, 0xfe]).unwrap_err().to_string());
}

#[test]
fn each_failure_has_its_text() {
    let mut fs = MemFs::new();
    fs.put("/work/a.txt", b"one\n");
    fs.make_dir("/work/directory");

    let reject = |hunks| Patch {
        hunks,
        repeated_source_paths: RepeatedSourcePaths::Reject,
        follow_symlinks: true,
    };
    match prepare(&mut fs, reject(vec![add("b", "x"), delete("b")]), &[]) {
        Err(ApplyPatchError::InvalidPatch(message)) => {
            assert_eq!(message, "multiple operations target /work/b");
        }
        other => panic!("unexpected result {other:?}"),
    }
    assert!(prepare(&mut fs, patch(vec![add("b", "x"), delete("b")]), &[]).is_ok());

    match prepare(&mut fs, patch(vec![update("a.txt", Some("a.txt"))]), &[("one", "two")]) {
        Err(ApplyPatchError::InvalidPatch(message)) => {
            assert_eq!(message, "move destination is the same as source /work/a.txt");
        }
        other => panic!("unexpected result {other:?}"),
    }

    assert_eq!(
        io_failure(prepare(&mut fs, patch(vec![delete("missing")]), &[])),
        (
            "Failed to read file to delete /work/missing".to_string(),
            ErrorKind::NotFound,
            "no such file".to_string()
        )
    );
    assert_eq!(
        io_failure(prepare(&mut fs, patch(vec![delete("a.txt"), update("a.txt", None)]), &[])),
        (
            "Failed to read file to update /work/a.txt".to_string(),
            ErrorKind::NotFound,
            "entity not found".to_string()
        )
    );
    assert_eq!(
        io_failure(prepare(&mut fs, patch(vec![delete("directory")]), &[])),
        (
            "Failed to read /work/directory".to_string(),
            ErrorKind::InvalidInput,
            "not a regular file".to_string()
        )
    );
    assert_eq!(
        io_failure(prepare(
            &mut fs,
            patch(vec![update("a.txt", Some("directory"))]),
            &[("one", "two")]
        ))
        .0,
        "Failed to read /work/directory"
    );

    match prepare(&mut fs, patch(vec![update("a.txt", None)]), &[("absent", "x")]) {
        Err(ApplyPatchError::Unresolved(message)) => assert_eq!(message, "no line \"absent\""),
        other => panic!("unexpected result {other:?}"),
    }
    let unresolved = Hunk {
        path: "?".to_string(),
        source: Err(ApplyPatchError::Unresolved("no such path".to_string())),
        operation: HunkOperation::DeleteFile,
    };
    match prepare(&mut fs, patch(vec![unresolved]), &[]) {
        Err(ApplyPatchError::Unresolved(message)) => assert_eq!(message, "no such path"),
        other => panic!("unexpected result {other:?}"),
    }
    let unresolved = Hunk {
        path: "a.txt".to_string(),
        source: resolved("a.txt"),
        operation: HunkOperation::UpdateFile {
            destination: Some(Err(ApplyPatchError::Unresolved("no such place".to_string()))),
        },
    };
    match prepare(&mut fs, patch(vec![unresolved]), &[("one", "two")]) {
        Err(ApplyPatchError::Unresolved(message)) => assert_eq!(message, "no such place"),
        other => panic!("unexpected result {other:?}"),
    }
}

#[test]
fn files_are_read_once_and_only_read() {
    let mut fs = MemFs::new();
    fs.put("/work/a.txt", b"one\n");
    let hunks = vec![update("a.txt", Some("b.txt")), add("a.txt", "x"), update("b.txt", None)];
    prepare(&mut fs, patch(hunks), &[("one", "two"), ("two", "three")])
        .expect("the patch can be prepared");
    assert_eq!(
        fs.requests,
        vec!["read /work/a.txt", "metadata /work/a.txt", "read /work/b.txt"]
    );
}

#[test]
fn summary_of_nothing() {
    let affected = AffectedPaths { added: vec![], modified: vec![], deleted: vec![] };
    assert_eq!(print_summary(&affected), "Success. Updated the following files:\n");
}

#[test]
fn conclusions_have_their_texts() {
    let delta = || AppliedPatchDelta { exact: true, changes: Vec::new() };
    let message = |outcome| conclude_batch(&outcome, delta()).unwrap_err().message;
    assert_eq!(
        message(FileMutationBatchOutcome::Rejected { error: "x".to_string() }),
        "Filesystem mutations were rejected: x"
    );
    assert_eq!(
        message(FileMutationBatchOutcome::RolledBack { error: "x".to_string() }),
        "Filesystem mutations were rolled back: x"
    );
    assert_eq!(
        message(FileMutationBatchOutcome::Indeterminate {
            error: "x".to_string(),
            possibly_mutated_paths: vec![]
        }),
        "Filesystem mutations left an indeterminate state: x"
    );
}

#[test]
fn changes_keep_the_whole_path_of_their_key() {
    let path = PathUri {
        uri: "file:///work/a.txt".to_string(),
        display: "./a.txt".to_string(),
        native: Err(IoError::new(ErrorKind::InvalidInput, "not a path of this host")),
    };
    let mut changes = FileChanges::new();
    changes.insert(&path_uri("/work/b.txt"), ApplyPatchFileChange::Add { content: "b".to_string() });
    changes.insert(&path, ApplyPatchFileChange::Add { content: "a".to_string() });
    changes.insert(&path, ApplyPatchFileChange::Delete { content: "a".to_string() });
    assert_eq!(changes.entries.len(), 2);
    let (key, change) = &changes.entries[1];
    assert_eq!(key.display, "./a.txt");
    assert_eq!(key.native.as_ref().unwrap_err().message, "not a path of this host");
    assert!(matches!(change, ApplyPatchFileChange::Delete { content } if content == "a"));
    assert!(matches!(changes.get(&path), Some(ApplyPatchFileChange::Delete { .. })));
}
