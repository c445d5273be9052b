use std::collections::BTreeMap;

use patch_batch::apply::{apply_mutation, start_mutation, ApplyStep, MutationError};
use patch_batch::batch::{mutate_batch_on, BatchStep};
use patch_batch::error::{ErrorKind, IoError};
use patch_batch::file_system::{FileMetadata, FsReply, FsRequest};
use patch_batch::mutation::{
    expected_snapshot, mutation_payload_bytes, planned_expected, snapshot_from_expected,
    BatchLimits, FileMutation, FileMutationBatch, FileMutationBatchOutcome, FilePreimage,
};
use patch_batch::path::{NativePath, PathUri};
use patch_batch::preflight::{preflight_with_limits, Plan, PreflightStep};
use patch_batch::snapshot::Snapshot;

const LIMITS: BatchLimits = BatchLimits { max_operations: 128, max_decoded_bytes: 1 << 20 };

#[derive(Clone, Debug, PartialEq)]
enum Node {
    Directory { made: i64 },
    File { bytes: Vec<u8>, made: i64 },
    Link(Vec<String>),
}

/// A filesystem in memory, which can be told to fail.
#[derive(Clone, Debug)]
struct MemFs {
    nodes: BTreeMap<Vec<String>, Node>,
    /// Names with the same number are names of one file.
    shared: BTreeMap<Vec<String>, usize>,
    clock: i64,
    write_calls: usize,
    remove_calls: usize,
    fail_write_call: Option<usize>,
    fail_remove: bool,
    requests: Vec<String>,
}

fn parts(path: &str) -> Vec<String> {
    path.split('/').filter(|part| !part.is_empty()).map(|part| part.to_string()).collect()
}

fn path_uri(path: &str) -> PathUri {
    PathUri {
        uri: format!("file://{path}"),
        display: path.to_string(),
        native: Ok(NativePath {
            root: "/".to_string(),
            separator: "/".to_string(),
            components: parts(path),
        }),
    }
}

impl MemFs {
    fn new() -> Self {
        let mut fs = MemFs {
            nodes: BTreeMap::new(),
            shared: BTreeMap::new(),
            clock: 0,
            write_calls: 0,
            remove_calls: 0,
            fail_write_call: None,
            fail_remove: false,
            requests: Vec::new(),
        };
        fs.make_dir("/work");
        fs
    }

    fn tick(&mut self) -> i64 {
        self.clock += 1;
        self.clock
    }

    fn make_dir(&mut self, path: &str) {
        let made = self.tick();
        self.nodes.insert(parts(path), Node::Directory { made });
    }

    fn put(&mut self, path: &str, bytes: &[u8]) {
        let made = self.tick();
        self.nodes.insert(parts(path), Node::File { bytes: bytes.to_vec(), made });
    }

    fn link(&mut self, target: &str, path: &str) {
        self.nodes.insert(parts(path), Node::Link(parts(target)));
    }

    /// Gives the file at `path` another name.
    fn hard_link(&mut self, path: &str, name: &str) {
        let node = self.nodes.get(&parts(path)).expect("the file is there").clone();
        let number = self.shared.len();
        let number = *self.shared.entry(parts(path)).or_insert(number);
        self.shared.insert(parts(name), number);
        self.nodes.insert(parts(name), node);
    }

    fn read(&self, path: &str) -> Vec<u8> {
        match self.nodes.get(&parts(path)) {
            Some(Node::File { bytes, .. }) => bytes.clone(),
            other => panic!("no file at {path}: {other:?}"),
        }
    }

    fn is_there(&self, path: &str) -> bool {
        self.nodes.contains_key(&parts(path))
    }

    fn resolve(&self, place: &[String], follow: bool) -> Result<Vec<String>, IoError> {
        let mut current: Vec<String> = Vec::new();
        for (index, name) in place.iter().enumerate() {
            let mut next = current.clone();
            next.push(name.clone());
            current = match self.nodes.get(&next) {
                Some(Node::Link(_)) if !follow && index + 1 == place.len() => next,
                Some(Node::Link(_)) if !follow => {
                    return Err(IoError::other("path goes through a link"));
                }
                Some(Node::Link(target)) => self.resolve(target, true)?,
                _ => next,
            };
        }
        Ok(current)
    }

    fn is_directory(&self, place: &[String]) -> bool {
        place.is_empty() || matches!(self.nodes.get(place), Some(Node::Directory { .. }))
    }

    fn metadata(&self, place: &[String], follow: bool) -> Result<FileMetadata, IoError> {
        let is_link = matches!(self.nodes.get(place), Some(Node::Link(_)));
        let at = self.resolve(place, follow)?;
        let (is_directory, is_file, size, made) = match self.nodes.get(&at) {
            _ if at.is_empty() => (true, false, 0, 0),
            Some(Node::Directory { made }) => (true, false, 0, *made),
            Some(Node::File { bytes, made }) => (false, true, bytes.len() as u64, *made),
            Some(Node::Link(_)) => (false, false, 0, 0),
            None => return Err(IoError::new(ErrorKind::NotFound, "no such file")),
        };
        Ok(FileMetadata {
            is_directory,
            is_file,
            is_symlink: is_link,
            size,
            created_at_ms: made,
            modified_at_ms: made,
        })
    }

    fn contents(&self, place: &[String], follow: bool) -> Result<Vec<u8>, IoError> {
        match self.nodes.get(&self.resolve(place, follow)?) {
            Some(Node::File { bytes, .. }) => Ok(bytes.clone()),
            Some(_) => Err(IoError::new(ErrorKind::InvalidInput, "not a regular file")),
            None => Err(IoError::new(ErrorKind::NotFound, "no such file")),
        }
    }

    fn write(&mut self, place: &[String], bytes: &[u8], follow: bool) -> Result<(), IoError> {
        self.write_calls += 1;
        if self.fail_write_call == Some(self.write_calls) {
            return Err(IoError::other("injected write failure"));
        }
        let at = self.resolve(place, follow)?;
        if !self.is_directory(&at[..at.len() - 1]) {
            return Err(IoError::new(ErrorKind::NotFound, "no such directory"));
        }
        let made = self.tick();
        let number = self.shared.get(&at).copied();
        for (name, other) in &self.shared {
            if number == Some(*other) {
                self.nodes.insert(name.clone(), Node::File { bytes: bytes.to_vec(), made });
            }
        }
        self.nodes.insert(at, Node::File { bytes: bytes.to_vec(), made });
        Ok(())
    }

    fn remove(&mut self, place: &[String]) -> Result<(), IoError> {
        self.remove_calls += 1;
        if self.fail_remove {
            return Err(IoError::other("injected remove failure"));
        }
        if self.nodes.keys().any(|key| key.len() > place.len() && key.starts_with(place)) {
            return Err(IoError::other("directory not empty"));
        }
        self.shared.remove(place);
        match self.nodes.remove(place) {
            Some(_) => Ok(()),
            None => Err(IoError::new(ErrorKind::NotFound, "no such file")),
        }
    }

    fn create_directory(&mut self, place: &[String]) -> Result<(), IoError> {
        if self.nodes.contains_key(place) || place.is_empty() {
            return Err(IoError::new(ErrorKind::AlreadyExists, "already there"));
        }
        if !self.is_directory(&place[..place.len() - 1]) {
            return Err(IoError::new(ErrorKind::NotFound, "no such directory"));
        }
        let made = self.tick();
        self.nodes.insert(place.to_vec(), Node::Directory { made });
        Ok(())
    }

    fn serve(&mut self, request: FsRequest<'_>) -> FsReply {
        let at = match request {
            FsRequest::GetMetadata { at, .. } => at,
            FsRequest::ReadFile { at, .. } => at,
            FsRequest::WriteFile { at, .. } => at,
            FsRequest::Remove { at, .. } => at,
            FsRequest::CreateDirectory { at, .. } => at,
        };
        let names = &at.path.native.as_ref().unwrap().components;
        let place: Vec<String> = names[..names.len() - at.levels].to_vec();
        let text = place.join("/");
        match request {
            FsRequest::GetMetadata { follow_symlinks, .. } => {
                self.requests.push(format!("metadata /{text}"));
                FsReply::Metadata(self.metadata(&place, follow_symlinks))
            }
            FsRequest::ReadFile { follow_symlinks, .. } => {
                self.requests.push(format!("read /{text}"));
                FsReply::Contents(self.contents(&place, follow_symlinks))
            }
            FsRequest::WriteFile { contents, follow_symlinks, .. } => {
                self.requests.push(format!("write /{text}"));
                FsReply::Done(self.write(&place, contents, follow_symlinks))
            }
            FsRequest::Remove { recursive, force, .. } => {
                assert!(!recursive && !force);
                self.requests.push(format!("remove /{text}"));
                FsReply::Done(self.remove(&place))
            }
            FsRequest::CreateDirectory { recursive, .. } => {
                assert!(!recursive);
                self.requests.push(format!("mkdir /{text}"));
                FsReply::Done(self.create_directory(&place))
            }
        }
    }
}

fn write(path: &str, expected: FilePreimage, contents: &[u8]) -> FileMutation {
    FileMutation::Write { path: path_uri(path), expected, contents: contents.to_vec() }
}

fn remove(path: &str, expected: &[u8]) -> FileMutation {
    FileMutation::Remove { path: path_uri(path), expected: expected.to_vec() }
}

fn exact(bytes: &[u8]) -> FilePreimage {
    FilePreimage::Exact(bytes.to_vec())
}

fn batch(mutations: Vec<FileMutation>, follow_symlinks: bool) -> FileMutationBatch {
    FileMutationBatch { mutations, follow_symlinks }
}

fn mutate_with(
    fs: &mut MemFs,
    batch: FileMutationBatch,
    limits: BatchLimits,
    mut between: impl FnMut(&mut MemFs, usize),
) -> FileMutationBatchOutcome {
    let mut step = mutate_batch_on(batch, limits);
    let mut count = 0;
    loop {
        match step {
            BatchStep::Pending(state) => {
                between(fs, count);
                count += 1;
                let reply = fs.serve(state.request());
                step = state.resume(reply);
            }
            BatchStep::Done(outcome) => return outcome,
        }
    }
}

fn mutate(fs: &mut MemFs, batch: FileMutationBatch) -> FileMutationBatchOutcome {
    mutate_with(fs, batch, LIMITS, |_, _| {})
}

fn preflight(
    fs: &mut MemFs,
    batch: FileMutationBatch,
    limits: BatchLimits,
) -> Result<Plan, IoError> {
    let mut step = preflight_with_limits(batch, limits);
    loop {
        match step {
            PreflightStep::Pending(state) => {
                let reply = fs.serve(state.request());
                step = state.resume(reply);
            }
            PreflightStep::Done(result) => return result,
        }
    }
}

fn rejection(outcome: FileMutationBatchOutcome) -> String {
    match outcome {
        FileMutationBatchOutcome::Rejected { error } => error,
        other => panic!("expected a rejection, got {other:?}"),
    }
}

#[test]
fn empty_batch_commits() {
    let mut fs = MemFs::new();
    let outcome = mutate(&mut fs, batch(Vec::new(), false));
    assert!(matches!(outcome, FileMutationBatchOutcome::Committed));
    assert!(fs.requests.is_empty());
}

#[test]
fn commits_single_and_mixed_mutations_with_nested_parent_creation() {
    let mut fs = MemFs::new();
    fs.put("/work/updated.txt", b"before");
    fs.put("/work/removed.txt", b"delete");

    let outcome = mutate(
        &mut fs,
        batch(
            vec![
                write("/work/new/a/b/file.txt", FilePreimage::Missing, b"added"),
                write("/work/updated.txt", exact(b"before"), b"after"),
                remove("/work/removed.txt", b"delete"),
            ],
            false,
        ),
    );

    assert!(matches!(outcome, FileMutationBatchOutcome::Committed));
    assert_eq!(fs.read("/work/new/a/b/file.txt"), b"added");
    assert_eq!(fs.read("/work/updated.txt"), b"after");
    assert!(!fs.is_there("/work/removed.txt"));
}

#[test]
fn stale_preimage_rejects_without_mutation() {
    let mut fs = MemFs::new();
    fs.put("/work/first.txt", b"first");
    fs.put("/work/stale.txt", b"current");

    let outcome = mutate(
        &mut fs,
        batch(
            vec![
                write("/work/first.txt", exact(b"first"), b"changed"),
                write("/work/stale.txt", exact(b"old"), b"new"),
            ],
            false,
        ),
    );

    assert_eq!(rejection(outcome), "preimage changed for `/work/stale.txt`");
    assert_eq!(fs.read("/work/first.txt"), b"first");
    assert_eq!(fs.read("/work/stale.txt"), b"current");
}

#[test]
fn rejects_duplicate_target_and_operation_limit() {
    let mut fs = MemFs::new();
    fs.put("/work/file.txt", b"before");
    let duplicate = mutate(
        &mut fs,
        batch(
            vec![
                write("/work/file.txt", exact(b"before"), b"first"),
                write("/work/file.txt", exact(b"before"), b"second"),
            ],
            false,
        ),
    );
    assert!(matches!(duplicate, FileMutationBatchOutcome::Rejected { .. }));
    assert_eq!(fs.read("/work/file.txt"), b"before");

    let mutations = (0..=LIMITS.max_operations)
        .map(|index| write(&format!("/work/{index}.txt"), FilePreimage::Missing, b"x"))
        .collect();
    let too_many = mutate(&mut fs, batch(mutations, false));
    assert!(matches!(too_many, FileMutationBatchOutcome::Rejected { .. }));
}

#[test]
fn rejects_decoded_byte_limit_without_mutation() {
    let mut fs = MemFs::new();
    let result = preflight(
        &mut fs,
        batch(vec![write("/work/file.txt", FilePreimage::Missing, b"12345")], false),
        BatchLimits { max_operations: usize::MAX, max_decoded_bytes: 4 },
    );
    let error = result.err().expect("the limit is exceeded");
    assert_eq!(error.kind, ErrorKind::InvalidInput);
    assert_eq!(error.message, "filesystem mutation batch exceeds 4 decoded bytes");
    assert!(!fs.is_there("/work/file.txt"));
}

#[test]
fn no_follow_rejects_leaf_and_ancestor_symlinks() {
    let mut fs = MemFs::new();
    fs.put("/work/target.txt", b"target");
    fs.link("/work/target.txt", "/work/leaf.txt");
    let leaf_outcome = mutate(
        &mut fs,
        batch(vec![write("/work/leaf.txt", exact(b"target"), b"escaped")], false),
    );
    assert!(matches!(leaf_outcome, FileMutationBatchOutcome::Rejected { .. }));
    assert_eq!(fs.read("/work/target.txt"), b"target");

    fs.make_dir("/work/real");
    fs.link("/work/real", "/work/ancestor");
    let ancestor_outcome = mutate(
        &mut fs,
        batch(
            vec![write("/work/ancestor/child/file.txt", FilePreimage::Missing, b"escaped")],
            false,
        ),
    );
    assert!(matches!(ancestor_outcome, FileMutationBatchOutcome::Rejected { .. }));
    assert!(!fs.is_there("/work/real/child"));
}

#[test]
fn follow_symlinks_true_preserves_supported_leaf_semantics() {
    let mut fs = MemFs::new();
    fs.put("/work/target.txt", b"before");
    fs.link("/work/target.txt", "/work/leaf.txt");

    let outcome = mutate(
        &mut fs,
        batch(vec![write("/work/leaf.txt", exact(b"before"), b"after")], true),
    );
    assert!(matches!(outcome, FileMutationBatchOutcome::Committed));
    assert_eq!(fs.read("/work/target.txt"), b"after");
}

#[test]
fn no_follow_detects_ancestor_swap_between_preflight_and_mutation() {
    let mut fs = MemFs::new();
    fs.make_dir("/work/safe");
    fs.make_dir("/work/outside");
    fs.put("/work/safe/file.txt", b"before");
    fs.put("/work/outside/file.txt", b"outside");

    let plan = preflight(
        &mut fs,
        batch(vec![write("/work/safe/file.txt", exact(b"before"), b"after")], false),
        LIMITS,
    )
    .expect("the checks pass");
    fs.nodes.remove(&parts("/work/safe/file.txt"));
    fs.nodes.remove(&parts("/work/safe"));
    fs.make_dir("/work/safe-real");
    fs.put("/work/safe-real/file.txt", b"before");
    fs.link("/work/outside", "/work/safe");

    let mutation = &plan.batch.mutations[0];
    let preimage = &plan.preimages[0];
    let mut stage = start_mutation(mutation);
    let error = loop {
        let reply = fs.serve(stage.request(mutation, false));
        match apply_mutation(mutation, preimage, stage, reply) {
            ApplyStep::Continue { stage: next, .. } => stage = next,
            ApplyStep::Done(Ok(_)) => panic!("the swap went unnoticed"),
            ApplyStep::Done(Err(failure)) => break failure.error,
        }
    };
    assert!(matches!(error, MutationError::Parent(_) | MutationError::Snapshot(_)));
    assert_eq!(fs.read("/work/outside/file.txt"), b"outside");
    assert_eq!(fs.read("/work/safe-real/file.txt"), b"before");
}

#[test]
fn mid_batch_failure_rolls_back() {
    let mut fs = MemFs::new();
    fs.put("/work/first.txt", b"before");
    fs.put("/work/second.txt", b"remove");
    fs.fail_remove = true;

    let outcome = mutate(
        &mut fs,
        batch(
            vec![
                write("/work/first.txt", exact(b"before"), b"after"),
                remove("/work/second.txt", b"remove"),
            ],
            false,
        ),
    );

    match outcome {
        FileMutationBatchOutcome::RolledBack { error } => assert_eq!(
            error,
            "filesystem mutation 1 for `/work/second.txt` failed: injected remove failure"
        ),
        other => panic!("expected a rollback, got {other:?}"),
    }
    assert_eq!(fs.read("/work/first.txt"), b"before");
    assert_eq!(fs.read("/work/second.txt"), b"remove");
}

#[test]
fn rollback_failure_is_indeterminate() {
    let mut fs = MemFs::new();
    fs.put("/work/first.txt", b"before");
    fs.put("/work/second.txt", b"remove");
    fs.fail_write_call = Some(2);
    fs.fail_remove = true;

    let outcome = mutate(
        &mut fs,
        batch(
            vec![
                write("/work/first.txt", exact(b"before"), b"after"),
                remove("/work/second.txt", b"remove"),
            ],
            false,
        ),
    );

    match outcome {
        FileMutationBatchOutcome::Indeterminate { error, possibly_mutated_paths } => {
            assert!(possibly_mutated_paths
                .iter()
                .any(|path| path.same_uri(&path_uri("/work/first.txt"))));
            assert_eq!(
                error,
                "filesystem mutation 1 for `/work/second.txt` failed: injected remove failure; \
                 failed to roll back `/work/first.txt`: injected write failure"
            );
        }
        other => panic!("expected indeterminate outcome, got {other:?}"),
    }
    assert_eq!(fs.read("/work/first.txt"), b"after");
    assert_eq!(fs.read("/work/second.txt"), b"remove");
}

#[test]
fn made_directories_are_removed_when_the_batch_is_undone() {
    let mut fs = MemFs::new();
    fs.put("/work/second.txt", b"remove");
    fs.fail_write_call = Some(2);
    let before = fs.nodes.clone();

    let outcome = mutate(
        &mut fs,
        batch(
            vec![
                write("/work/a/b/first.txt", FilePreimage::Missing, b"new"),
                write("/work/second.txt", exact(b"remove"), b"other"),
            ],
            false,
        ),
    );

    match outcome {
        FileMutationBatchOutcome::RolledBack { error } => assert_eq!(
            error,
            "filesystem mutation 1 for `/work/second.txt` failed: injected write failure"
        ),
        other => panic!("expected a rollback, got {other:?}"),
    }
    assert_eq!(fs.nodes, before);
}

#[test]
fn foreign_content_is_not_overwritten_during_rollback() {
    let mut fs = MemFs::new();
    fs.put("/work/first.txt", b"before");
    fs.put("/work/second.txt", b"second");
    fs.fail_write_call = Some(2);

    // Somebody else writes the first file after it was mutated and before the batch is undone.
    let mut done = false;
    let outcome = mutate_with(
        &mut fs,
        batch(
            vec![
                write("/work/first.txt", exact(b"before"), b"after"),
                write("/work/second.txt", exact(b"second"), b"other"),
            ],
            false,
        ),
        LIMITS,
        |fs, _| {
            if !done && fs.write_calls == 2 {
                done = true;
                fs.put("/work/first.txt", b"foreign");
            }
        },
    );

    match outcome {
        FileMutationBatchOutcome::Indeterminate { error, possibly_mutated_paths } => {
            assert_eq!(possibly_mutated_paths.len(), 1);
            assert!(possibly_mutated_paths[0].same_uri(&path_uri("/work/first.txt")));
            assert!(error.contains(
                "failed to roll back `/work/first.txt`: filesystem changed after the batch \
                 mutation; refusing to overwrite it during rollback"
            ));
        }
        other => panic!("expected indeterminate outcome, got {other:?}"),
    }
    assert_eq!(fs.read("/work/first.txt"), b"foreign");
    assert_eq!(fs.read("/work/second.txt"), b"second");
}

#[test]
fn rejected_batches_have_only_read() {
    let mut fs = MemFs::new();
    fs.put("/work/first.txt", b"first");
    fs.put("/work/second.txt", b"second");
    let outcome = mutate(
        &mut fs,
        batch(
            vec![
                write("/work/first.txt", exact(b"first"), b"changed"),
                remove("/work/second.txt", b"other"),
            ],
            false,
        ),
    );
    assert_eq!(rejection(outcome), "preimage changed for `/work/second.txt`");
    assert_eq!(
        fs.requests,
        vec![
            "metadata /work/first.txt",
            "read /work/first.txt",
            "metadata /work/second.txt",
            "read /work/second.txt",
        ]
    );
}

#[test]
fn requests_of_a_write_in_order() {
    let mut fs = MemFs::new();
    let outcome = mutate(
        &mut fs,
        batch(vec![write("/work/new/file.txt", FilePreimage::Missing, b"x")], false),
    );
    assert!(matches!(outcome, FileMutationBatchOutcome::Committed));
    assert_eq!(
        fs.requests,
        vec![
            "metadata /work/new/file.txt",
            "metadata /work/new",
            "metadata /work",
            "mkdir /work/new",
            "metadata /work/new",
            "metadata /work/new/file.txt",
            "write /work/new/file.txt",
            "metadata /work/new/file.txt",
            "read /work/new/file.txt",
        ]
    );
}

#[test]
fn each_rejection_has_its_text() {
    let mut fs = MemFs::new();
    fs.put("/work/file.txt", b"12345");
    fs.make_dir("/work/directory");

    let limits = BatchLimits { max_operations: 1, max_decoded_bytes: 14 };
    let two = batch(
        vec![
            write("/work/a", FilePreimage::Missing, b""),
            write("/work/b", FilePreimage::Missing, b""),
        ],
        false,
    );
    let too_many = rejection(mutate_with(&mut fs, two, limits, |_, _| {}));
    assert_eq!(too_many, "filesystem mutation batch exceeds 1 operations");

    let twice = batch(
        vec![
            write("/work/a", FilePreimage::Missing, b""),
            write("/work/a", FilePreimage::Missing, b""),
        ],
        false,
    );
    assert_eq!(
        rejection(mutate(&mut fs, twice)),
        "filesystem mutation batch targets `/work/a` more than once"
    );

    let directory = batch(vec![write("/work/directory", FilePreimage::Missing, b"")], false);
    assert_eq!(rejection(mutate(&mut fs, directory)), "`/work/directory` is not a regular file");

    // Five bytes expected, five written, and five more that the file holds.
    let file = batch(vec![write("/work/file.txt", exact(b"12345"), b"54321")], false);
    let too_large = rejection(mutate_with(&mut fs, file, limits, |_, _| {}));
    assert_eq!(too_large, "filesystem mutation batch exceeds 14 decoded bytes");

    let foreign = PathUri {
        uri: "file:///c:/x".to_string(),
        display: "C:\\x".to_string(),
        native: Err(IoError::new(ErrorKind::InvalidInput, "not a path of this host")),
    };
    let not_native = FileMutation::Remove { path: foreign, expected: Vec::new() };
    assert_eq!(
        rejection(mutate(&mut fs, batch(vec![not_native], false))),
        "not a path of this host"
    );
}

#[test]
fn limits_are_inclusive() {
    let mut fs = MemFs::new();
    fs.put("/work/file.txt", b"12345");
    let limits = BatchLimits { max_operations: 1, max_decoded_bytes: 15 };
    let file = batch(vec![write("/work/file.txt", exact(b"12345"), b"54321")], false);
    let outcome = mutate_with(&mut fs, file, limits, |_, _| {});
    assert!(matches!(outcome, FileMutationBatchOutcome::Committed));
    assert_eq!(fs.read("/work/file.txt"), b"54321");
}

#[test]
fn payload_counts_what_is_expected_and_what_is_written() {
    assert_eq!(mutation_payload_bytes(&write("/a", exact(b"123"), b"4567")), 7);
    assert_eq!(mutation_payload_bytes(&write("/a", FilePreimage::Missing, b"4567")), 4);
    assert_eq!(mutation_payload_bytes(&remove("/a", b"123")), 3);
}

#[test]
fn a_parent_that_is_a_file_fails_the_mutation() {
    let mut fs = MemFs::new();
    fs.put("/work/first.txt", b"first");
    let mut blocked = false;
    let outcome = mutate_with(
        &mut fs,
        batch(
            vec![
                remove("/work/first.txt", b"first"),
                write("/work/blocked/file.txt", FilePreimage::Missing, b"x"),
            ],
            false,
        ),
        LIMITS,
        |fs, _| {
            if !blocked && fs.remove_calls == 1 {
                blocked = true;
                fs.put("/work/blocked", b"in the way");
            }
        },
    );
    match outcome {
        FileMutationBatchOutcome::RolledBack { error } => assert_eq!(
            error,
            "filesystem mutation 1 for `/work/blocked/file.txt` failed: \
             parent `/work/blocked` is not a directory"
        ),
        other => panic!("expected a rollback, got {other:?}"),
    }
    assert_eq!(fs.read("/work/first.txt"), b"first");
    assert_eq!(fs.read("/work/blocked"), b"in the way");
}

#[test]
fn a_preimage_that_changes_after_the_checks_fails_the_mutation() {
    let mut fs = MemFs::new();
    fs.put("/work/first.txt", b"first");
    fs.put("/work/second.txt", b"second");
    let outcome = mutate_with(
        &mut fs,
        batch(
            vec![
                write("/work/first.txt", exact(b"first"), b"FIRST"),
                write("/work/second.txt", exact(b"second"), b"SECOND"),
            ],
            false,
        ),
        LIMITS,
        |fs, _| {
            if fs.write_calls == 1 {
                fs.put("/work/second.txt", b"changed");
            }
        },
    );
    match outcome {
        FileMutationBatchOutcome::RolledBack { error } => assert_eq!(
            error,
            "filesystem mutation 1 for `/work/second.txt` failed: \
             preimage changed for `/work/second.txt` before mutation"
        ),
        other => panic!("expected a rollback, got {other:?}"),
    }
    assert_eq!(fs.read("/work/first.txt"), b"first");
    assert_eq!(fs.read("/work/second.txt"), b"changed");
}

#[test]
fn a_made_directory_that_changed_is_not_removed() {
    let mut fs = MemFs::new();
    fs.put("/work/second.txt", b"second");
    fs.fail_write_call = Some(2);
    let outcome = mutate_with(
        &mut fs,
        batch(
            vec![
                write("/work/made/first.txt", FilePreimage::Missing, b"new"),
                write("/work/second.txt", exact(b"second"), b"other"),
            ],
            false,
        ),
        LIMITS,
        |fs, _| {
            if fs.write_calls == 2 {
                fs.nodes.insert(parts("/work/made"), Node::Directory { made: 99 });
            }
        },
    );
    match outcome {
        FileMutationBatchOutcome::Indeterminate { error, possibly_mutated_paths } => {
            assert!(possibly_mutated_paths.is_empty());
            assert_eq!(
                error,
                "filesystem mutation 1 for `/work/second.txt` failed: injected write failure; \
                 failed to roll back created directory `/work/made`: \
                 created directory changed before rollback; refusing to remove it"
            );
        }
        other => panic!("expected indeterminate outcome, got {other:?}"),
    }
    assert!(fs.is_there("/work/made"));
    assert!(!fs.is_there("/work/made/first.txt"));
}

#[test]
fn two_names_of_one_file_are_rolled_back_together() {
    let mut fs = MemFs::new();
    fs.put("/work/a.txt", b"old");
    fs.hard_link("/work/a.txt", "/work/b.txt");
    fs.hard_link("/work/a.txt", "/work/c.txt");
    let outcome = mutate(
        &mut fs,
        batch(
            vec![
                write("/work/a.txt", FilePreimage::Exact(b"old".to_vec()), b"new"),
                write("/work/b.txt", FilePreimage::Exact(b"old".to_vec()), b"newer"),
            ],
            true,
        ),
    );
    // The second name no longer holds what it held once the first was written.
    assert!(matches!(outcome, FileMutationBatchOutcome::RolledBack { .. }), "{outcome:?}");
    for path in ["/work/a.txt", "/work/b.txt", "/work/c.txt"] {
        assert_eq!(fs.read(path), b"old");
    }
}

#[test]
fn removed_name_of_a_shared_file_is_restored() {
    let mut fs = MemFs::new();
    fs.put("/work/a.txt", b"old");
    fs.hard_link("/work/a.txt", "/work/b.txt");
    fs.fail_write_call = Some(1);
    let outcome = mutate(
        &mut fs,
        batch(
            vec![remove("/work/a.txt", b"old"), write("/work/c.txt", FilePreimage::Missing, b"new")],
            true,
        ),
    );
    assert!(matches!(outcome, FileMutationBatchOutcome::RolledBack { .. }), "{outcome:?}");
    assert_eq!(fs.read("/work/a.txt"), b"old");
    assert_eq!(fs.read("/work/b.txt"), b"old");
    assert!(!fs.is_there("/work/c.txt"));
}

#[test]
fn file_behind_a_link_is_rolled_back() {
    let mut fs = MemFs::new();
    fs.put("/work/real.txt", b"old");
    fs.link("/work/real.txt", "/work/link.txt");
    fs.fail_write_call = Some(2);
    let outcome = mutate(
        &mut fs,
        batch(
            vec![
                write("/work/link.txt", FilePreimage::Exact(b"old".to_vec()), b"new"),
                write("/work/other.txt", FilePreimage::Missing, b"new"),
            ],
            true,
        ),
    );
    assert!(matches!(outcome, FileMutationBatchOutcome::RolledBack { .. }), "{outcome:?}");
    assert_eq!(fs.read("/work/real.txt"), b"old");
    assert_eq!(fs.contents(&parts("/work/link.txt"), true).unwrap(), b"old");
}

#[test]
fn snapshots_and_expectations_are_inverse() {
    let path = path_uri("/work/a.txt");
    for snapshot in [Snapshot::Missing, Snapshot::Exact(Vec::new()), Snapshot::Exact(vec![0, 255])] {
        let expected = planned_expected(&snapshot, &path);
        let again = snapshot_from_expected(&expected);
        assert!(again.same_image(&snapshot));
        let mutation =
            FileMutation::Write { path: path.clone(), expected, contents: b"new".to_vec() };
        assert!(expected_snapshot(&mutation).same_image(&again));
    }
    assert!(matches!(planned_expected(&Snapshot::Missing, &path), FilePreimage::Missing));
    match planned_expected(&Snapshot::Exact(b"old".to_vec()), &path) {
        FilePreimage::Exact(contents) => assert_eq!(contents, b"old"),
        FilePreimage::Missing => panic!("the file holds something"),
    }
}

#[test]
fn link_that_leads_nowhere_leads_nowhere_again() {
    let mut fs = MemFs::new();
    fs.link("/work/real.txt", "/work/link.txt");
    fs.fail_write_call = Some(2);
    let outcome = mutate(
        &mut fs,
        batch(
            vec![
                write("/work/link.txt", FilePreimage::Missing, b"new"),
                write("/work/other.txt", FilePreimage::Missing, b"new"),
            ],
            true,
        ),
    );
    assert!(matches!(outcome, FileMutationBatchOutcome::RolledBack { .. }), "{outcome:?}");
    assert!(fs.contents(&parts("/work/link.txt"), true).is_err());
    // What is taken away is the link; the file at its other end stays.
    assert!(!fs.is_there("/work/link.txt"));
    assert_eq!(fs.read("/work/real.txt"), b"new");
}

#[test]
fn file_that_a_later_link_leads_to_is_taken_away_again() {
    let mut fs = MemFs::new();
    fs.link("/work/real.txt", "/work/link.txt");
    let outcome = mutate(
        &mut fs,
        batch(
            vec![
                write("/work/real.txt", FilePreimage::Missing, b"new"),
                write("/work/link.txt", FilePreimage::Missing, b"newer"),
            ],
            true,
        ),
    );
    // The link is not written through: its other end is there by then.
    assert!(matches!(outcome, FileMutationBatchOutcome::RolledBack { .. }), "{outcome:?}");
    assert!(!fs.is_there("/work/real.txt"));
    assert!(fs.is_there("/work/link.txt"));
}
