use std::collections::BTreeMap;

use patch_batch::error::{ErrorKind, IoError};
use patch_batch::path::NativePath;
use patch_batch::quarantine::{
    discard_quarantined_file, private_candidate, private_path, probe_private_path,
    publish_staged_file, quarantine_path, rename_no_replace, restore_quarantined_file,
    start_quarantine, DiscardStage, FileIdentity, QuarantineReply, QuarantineRequest,
    QuarantineStep, QuarantinedFile, RestoreStage,
};
use patch_batch::quarantine_directory::{
    directory_identity, remove_created_directory, start_removal, EntryType, IdentityStep,
    RemovalStage,
};
use patch_batch::snapshot::Snapshot;

fn native(path: &str) -> NativePath {
    NativePath {
        root: "/".to_string(),
        separator: "/".to_string(),
        components: path
            .split('/')
            .filter(|part| !part.is_empty())
            .map(|part| part.to_string())
            .collect(),
    }
}

fn id(index: u64) -> FileIdentity {
    FileIdentity { volume: 1, index }
}

/// Files and directories by their paths.
#[derive(Default)]
struct Tree {
    files: BTreeMap<String, Vec<u8>>,
    directories: BTreeMap<String, u64>,
    /// What somebody else does before the next move.
    before_rename: Option<fn(&mut Tree)>,
    taken: usize,
    log: Vec<String>,
}

impl Tree {
    fn is_there(&self, path: &str) -> bool {
        self.files.contains_key(path) || self.directories.contains_key(path)
    }

    fn missing() -> IoError {
        IoError::new(ErrorKind::NotFound, "no such file")
    }

    fn serve(&mut self, request: QuarantineRequest<'_>) -> QuarantineReply {
        match request {
            QuarantineRequest::ValidateParent { .. } => QuarantineReply::Done(Ok(())),
            QuarantineRequest::Probe { path } => {
                self.log.push("probe".to_string());
                if self.taken > 0 {
                    self.taken -= 1;
                    return QuarantineReply::Done(Ok(()));
                }
                QuarantineReply::Done(if self.is_there(&path.text(0)) {
                    Ok(())
                } else {
                    Err(Tree::missing())
                })
            }
            QuarantineRequest::ReadSnapshot { path } => {
                QuarantineReply::Snapshot(Ok(match self.files.get(&path.text(0)) {
                    Some(bytes) => Snapshot::Exact(bytes.clone()),
                    None => Snapshot::Missing,
                }))
            }
            QuarantineRequest::Identify { path } => QuarantineReply::Identity(Ok(self
                .directories
                .get(&path.text(0))
                .map(|index| id(*index)))),
            QuarantineRequest::BeforeRename => {
                if let Some(act) = self.before_rename.take() {
                    act(self);
                }
                QuarantineReply::Done(Ok(()))
            }
            QuarantineRequest::RenameNoReplace { from, to } => {
                self.log.push(format!("rename {}", from.text(0)));
                let (from, to) = (from.text(0), to.text(0));
                if self.is_there(&to) {
                    return QuarantineReply::Done(Err(IoError::new(
                        ErrorKind::AlreadyExists,
                        "in the way",
                    )));
                }
                if let Some(bytes) = self.files.remove(&from) {
                    self.files.insert(to, bytes);
                } else if let Some(index) = self.directories.remove(&from) {
                    self.directories.insert(to, index);
                } else {
                    return QuarantineReply::Done(Err(Tree::missing()));
                }
                QuarantineReply::Done(Ok(()))
            }
            QuarantineRequest::RemoveFile { path } => QuarantineReply::Done(
                self.files.remove(&path.text(0)).map(|_| ()).ok_or_else(Tree::missing),
            ),
            QuarantineRequest::RemoveDirectory { path } => QuarantineReply::Done(
                self.directories.remove(&path.text(0)).map(|_| ()).ok_or_else(Tree::missing),
            ),
        }
    }
}

fn restore(
    tree: &mut Tree,
    path: &str,
    aside: &str,
    expected: &Snapshot,
) -> Result<(), IoError> {
    let (path, aside) = (native(path), native(aside));
    let mut stage = RestoreStage::ValidatingParent;
    loop {
        let reply = tree.serve(stage.request(&path, &aside));
        match restore_quarantined_file(expected, stage, reply) {
            QuarantineStep::Continue(next) => stage = next,
            QuarantineStep::Done(result) => return result,
        }
    }
}

fn discard(tree: &mut Tree, path: &str, expected: &Snapshot) -> Result<(), IoError> {
    let path = native(path);
    let mut stage = DiscardStage::ValidatingParent;
    loop {
        let reply = tree.serve(stage.request(&path));
        match discard_quarantined_file(&path, expected, stage, reply) {
            QuarantineStep::Continue(next) => stage = next,
            QuarantineStep::Done(result) => return result,
        }
    }
}

fn remove_directory(
    tree: &mut Tree,
    path: &str,
    identity: Option<FileIdentity>,
) -> Result<(), IoError> {
    let path = native(path);
    let expected = start_removal(identity)?;
    let mut stage = RemovalStage::Checking;
    loop {
        let reply = tree.serve(stage.request(&path));
        match remove_created_directory(&path, expected, stage, reply) {
            QuarantineStep::Continue(next) => stage = next,
            QuarantineStep::Done(result) => return result,
        }
    }
}

#[test]
fn quarantined_files_say_what_they_are() {
    let removed = QuarantinedFile::removed(native("/a"), Some(Snapshot::Missing));
    assert!(removed.restore_on_rollback());
    assert_eq!(removed.path().text(0), "/a");
    assert!(removed.snapshot().is_some());
    let staged = QuarantinedFile::staged(native("/b"), None);
    assert!(!staged.restore_on_rollback());
    assert!(staged.snapshot().is_none());
}

#[test]
fn private_names_are_siblings_with_a_random_uuid() {
    let path = native("/work/file.txt");
    let search = private_path(&path).unwrap();
    assert_eq!(search.attempt, 1);
    assert_eq!(search.candidate.components.len(), 2);
    assert_eq!(search.candidate.components[0], "work");
    let name = &search.candidate.components[1];
    let uuid = name.strip_prefix(".codex-quarantine-").expect("the prefix");
    assert_eq!(uuid.len(), 36);
    for (index, letter) in uuid.chars().enumerate() {
        match index {
            8 | 13 | 18 | 23 => assert_eq!(letter, '-'),
            14 => assert_eq!(letter, '4'),
            19 => assert!("89ab".contains(letter)),
            _ => assert!(letter.is_ascii_digit() || ('a'..='f').contains(&letter)),
        }
    }
    let other = private_path(&path).unwrap();
    assert_ne!(other.candidate.components[1], *name);

    let fixed = private_candidate(&path, &"id".to_string());
    assert_eq!(fixed.text(0), "/work/.codex-quarantine-id");

    let error = private_path(&native("/")).map(|_| ()).unwrap_err();
    assert_eq!(error.kind, ErrorKind::InvalidInput);
    assert_eq!(error.message, "path has no parent directory");
}

#[test]
fn sixteen_private_names_are_tried() {
    let path = native("/work/file.txt");
    let mut search = private_path(&path).unwrap();
    let mut probes = 0;
    let error = loop {
        probes += 1;
        match probe_private_path(&path, search, Ok(())) {
            QuarantineStep::Continue(next) => search = next,
            QuarantineStep::Done(result) => break result.map(|_| ()).unwrap_err(),
        }
    };
    assert_eq!(probes, 16);
    assert_eq!(error.kind, ErrorKind::AlreadyExists);
    assert_eq!(error.message, "could not allocate a private quarantine path");

    let search = private_path(&path).unwrap();
    let denied = IoError::new(ErrorKind::PermissionDenied, "no");
    match probe_private_path(&path, search, Err(denied)) {
        QuarantineStep::Done(Err(error)) => assert_eq!(error.kind, ErrorKind::PermissionDenied),
        other => panic!("unexpected step {other:?}"),
    }
}

#[test]
fn a_move_aside_ends_at_the_private_name() {
    let mut tree = Tree::default();
    tree.files.insert("/work/file.txt".to_string(), b"x".to_vec());
    tree.taken = 2;
    let path = native("/work/file.txt");
    let mut stage = start_quarantine(&path).unwrap();
    let aside = loop {
        let reply = match tree.serve(stage.request(&path)) {
            QuarantineReply::Done(done) => done,
            other => panic!("unexpected reply {other:?}"),
        };
        match quarantine_path(&path, stage, reply) {
            QuarantineStep::Continue(next) => stage = next,
            QuarantineStep::Done(result) => break result.unwrap(),
        }
    };
    assert_eq!(tree.log, vec!["probe", "probe", "probe", "rename /work/file.txt"]);
    assert!(!tree.is_there("/work/file.txt"));
    assert_eq!(tree.files[&aside.text(0)], b"x");
}

#[test]
fn a_staged_file_is_published_by_a_move() {
    let (staged, path) = (native("/work/.staged"), native("/work/file.txt"));
    match publish_staged_file(&staged, &path) {
        QuarantineRequest::RenameNoReplace { from, to } => {
            assert_eq!((from.text(0), to.text(0)), (staged.text(0), path.text(0)));
        }
        other => panic!("unexpected request {other:?}"),
    }
}

#[test]
fn restoring_moves_the_file_back() {
    let mut tree = Tree::default();
    tree.files.insert("/work/aside".to_string(), b"x".to_vec());
    tree.files.insert("/work/other".to_string(), b"y".to_vec());
    let expected = Snapshot::Exact(b"x".to_vec());
    restore(&mut tree, "/work/file.txt", "/work/aside", &expected).unwrap();
    assert_eq!(tree.files["/work/file.txt"], b"x");
    assert_eq!(tree.files["/work/other"], b"y");
    assert_eq!(tree.files.len(), 2);
}

#[test]
fn restoring_replaces_nothing() {
    let mut tree = Tree::default();
    tree.files.insert("/work/aside".to_string(), b"x".to_vec());
    let wrong = Snapshot::Exact(b"other".to_vec());
    let error = restore(&mut tree, "/work/file.txt", "/work/aside", &wrong).unwrap_err();
    assert_eq!(error.message, "quarantined file changed before restore");

    tree.files.insert("/work/file.txt".to_string(), b"new".to_vec());
    let expected = Snapshot::Exact(b"x".to_vec());
    let error = restore(&mut tree, "/work/file.txt", "/work/aside", &expected).unwrap_err();
    assert_eq!(error.message, "quarantined file changed before restore");

    tree.files.remove("/work/file.txt");
    tree.before_rename =
        Some(|tree| drop(tree.files.insert("/work/file.txt".to_string(), b"new".to_vec())));
    let error = restore(&mut tree, "/work/file.txt", "/work/aside", &expected).unwrap_err();
    assert_eq!(error.kind, ErrorKind::AlreadyExists);
    assert_eq!(tree.files["/work/file.txt"], b"new");
    assert_eq!(tree.files["/work/aside"], b"x");

    tree.files.remove("/work/file.txt");
    tree.before_rename =
        Some(|tree| drop(tree.files.insert("/work/aside".to_string(), b"swapped".to_vec())));
    let error = restore(&mut tree, "/work/file.txt", "/work/aside", &expected).unwrap_err();
    assert_eq!(error.message, "path changed during quarantine restore");
}

#[test]
fn discarding_removes_the_file_and_no_other() {
    let mut tree = Tree::default();
    tree.files.insert("/work/aside".to_string(), b"x".to_vec());
    tree.files.insert("/work/other".to_string(), b"y".to_vec());
    let wrong = Snapshot::Exact(b"z".to_vec());
    let error = discard(&mut tree, "/work/aside", &wrong).unwrap_err();
    assert_eq!(error.message, "quarantined file changed before cleanup");
    assert_eq!(tree.files.len(), 2);

    discard(&mut tree, "/work/aside", &Snapshot::Exact(b"x".to_vec())).unwrap();
    assert_eq!(tree.files.len(), 1);
    assert_eq!(tree.files["/work/other"], b"y");

    let error = discard(&mut tree, "/", &Snapshot::Missing).unwrap_err();
    assert_eq!(error.message, "path has no parent directory");
}

#[test]
fn discarding_stops_where_the_file_changed_or_stays() {
    let path = native("/work/aside");
    let expected = Snapshot::Exact(b"x".to_vec());
    let aside = native("/work/.codex-quarantine-00000000-0000-4000-8000-000000000000");
    let seen = QuarantineReply::Snapshot(Ok(Snapshot::Exact(b"swapped".to_vec())));
    match discard_quarantined_file(
        &path,
        &expected,
        DiscardStage::CheckingPrivate(aside.clone()),
        seen,
    ) {
        QuarantineStep::Done(Err(error)) => {
            assert_eq!(error.message, "quarantined file changed during cleanup");
        }
        other => panic!("unexpected step {other:?}"),
    }
    let seen = QuarantineReply::Snapshot(Ok(Snapshot::Exact(b"x".to_vec())));
    match discard_quarantined_file(&path, &expected, DiscardStage::Verifying(aside), seen) {
        QuarantineStep::Done(Err(error)) => {
            assert_eq!(error.message, "quarantined file remained after cleanup");
        }
        other => panic!("unexpected step {other:?}"),
    }
}

#[test]
fn a_made_directory_is_removed() {
    let mut tree = Tree::default();
    tree.directories.insert("/work/made".to_string(), 7);
    remove_directory(&mut tree, "/work/made", Some(id(7))).unwrap();
    assert!(tree.directories.is_empty());
}

#[test]
fn another_directory_is_not_removed() {
    let mut tree = Tree::default();
    tree.directories.insert("/work/made".to_string(), 8);
    let error = remove_directory(&mut tree, "/work/made", Some(id(7))).unwrap_err();
    assert_eq!(error.message, "created directory identity changed before rollback");
    assert_eq!(tree.directories["/work/made"], 8);

    // Swapped at the last moment: it is moved aside, noticed, and put back.
    tree.directories.insert("/work/made".to_string(), 7);
    tree.before_rename =
        Some(|tree| drop(tree.directories.insert("/work/made".to_string(), 9)));
    let error = remove_directory(&mut tree, "/work/made", Some(id(7))).unwrap_err();
    assert_eq!(error.message, "created directory identity changed during rollback");
    assert_eq!(tree.directories.len(), 1);
    assert_eq!(tree.directories["/work/made"], 9);

    let error = remove_directory(&mut tree, "/work/made", None).unwrap_err();
    assert_eq!(error.message, "created directory identity is unavailable during rollback");
}

#[test]
fn a_directory_that_reappears_is_reported() {
    let path = native("/work/made");
    let reply = QuarantineReply::Identity(Ok(Some(id(3))));
    match remove_created_directory(&path, id(7), RemovalStage::Verifying, reply) {
        QuarantineStep::Done(Err(error)) => {
            assert_eq!(error.message, "created directory path changed during rollback");
        }
        other => panic!("unexpected step {other:?}"),
    }
}

#[test]
fn only_directories_have_an_identity() {
    let path = native("/work/made");
    let entry = |is_directory, is_symlink| Ok(EntryType { is_directory, is_symlink });
    assert!(matches!(directory_identity(&path, entry(true, false)), IdentityStep::Identify));
    for found in [entry(false, false), entry(true, true)] {
        match directory_identity(&path, found) {
            IdentityStep::Done(Err(error)) => {
                assert_eq!(error.kind, ErrorKind::InvalidInput);
                assert_eq!(error.message, "path `/work/made` is not a directory");
            }
            other => panic!("unexpected step {other:?}"),
        }
    }
    assert!(matches!(
        directory_identity(&path, Err(Tree::missing())),
        IdentityStep::Done(Ok(None))
    ));
    match directory_identity(&path, Err(IoError::other("broken"))) {
        IdentityStep::Done(Err(error)) => assert_eq!(error.message, "broken"),
        other => panic!("unexpected step {other:?}"),
    }
}

#[test]
fn paths_with_a_zero_cannot_be_moved() {
    let (from, to) = rename_no_replace(&b"a".to_vec(), &b"bc".to_vec()).unwrap();
    assert_eq!(from, b"a\0");
    assert_eq!(to, b"bc\0");
    let error = rename_no_replace(&b"a\0".to_vec(), &b"b\0".to_vec()).unwrap_err();
    assert_eq!(error.message, "source path contains NUL");
    let error = rename_no_replace(&b"a".to_vec(), &b"b\0c".to_vec()).unwrap_err();
    assert_eq!(error.kind, ErrorKind::InvalidInput);
    assert_eq!(error.message, "destination path contains NUL");
}
