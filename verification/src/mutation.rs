//! File mutations and the batches they come in.

use vstd::prelude::*;

use crate::path::{PathUri, PathView};
use crate::snapshot::Snapshot;
use crate::text::bytes_copy;

verus! {

/// What a file is expected to hold before a mutation.
#[derive(Debug)]
pub enum FilePreimage {
    /// No file.
    Missing,
    /// A file with exactly these bytes.
    Exact(Vec<u8>),
}

impl View for FilePreimage {
    type V = Option<Seq<u8>>;

    open spec fn view(&self) -> Option<Seq<u8>> {
        match self {
            FilePreimage::Missing => None,
            FilePreimage::Exact(contents) => Some(contents@),
        }
    }
}

/// One change to one file.
#[allow(inconsistent_fields)]
#[derive(Debug)]
pub enum FileMutation {
    Write { path: PathUri, expected: FilePreimage, contents: Vec<u8> },
    Remove { path: PathUri, expected: Vec<u8> },
}

/// What a mutation does: the file, and what it holds before and after.
#[verifier::ext_equal]
pub struct MutationView {
    pub path: PathView,
    pub before: Option<Seq<u8>>,
    pub after: Option<Seq<u8>>,
}

impl View for FileMutation {
    type V = MutationView;

    open spec fn view(&self) -> MutationView {
        MutationView { path: self.path()@, before: self.before(), after: self.after() }
    }
}

/// What each of the mutations does.
pub open spec fn mutation_views(mutations: Seq<FileMutation>) -> Seq<MutationView> {
    Seq::new(mutations.len(), |i: int| mutations[i]@)
}

impl FileMutation {
    /// The file that changes.
    pub open spec fn path(self) -> PathUri {
        match self {
            FileMutation::Write { path, .. } => path,
            FileMutation::Remove { path, .. } => path,
        }
    }

    /// What the file holds before the change; `None` is no file.
    pub open spec fn before(self) -> Option<Seq<u8>> {
        match self {
            FileMutation::Write { expected, .. } => expected@,
            FileMutation::Remove { expected, .. } => Some(expected@),
        }
    }

    /// What the file holds after the change; `None` is no file.
    pub open spec fn after(self) -> Option<Seq<u8>> {
        match self {
            FileMutation::Write { contents, .. } => Some(contents@),
            FileMutation::Remove { .. } => None,
        }
    }

    /// The bytes that the mutation carries, capped at what a `usize` counts.
    pub open spec fn payload(self) -> int {
        match self {
            FileMutation::Write { expected, contents, .. } => {
                let sum: int = image_bytes(expected@) + contents@.len();
                if sum <= usize::MAX { sum } else { usize::MAX as int }
            },
            FileMutation::Remove { expected, .. } => expected@.len() as int,
        }
    }
}

/// The number of bytes in a file, where there is one.
pub open spec fn image_bytes(image: Option<Seq<u8>>) -> int {
    match image {
        None => 0,
        Some(contents) => contents.len() as int,
    }
}

/// Mutations that are to take place together or not at all.
#[derive(Debug)]
pub struct FileMutationBatch {
    pub mutations: Vec<FileMutation>,
    pub follow_symlinks: bool,
}

/// How large a batch may be.
#[derive(Clone, Copy, Debug, PartialEq, Eq, Structural)]
pub struct BatchLimits {
    /// The number of mutations.
    pub max_operations: usize,
    /// The bytes that the mutations carry and that the files hold beforehand, together.
    pub max_decoded_bytes: usize,
}

/// How a batch ended.
#[derive(Debug)]
pub enum FileMutationBatchOutcome {
    /// Every mutation took place.
    Committed,
    /// The batch was refused before anything changed.
    Rejected { error: String },
    /// A mutation failed, and everything before it was undone.
    RolledBack { error: String },
    /// A mutation failed, and something could not be undone.
    Indeterminate { error: String, possibly_mutated_paths: Vec<PathUri> },
}

/// The bytes that a mutation carries.
pub fn mutation_payload_bytes(mutation: &FileMutation) -> (bytes: usize)
    ensures
        bytes == mutation.payload(),
{
    match mutation {
        FileMutation::Write { expected, contents, .. } => expected_bytes(expected).saturating_add(
            contents.len(),
        ),
        FileMutation::Remove { expected, .. } => expected.len(),
    }
}

/// The bytes that a preimage holds.
pub fn expected_bytes(expected: &FilePreimage) -> (bytes: usize)
    ensures
        bytes == image_bytes(expected@),
{
    match expected {
        FilePreimage::Missing => 0,
        FilePreimage::Exact(contents) => contents.len(),
    }
}

/// The bytes that a snapshot holds.
pub fn snapshot_bytes(snapshot: &Snapshot) -> (bytes: usize)
    ensures
        bytes == image_bytes(snapshot@),
{
    match snapshot {
        Snapshot::Missing => 0,
        Snapshot::Exact(contents) => contents.len(),
    }
}

/// The file that a mutation changes.
pub fn mutation_path(mutation: &FileMutation) -> (path: &PathUri)
    ensures
        *path == mutation.path(),
{
    match mutation {
        FileMutation::Write { path, .. } => path,
        FileMutation::Remove { path, .. } => path,
    }
}

/// The snapshot that a preimage describes.
pub open spec fn snapshot_of(expected: FilePreimage) -> Snapshot {
    match expected {
        FilePreimage::Missing => Snapshot::Missing,
        FilePreimage::Exact(contents) => Snapshot::Exact(contents),
    }
}

/// The preimage that a snapshot amounts to, where the file is to be found so.
pub open spec fn expectation_of(snapshot: Snapshot) -> FilePreimage {
    match snapshot {
        Snapshot::Missing => FilePreimage::Missing,
        Snapshot::Exact(contents) => FilePreimage::Exact(contents),
    }
}

/// Snapshots and expectations are the same thing in two forms: either leads to the other and back.
/// They hold the same bytes, and a write expects the snapshot that its expectation describes.
pub proof fn law_snapshots_and_expectations_are_inverse(
    snapshot: Snapshot,
    expected: FilePreimage,
    path: PathUri,
    contents: Vec<u8>,
)
    ensures
        snapshot_of(expectation_of(snapshot)) == snapshot,
        expectation_of(snapshot_of(expected)) == expected,
        expectation_of(snapshot)@ == snapshot@,
        snapshot_of(expected)@ == expected@,
        forall|planned: FilePreimage|
            planned@ == expectation_of(snapshot)@ ==> (#[trigger] snapshot_of(planned))@
                == snapshot@,
        forall|taken: Snapshot|
            taken@ == snapshot_of(expected)@ ==> (#[trigger] expectation_of(taken))@ == expected@,
        image_bytes(snapshot_of(expected)@) == image_bytes(expected@),
        (FileMutation::Write { path, expected, contents }).before() == snapshot_of(expected)@,
{
}

/// The snapshot that a preimage describes.
pub fn snapshot_from_expected(expected: &FilePreimage) -> (snapshot: Snapshot)
    ensures
        snapshot@ == snapshot_of(*expected)@,
{
    match expected {
        FilePreimage::Missing => Snapshot::Missing,
        FilePreimage::Exact(contents) => Snapshot::Exact(bytes_copy(contents)),
    }
}

/// The preimage that a snapshot of the file at `_path` amounts to.
pub fn planned_expected(snapshot: &Snapshot, _path: &PathUri) -> (expected: FilePreimage)
    ensures
        expected@ == expectation_of(*snapshot)@,
{
    match snapshot {
        Snapshot::Missing => FilePreimage::Missing,
        Snapshot::Exact(contents) => FilePreimage::Exact(bytes_copy(contents)),
    }
}

/// The snapshot that a mutation expects.
pub fn expected_snapshot(mutation: &FileMutation) -> (snapshot: Snapshot)
    ensures
        snapshot@ == mutation.before(),
{
    match mutation {
        FileMutation::Write { expected, .. } => snapshot_from_expected(expected),
        FileMutation::Remove { expected, .. } => Snapshot::Exact(bytes_copy(expected)),
    }
}

/// The snapshot that a mutation is to leave behind.
pub fn intended_postimage(mutation: &FileMutation) -> (snapshot: Snapshot)
    ensures
        snapshot@ == mutation.after(),
{
    match mutation {
        FileMutation::Write { contents, .. } => Snapshot::Exact(bytes_copy(contents)),
        FileMutation::Remove { .. } => Snapshot::Missing,
    }
}

/// Whether a snapshot is what a mutation expects.
pub fn matches_expected(snapshot: &Snapshot, mutation: &FileMutation) -> (matches: bool)
    ensures
        matches == (snapshot@ == mutation.before()),
{
    snapshot.same_image(&expected_snapshot(mutation))
}

} // verus!
