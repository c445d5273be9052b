//! Patches: what they ask for, what they did, and why they fail.

use vstd::prelude::*;

use crate::error::{IoError, IoErrorView};
use crate::path::{PathUri, PathView};

verus! {

/// Why a patch could not be applied.
#[derive(Debug)]
pub enum ApplyPatchError {
    /// The patch contradicts itself.
    InvalidPatch(String),
    /// The filesystem failed, or a file is not what the patch needs.
    Io { context: String, source: IoError },
    /// A path could not be resolved, or a file could not be updated; the text says why.
    Unresolved(String),
}

/// What an [`ApplyPatchError`] says.
pub enum PatchFailure {
    InvalidPatch(Seq<char>),
    Io { context: Seq<char>, source: IoErrorView },
    Unresolved(Seq<char>),
}

impl View for ApplyPatchError {
    type V = PatchFailure;

    open spec fn view(&self) -> PatchFailure {
        match self {
            ApplyPatchError::InvalidPatch(message) => PatchFailure::InvalidPatch(message@),
            ApplyPatchError::Io { context, source } => PatchFailure::Io {
                context: context@,
                source: source@,
            },
            ApplyPatchError::Unresolved(message) => PatchFailure::Unresolved(message@),
        }
    }
}

impl Clone for ApplyPatchError {
    fn clone(&self) -> (copy: Self)
        ensures
            copy == *self,
    {
        match self {
            ApplyPatchError::InvalidPatch(message) => ApplyPatchError::InvalidPatch(
                message.clone(),
            ),
            ApplyPatchError::Io { context, source } => ApplyPatchError::Io {
                context: context.clone(),
                source: source.clone(),
            },
            ApplyPatchError::Unresolved(message) => ApplyPatchError::Unresolved(message.clone()),
        }
    }
}

/// What a hunk does to its file.
#[derive(Debug)]
pub enum HunkOperation {
    AddFile { contents: String },
    DeleteFile,
    /// The new contents come from the lines of the hunk; the file moves to the destination, if
    /// there is one, resolved against the working directory.
    UpdateFile { destination: Option<Result<PathUri, ApplyPatchError>> },
}

/// One hunk of a patch.
#[derive(Debug)]
pub struct Hunk {
    /// The path as the patch spells it.
    pub path: String,
    /// The path resolved against the working directory.
    pub source: Result<PathUri, ApplyPatchError>,
    pub operation: HunkOperation,
}

/// Whether a patch may change one file more than once.
#[derive(Clone, Copy, Debug, PartialEq, Eq, Structural)]
pub enum RepeatedSourcePaths {
    Allow,
    Reject,
}

/// What the lines of a hunk make of a file.
#[derive(Debug)]
pub struct FileUpdate {
    pub original_content: String,
    pub unified_diff: String,
    pub content: String,
}

/// A change that a patch asks for.
#[derive(Debug)]
pub enum ApplyPatchFileChange {
    Add { content: String },
    Delete { content: String },
    Update { unified_diff: String, move_path: Option<PathUri>, new_content: String },
}

/// What an [`ApplyPatchFileChange`] says.
pub enum FileChangeView {
    Add { content: Seq<char> },
    Delete { content: Seq<char> },
    Update {
        unified_diff: Seq<char>,
        move_path: Option<PathView>,
        new_content: Seq<char>,
    },
}

/// The path, where there is one.
pub open spec fn path_view(path: Option<PathUri>) -> Option<PathView> {
    match path {
        Some(path) => Some(path@),
        None => None,
    }
}

/// The text, where there is any.
pub open spec fn text_view(text: Option<String>) -> Option<Seq<char>> {
    match text {
        Some(text) => Some(text@),
        None => None,
    }
}

impl View for ApplyPatchFileChange {
    type V = FileChangeView;

    open spec fn view(&self) -> FileChangeView {
        match self {
            ApplyPatchFileChange::Add { content } => FileChangeView::Add { content: content@ },
            ApplyPatchFileChange::Delete { content } => FileChangeView::Delete {
                content: content@,
            },
            ApplyPatchFileChange::Update { unified_diff, move_path, new_content } =>
                FileChangeView::Update {
                unified_diff: unified_diff@,
                move_path: path_view(*move_path),
                new_content: new_content@,
            },
        }
    }
}

/// A change with what it replaced.
#[derive(Debug)]
pub enum AppliedPatchFileChange {
    Add { content: String, overwritten_content: Option<String> },
    Delete { content: String },
    Update {
        move_path: Option<PathUri>,
        old_content: String,
        overwritten_move_content: Option<String>,
        new_content: String,
    },
}

/// A change to one file.
#[derive(Debug)]
pub struct AppliedPatchChange {
    pub path: PathUri,
    pub change: AppliedPatchFileChange,
}

/// What an [`AppliedPatchFileChange`] says.
pub enum AppliedChangeView {
    Add { content: Seq<char>, overwritten_content: Option<Seq<char>> },
    Delete { content: Seq<char> },
    Update {
        move_path: Option<PathView>,
        old_content: Seq<char>,
        overwritten_move_content: Option<Seq<char>>,
        new_content: Seq<char>,
    },
}

/// What an [`AppliedPatchChange`] says.
pub struct AppliedView {
    pub path: PathView,
    pub change: AppliedChangeView,
}

impl View for AppliedPatchChange {
    type V = AppliedView;

    open spec fn view(&self) -> AppliedView {
        AppliedView {
            path: self.path@,
            change: match self.change {
                AppliedPatchFileChange::Add { content, overwritten_content } =>
                    AppliedChangeView::Add {
                    content: content@,
                    overwritten_content: text_view(overwritten_content),
                },
                AppliedPatchFileChange::Delete { content } => AppliedChangeView::Delete {
                    content: content@,
                },
                AppliedPatchFileChange::Update {
                    move_path,
                    old_content,
                    overwritten_move_content,
                    new_content,
                } => AppliedChangeView::Update {
                    move_path: path_view(move_path),
                    old_content: old_content@,
                    overwritten_move_content: text_view(overwritten_move_content),
                    new_content: new_content@,
                },
            },
        }
    }
}

/// What a patch changed.
#[derive(Debug)]
pub struct AppliedPatchDelta {
    /// Whether the changes tell all that was replaced.
    pub exact: bool,
    pub changes: Vec<AppliedPatchChange>,
}

/// What an [`AppliedPatchDelta`] says.
#[verifier::ext_equal]
pub struct DeltaView {
    pub exact: bool,
    pub changes: Seq<AppliedView>,
}

/// What each of the changes says.
pub open spec fn applied_views(changes: Seq<AppliedPatchChange>) -> Seq<AppliedView> {
    Seq::new(changes.len(), |i: int| changes[i]@)
}

impl View for AppliedPatchDelta {
    type V = DeltaView;

    open spec fn view(&self) -> DeltaView {
        DeltaView { exact: self.exact, changes: applied_views(self.changes@) }
    }
}

impl AppliedPatchDelta {
    /// No change, exactly.
    pub fn empty() -> (delta: Self)
        ensures
            delta@ == (DeltaView { exact: true, changes: Seq::empty() }),
    {
        let delta = AppliedPatchDelta { exact: true, changes: Vec::new() };
        assert(delta@.changes =~= Seq::empty());
        delta
    }

    /// Takes one more change.
    pub fn push(&mut self, path: PathUri, change: AppliedPatchFileChange)
        ensures
            final(self)@ == (DeltaView {
                exact: old(self)@.exact,
                changes: old(self)@.changes.push((AppliedPatchChange { path, change })@),
            }),
    {
        let ghost earlier = self.changes@;
        let change = AppliedPatchChange { path, change };
        self.changes.push(change);
        assert(applied_views(self.changes@) =~= applied_views(earlier).push(change@));
    }
}

/// The files that a patch touches, as the patch spells their paths.
#[derive(Debug)]
pub struct AffectedPaths {
    pub added: Vec<String>,
    pub modified: Vec<String>,
    pub deleted: Vec<String>,
}

/// What an [`AffectedPaths`] says.
#[verifier::ext_equal]
pub struct AffectedView {
    pub added: Seq<Seq<char>>,
    pub modified: Seq<Seq<char>>,
    pub deleted: Seq<Seq<char>>,
}

impl View for AffectedPaths {
    type V = AffectedView;

    open spec fn view(&self) -> AffectedView {
        AffectedView {
            added: crate::path::names(self.added@),
            modified: crate::path::names(self.modified@),
            deleted: crate::path::names(self.deleted@),
        }
    }
}

impl AffectedPaths {
    /// No file.
    pub fn new() -> (affected: Self)
        ensures
            affected@ == (AffectedView {
                added: Seq::empty(),
                modified: Seq::empty(),
                deleted: Seq::empty(),
            }),
    {
        let affected = AffectedPaths { added: Vec::new(), modified: Vec::new(), deleted: Vec::new() };
        assert(affected@.added =~= Seq::empty());
        assert(affected@.modified =~= Seq::empty());
        assert(affected@.deleted =~= Seq::empty());
        affected
    }
}

/// The changes that a patch asks for, at most one for each path: a later one takes the place of an
/// earlier one.
#[derive(Debug)]
pub struct FileChanges {
    pub entries: Vec<(PathUri, ApplyPatchFileChange)>,
}

/// Whether the entry at `index` is the one for `uri`.
pub open spec fn is_change_of(
    entries: Seq<(PathUri, ApplyPatchFileChange)>,
    index: int,
    uri: Seq<char>,
) -> bool {
    0 <= index < entries.len() && entries[index].0.uri@ == uri
}

/// The position of the entry for `uri`.
pub open spec fn change_position(
    entries: Seq<(PathUri, ApplyPatchFileChange)>,
    uri: Seq<char>,
) -> int {
    choose|index: int| is_change_of(entries, index, uri)
}

/// A change with the path that it is to.
pub struct KeyedChange {
    pub path: PathView,
    pub change: FileChangeView,
}

impl View for FileChanges {
    type V = Map<Seq<char>, KeyedChange>;

    /// The changes with their paths, by the URIs of the paths.
    open spec fn view(&self) -> Map<Seq<char>, KeyedChange> {
        let entries = self.entries@;
        Map::new(
            |uri: Seq<char>| exists|index: int| is_change_of(entries, index, uri),
            |uri: Seq<char>|
                KeyedChange {
                    path: entries[change_position(entries, uri)].0@,
                    change: entries[change_position(entries, uri)].1@,
                },
        )
    }
}

impl FileChanges {
    /// Whether no two entries are for the same path.
    pub open spec fn is_valid(self) -> bool {
        forall|i: int, j: int|
            0 <= i < j < self.entries@.len() ==> #[trigger] self.entries@[i].0.uri@
                != #[trigger] self.entries@[j].0.uri@
    }

    /// No change.
    pub fn new() -> (changes: Self)
        ensures
            changes.is_valid(),
            changes@ == Map::<Seq<char>, KeyedChange>::empty(),
    {
        let changes = FileChanges { entries: Vec::new() };
        assert(changes@.dom() =~= Set::empty());
        assert(changes@ =~= Map::empty());
        changes
    }

    proof fn lemma_position(self, index: int)
        requires
            self.is_valid(),
            0 <= index < self.entries@.len(),
        ensures
            change_position(self.entries@, self.entries@[index].0.uri@) == index,
            self@.dom().contains(self.entries@[index].0.uri@),
            self@[self.entries@[index].0.uri@] == (KeyedChange {
                path: self.entries@[index].0@,
                change: self.entries@[index].1@,
            }),
    {
        assert(is_change_of(self.entries@, index, self.entries@[index].0.uri@));
    }

    /// Where the change to `path` stands, if there is one.
    pub fn find(&self, path: &PathUri) -> (found: Option<usize>)
        ensures
            found is Some == self@.dom().contains(path.uri@),
            found matches Some(index) ==> is_change_of(self.entries@, index as int, path.uri@),
    {
        let mut index: usize = 0;
        while index < self.entries.len()
            invariant
                index <= self.entries.len(),
                forall|k: int| 0 <= k < index ==> !is_change_of(self.entries@, k, path.uri@),
            decreases self.entries.len() - index,
        {
            if self.entries[index].0.same_uri(path) {
                assert(is_change_of(self.entries@, index as int, path.uri@));
                return Some(index);
            }
            index = index + 1;
        }
        None
    }

    /// The change to `path`, if there is one.
    pub fn get(&self, path: &PathUri) -> (change: Option<&ApplyPatchFileChange>)
        requires
            self.is_valid(),
        ensures
            change is Some == self@.dom().contains(path.uri@),
            change matches Some(change) ==> change@ == self@[path.uri@].change,
    {
        match self.find(path) {
            Some(index) => {
                proof {
                    self.lemma_position(index as int);
                }
                Some(&self.entries[index].1)
            },
            None => None,
        }
    }

    /// Takes the change to `path`, in place of an earlier one.
    pub fn insert(&mut self, path: &PathUri, change: ApplyPatchFileChange)
        requires
            old(self).is_valid(),
        ensures
            final(self).is_valid(),
            final(self)@ == old(self)@.insert(
                path.uri@,
                KeyedChange { path: path@, change: change@ },
            ),
    {
        let ghost before = *self;
        let ghost expected = before@.insert(
            path.uri@,
            KeyedChange { path: path@, change: change@ },
        );
        match self.find(path) {
            Some(index) => {
                let path = path.clone();
                self.entries.set(index, (path, change));
                proof {
                    let after = *self;
                    assert(forall|i: int|
                        0 <= i < after.entries@.len() ==> #[trigger] after.entries@[i].0.uri@
                            == before.entries@[i].0.uri@);
                    assert forall|i: int, j: int| 0 <= i < j < after.entries@.len() implies
                        #[trigger] after.entries@[i].0.uri@
                        != #[trigger] after.entries@[j].0.uri@ by {
                        assert(before.entries@[i].0.uri@ != before.entries@[j].0.uri@);
                    }
                    after.lemma_position(index as int);
                    assert forall|other: Seq<char>| after@.dom().contains(other)
                        == expected.dom().contains(other) by {
                        if after@.dom().contains(other) {
                            assert(is_change_of(
                                before.entries@,
                                change_position(after.entries@, other),
                                other,
                            ));
                        }
                        if before@.dom().contains(other) {
                            assert(is_change_of(
                                after.entries@,
                                change_position(before.entries@, other),
                                other,
                            ));
                        }
                    }
                    assert(after@.dom() =~= expected.dom());
                    assert forall|other: Seq<char>| after@.dom().contains(other) implies
                        after@[other] == expected[other] by {
                        let at = change_position(after.entries@, other);
                        after.lemma_position(at);
                        before.lemma_position(at);
                    }
                    assert(after@ =~= expected);
                }
            },
            None => {
                let path = path.clone();
                proof {
                    assert forall|i: int| 0 <= i < before.entries@.len() implies
                        #[trigger] before.entries@[i].0.uri@ != path.uri@ by {
                        before.lemma_position(i);
                    }
                }
                self.entries.push((path, change));
                proof {
                    let after = *self;
                    assert(after.is_valid());
                    after.lemma_position(before.entries@.len() as int);
                    assert forall|other: Seq<char>| after@.dom().contains(other)
                        == expected.dom().contains(other) by {
                        if after@.dom().contains(other) {
                            let at = change_position(after.entries@, other);
                            if at < before.entries@.len() {
                                assert(is_change_of(before.entries@, at, other));
                            }
                        }
                        if before@.dom().contains(other) {
                            assert(is_change_of(
                                after.entries@,
                                change_position(before.entries@, other),
                                other,
                            ));
                        }
                    }
                    assert(after@.dom() =~= expected.dom());
                    assert forall|other: Seq<char>| after@.dom().contains(other) implies
                        after@[other] == expected[other] by {
                        let at = change_position(after.entries@, other);
                        after.lemma_position(at);
                        if at < before.entries@.len() {
                            before.lemma_position(at);
                        }
                    }
                    assert(after@ =~= expected);
                }
            },
        }
    }
}

} // verus!
