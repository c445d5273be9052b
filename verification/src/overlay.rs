//! The files that a patch touches: what they held when they were first read, and what they hold now.

use vstd::prelude::*;

use crate::error::{IoError, IoErrorView};
use crate::mutation::{mutation_views, FileMutation, FilePreimage, MutationView};
use crate::path::{PathUri, PathView};
use crate::text::{bytes_copy, bytes_equal};

verus! {

/// One file.
#[derive(Debug)]
pub struct OverlayEntry {
    pub path: PathUri,
    /// What the file held when it was first read.
    pub initial: FilePreimage,
    /// What the patch has made of it so far; `None` is no file.
    pub current: Option<Vec<u8>>,
    /// What the filesystem said when it had no such file.
    pub missing_error: Option<IoError>,
}

/// What is known of one file.
#[verifier::ext_equal]
pub struct FileState {
    pub initial: Option<Seq<u8>>,
    pub current: Option<Seq<u8>>,
    pub missing_error: Option<IoErrorView>,
}

/// The bytes of a file, where there is one.
pub open spec fn image(contents: Option<Vec<u8>>) -> Option<Seq<u8>> {
    match contents {
        Some(bytes) => Some(bytes@),
        None => None,
    }
}

impl OverlayEntry {
    /// What the entry says of its file.
    pub open spec fn state(self) -> FileState {
        FileState {
            initial: self.initial@,
            current: image(self.current),
            missing_error: match self.missing_error {
                Some(error) => Some(error@),
                None => None,
            },
        }
    }
}

/// The files, in the order in which they were first read.
#[derive(Debug)]
pub struct Overlay {
    pub entries: Vec<OverlayEntry>,
}

/// The paths of the files in order, and what is known of each, by its URI.
#[verifier::ext_equal]
pub struct OverlayView {
    pub order: Seq<PathView>,
    pub files: Map<Seq<char>, FileState>,
}

/// Whether the entry at `index` is the one for `uri`.
pub open spec fn is_entry(entries: Seq<OverlayEntry>, index: int, uri: Seq<char>) -> bool {
    0 <= index < entries.len() && entries[index].path.uri@ == uri
}

/// The position of the entry for `uri`.
pub open spec fn position(entries: Seq<OverlayEntry>, uri: Seq<char>) -> int {
    choose|index: int| is_entry(entries, index, uri)
}

impl View for Overlay {
    type V = OverlayView;

    open spec fn view(&self) -> OverlayView {
        let entries = self.entries@;
        OverlayView {
            order: Seq::new(entries.len(), |i: int| entries[i].path@),
            files: Map::new(
                |uri: Seq<char>| exists|index: int| is_entry(entries, index, uri),
                |uri: Seq<char>| entries[position(entries, uri)].state(),
            ),
        }
    }
}

impl OverlayView {
    /// No file.
    pub open spec fn empty() -> OverlayView {
        OverlayView { order: Seq::empty(), files: Map::empty() }
    }

    /// Whether the file at `path` has been read.
    pub open spec fn has(self, path: PathView) -> bool {
        self.files.dom().contains(path.uri)
    }

    /// With a file that has been read.
    pub open spec fn insert(self, path: PathView, state: FileState) -> OverlayView {
        OverlayView { order: self.order.push(path), files: self.files.insert(path.uri, state) }
    }

    /// With the file at `path` holding `contents`.
    pub open spec fn set_current(self, path: PathView, contents: Option<Seq<u8>>) -> OverlayView {
        OverlayView {
            order: self.order,
            files: self.files.insert(
                path.uri,
                FileState { current: contents, ..self.files[path.uri] },
            ),
        }
    }

    /// Whether the order names each file once and no others.
    pub open spec fn is_valid(self) -> bool {
        &&& forall|i: int, j: int|
            0 <= i < j < self.order.len() ==> #[trigger] self.order[i].uri
                != #[trigger] self.order[j].uri
        &&& forall|i: int|
            0 <= i < self.order.len() ==> self.files.dom().contains(
                #[trigger] self.order[i].uri,
            )
        &&& forall|uri: Seq<char>| #[trigger]
            self.files.dom().contains(uri) ==> exists|i: int|
                0 <= i < self.order.len() && #[trigger] self.order[i].uri == uri
    }

    /// One mutation for each of the first `count` files that is not as it was, in order.
    pub open spec fn mutations(self, count: nat) -> Seq<MutationView>
        recommends
            count <= self.order.len(),
        decreases count,
    {
        if count == 0 {
            Seq::empty()
        } else {
            let earlier = self.mutations((count - 1) as nat);
            let path = self.order[count - 1];
            let state = self.files[path.uri];
            if state.initial == state.current {
                earlier
            } else {
                earlier.push(
                    MutationView { path, before: state.initial, after: state.current },
                )
            }
        }
    }
}

/// The mutation that makes the file hold what it holds now, where it is not as it was.
fn net_mutation(entry: &OverlayEntry) -> (mutation: Option<FileMutation>)
    ensures
        mutation is None == (entry.state().initial == entry.state().current),
        mutation matches Some(mutation) ==> mutation@ == (MutationView {
            path: entry.path@,
            before: entry.state().initial,
            after: entry.state().current,
        }),
{
    match (&entry.initial, &entry.current) {
        (FilePreimage::Missing, None) => None,
        (FilePreimage::Missing, Some(contents)) => Some(
            FileMutation::Write {
                path: entry.path.clone(),
                expected: FilePreimage::Missing,
                contents: bytes_copy(contents),
            },
        ),
        (FilePreimage::Exact(expected), Some(contents)) => {
            if bytes_equal(expected, contents) {
                return None;
            }
            Some(
                FileMutation::Write {
                    path: entry.path.clone(),
                    expected: FilePreimage::Exact(bytes_copy(expected)),
                    contents: bytes_copy(contents),
                },
            )
        },
        (FilePreimage::Exact(expected), None) => Some(
            FileMutation::Remove { path: entry.path.clone(), expected: bytes_copy(expected) },
        ),
    }
}

impl Overlay {
    /// Whether no two entries are for the same file.
    pub open spec fn is_valid(self) -> bool {
        forall|i: int, j: int|
            0 <= i < j < self.entries@.len() ==> #[trigger] self.entries@[i].path.uri@
                != #[trigger] self.entries@[j].path.uri@
    }

    /// No file.
    pub fn new() -> (overlay: Self)
        ensures
            overlay.is_valid(),
            overlay@ == OverlayView::empty(),
    {
        let overlay = Overlay { entries: Vec::new() };
        proof {
            assert(overlay@.files.dom() =~= Set::empty());
            assert(overlay@.files =~= Map::empty());
        }
        overlay
    }

    proof fn lemma_position(self, index: int)
        requires
            self.is_valid(),
            0 <= index < self.entries@.len(),
        ensures
            position(self.entries@, self.entries@[index].path.uri@) == index,
            self@.files.dom().contains(self.entries@[index].path.uri@),
            self@.files[self.entries@[index].path.uri@] == self.entries@[index].state(),
    {
        assert(is_entry(self.entries@, index, self.entries@[index].path.uri@));
    }

    /// Where the file at `path` stands, if it has been read.
    pub fn find(&self, path: &PathUri) -> (found: Option<usize>)
        ensures
            found is Some == self@.has(path@),
            found matches Some(index) ==> is_entry(self.entries@, index as int, path.uri@),
    {
        let mut index: usize = 0;
        while index < self.entries.len()
            invariant
                index <= self.entries.len(),
                forall|k: int| 0 <= k < index ==> !is_entry(self.entries@, k, path.uri@),
            decreases self.entries.len() - index,
        {
            if self.entries[index].path.same_uri(path) {
                assert(is_entry(self.entries@, index as int, path.uri@));
                return Some(index);
            }
            index = index + 1;
        }
        None
    }

    /// Takes a file that has been read.
    pub fn insert(&mut self, entry: OverlayEntry)
        requires
            old(self).is_valid(),
            !old(self)@.has(entry.path@),
        ensures
            final(self).is_valid(),
            final(self)@ == old(self)@.insert(entry.path@, entry.state()),
    {
        let ghost before = *self;
        let ghost uri = entry.path.uri@;
        proof {
            assert forall|i: int| 0 <= i < before.entries@.len() implies
                #[trigger] before.entries@[i].path.uri@ != uri by {
                before.lemma_position(i);
            }
        }
        self.entries.push(entry);
        proof {
            let after = *self;
            assert(after.is_valid());
            assert(after@.order =~= before@.order.push(entry.path@));
            assert forall|other: Seq<char>| after@.files.dom().contains(other)
                == before@.files.insert(uri, entry.state()).dom().contains(other) by {
                if after@.files.dom().contains(other) {
                    let index = position(after.entries@, other);
                    if index < before.entries@.len() {
                        assert(is_entry(before.entries@, index, other));
                    }
                }
                if before@.files.dom().contains(other) {
                    let index = position(before.entries@, other);
                    assert(is_entry(after.entries@, index, other));
                }
                after.lemma_position(before.entries@.len() as int);
            }
            assert(after@.files.dom() =~= before@.files.insert(uri, entry.state()).dom());
            assert forall|other: Seq<char>| after@.files.dom().contains(other) implies
                after@.files[other] == before@.files.insert(uri, entry.state())[other] by {
                let index = position(after.entries@, other);
                after.lemma_position(index);
                if index < before.entries@.len() {
                    before.lemma_position(index);
                }
            }
            assert(after@.files =~= before@.files.insert(uri, entry.state()));
        }
    }

    /// What the file at `path` holds; `None` is no file.
    pub fn current(&self, path: &PathUri) -> (contents: &Option<Vec<u8>>)
        requires
            self.is_valid(),
            self@.has(path@),
        ensures
            image(*contents) == self@.files[path.uri@].current,
    {
        let index: usize = self.position(path);
        &self.entries[index].current
    }

    /// What the filesystem said of the file at `path` when it had none.
    pub fn missing_error(&self, path: &PathUri) -> (error: &Option<IoError>)
        requires
            self.is_valid(),
            self@.has(path@),
        ensures
            *error is Some == self@.files[path.uri@].missing_error is Some,
            *error matches Some(error) ==> error@ == self@.files[path.uri@].missing_error->0,
    {
        let index: usize = self.position(path);
        &self.entries[index].missing_error
    }

    fn position(&self, path: &PathUri) -> (index: usize)
        requires
            self.is_valid(),
            self@.has(path@),
        ensures
            is_entry(self.entries@, index as int, path.uri@),
            self@.files[path.uri@] == self.entries@[index as int].state(),
    {
        let found = self.find(path);
        let index: usize = found.unwrap();
        proof {
            self.lemma_position(index as int);
        }
        index
    }

    /// Lets the file at `path` hold `contents`; `None` is no file.
    pub fn set_current(&mut self, path: &PathUri, contents: Option<Vec<u8>>)
        requires
            old(self).is_valid(),
            old(self)@.has(path@),
        ensures
            final(self).is_valid(),
            final(self)@ == old(self)@.set_current(path@, image(contents)),
    {
        let ghost before = *self;
        let index: usize = self.position(path);
        self.entries[index].current = contents;
        proof {
            let after = *self;
            let uri = path.uri@;
            assert(forall|i: int|
                0 <= i < after.entries@.len() ==> #[trigger] after.entries@[i].path
                    == before.entries@[i].path);
            assert forall|i: int, j: int| 0 <= i < j < after.entries@.len() implies
                #[trigger] after.entries@[i].path.uri@ != #[trigger] after.entries@[j].path.uri@ by {
                assert(before.entries@[i].path.uri@ != before.entries@[j].path.uri@);
            }
            assert(after@.order =~= before@.order);
            let expected = before@.set_current(path@, image(contents)).files;
            assert forall|other: Seq<char>| after@.files.dom().contains(other)
                == expected.dom().contains(other) by {
                if after@.files.dom().contains(other) {
                    assert(is_entry(before.entries@, position(after.entries@, other), other));
                }
                if before@.files.dom().contains(other) {
                    assert(is_entry(after.entries@, position(before.entries@, other), other));
                }
                after.lemma_position(index as int);
            }
            assert(after@.files.dom() =~= expected.dom());
            assert forall|other: Seq<char>| after@.files.dom().contains(other) implies
                after@.files[other] == expected[other] by {
                let at = position(after.entries@, other);
                after.lemma_position(at);
                before.lemma_position(at);
            }
            assert(after@.files =~= expected);
        }
    }

    /// The mutations that make the files hold what they hold now: one for each file that is not as
    /// it was, in order.
    pub fn into_mutations(self) -> (mutations: Vec<FileMutation>)
        requires
            self.is_valid(),
        ensures
            mutation_views(mutations@) == self@.mutations(self@.order.len()),
    {
        let mut mutations: Vec<FileMutation> = Vec::new();
        let mut index: usize = 0;
        while index < self.entries.len()
            invariant
                self.is_valid(),
                index <= self.entries.len(),
                mutation_views(mutations@) =~= self@.mutations(index as nat),
            decreases self.entries.len() - index,
        {
            proof {
                self.lemma_position(index as int);
            }
            let ghost earlier = mutations@;
            match net_mutation(&self.entries[index]) {
                Some(mutation) => {
                    mutations.push(mutation);
                    assert(mutation_views(mutations@) =~= mutation_views(earlier).push(mutation@));
                },
                None => {},
            }
            index = index + 1;
        }
        mutations
    }
}

} // verus!
