//! Paths: a URI and the absolute native path that it names on this host.

use vstd::prelude::*;

use crate::error::{IoError, IoErrorView};
use crate::text::separated;

verus! {

/// An absolute path in native form: a root and the names below it.
#[derive(Debug)]
pub struct NativePath {
    /// The text of the root, such as `/` or `C:\`.
    pub root: String,
    /// The text between two names.
    pub separator: String,
    /// The names below the root, outermost first.
    pub components: Vec<String>,
}

/// The text of each name in `components`.
pub open spec fn names(components: Seq<String>) -> Seq<Seq<char>> {
    Seq::new(components.len(), |i: int| components[i]@)
}

/// What identifies a place in the file tree: the root and the names below it. The separator is
/// notation and takes no part.
#[verifier::ext_equal]
pub struct Place {
    pub root: Seq<char>,
    pub names: Seq<Seq<char>>,
}

impl Place {
    /// The place `levels` directories further up.
    pub open spec fn up(self, levels: nat) -> Place {
        Place { root: self.root, names: self.names.take(self.names.len() - levels) }
    }
}

/// What a [`NativePath`] says.
#[verifier::ext_equal]
pub struct NativeView {
    pub place: Place,
    pub separator: Seq<char>,
}

impl NativeView {
    /// The path `levels` directories further up, as text.
    pub open spec fn text(self, levels: nat) -> Seq<char> {
        self.place.root + separated(self.place.up(levels).names, self.separator)
    }
}

impl View for NativePath {
    type V = NativeView;

    open spec fn view(&self) -> NativeView {
        NativeView {
            place: Place { root: self.root@, names: names(self.components@) },
            separator: self.separator@,
        }
    }
}

impl NativePath {
    /// Whether both paths name the same place.
    pub fn same_place(&self, other: &NativePath) -> (same: bool)
        ensures
            same == (self@.place == other@.place),
    {
        if self.root != other.root || self.components.len() != other.components.len() {
            assert(self@.place == other@.place ==> self@.place.names.len()
                == other@.place.names.len());
            return false;
        }
        let mut index: usize = 0;
        while index < self.components.len()
            invariant
                index <= self.components.len(),
                self.components.len() == other.components.len(),
                self.root@ == other.root@,
                forall|k: int|
                    0 <= k < index ==> #[trigger] self.components@[k]@ == other.components@[k]@,
            decreases self.components.len() - index,
        {
            if self.components[index] != other.components[index] {
                assert(self@.place.names[index as int] != other@.place.names[index as int]);
                return false;
            }
            index = index + 1;
        }
        assert(self@.place.names =~= other@.place.names);
        true
    }

    /// The number of directories above this path.
    pub fn parent_count(&self) -> (count: usize)
        ensures
            count == self@.place.names.len(),
    {
        self.components.len()
    }

    /// The path `levels` directories further up, as text.
    pub fn text(&self, levels: usize) -> (text: String)
        requires
            levels <= self@.place.names.len(),
        ensures
            text@ == self@.text(levels as nat),
    {
        let kept: usize = self.components.len() - levels;
        let mut text: String = self.root.clone();
        let ghost all = self@.place.names;
        let mut index: usize = 0;
        proof {
            assert(all.take(0) =~= Seq::<Seq<char>>::empty());
            assert(text@ =~= self.root@ + separated(all.take(0), self.separator@));
        }
        while index < kept
            invariant
                index <= kept,
                kept == self.components.len() - levels,
                levels <= self.components.len(),
                all == names(self.components@),
                text@ == self.root@ + separated(all.take(index as int), self.separator@),
            decreases kept - index,
        {
            proof {
                let longer = all.take(index + 1);
                assert(longer.drop_last() =~= all.take(index as int));
                assert(longer.last() == self.components@[index as int]@);
                if index == 0 {
                    assert(text@ + self.components@[0]@ =~= self.root@ + separated(
                        longer,
                        self.separator@,
                    ));
                } else {
                    assert(text@ + self.separator@ + self.components@[index as int]@ =~= self.root@
                        + separated(longer, self.separator@));
                }
            }
            if index > 0 {
                text.append(self.separator.as_str());
            }
            text.append(self.components[index].as_str());
            index = index + 1;
        }
        text
    }
}

impl Clone for NativePath {
    fn clone(&self) -> (copy: Self)
        ensures
            copy@ == self@,
    {
        let mut components: Vec<String> = Vec::new();
        let mut index: usize = 0;
        while index < self.components.len()
            invariant
                index <= self.components.len(),
                components@ =~= self.components@.take(index as int),
            decreases self.components.len() - index,
        {
            components.push(self.components[index].clone());
            index = index + 1;
        }
        assert(components@ =~= self.components@);
        NativePath { root: self.root.clone(), separator: self.separator.clone(), components }
    }
}

/// A path as a URI, with what this host makes of it.
#[derive(Debug)]
pub struct PathUri {
    /// The URI. Two paths are the same path when their URIs are the same.
    pub uri: String,
    /// The native spelling inferred from the URI, for messages.
    pub display: String,
    /// The absolute native path, or why the URI names none on this host.
    pub native: Result<NativePath, IoError>,
}

/// What a [`PathUri`] says.
#[verifier::ext_equal]
pub struct PathView {
    pub uri: Seq<char>,
    pub display: Seq<char>,
    pub native: Result<NativeView, IoErrorView>,
}

impl View for PathUri {
    type V = PathView;

    open spec fn view(&self) -> PathView {
        PathView {
            uri: self.uri@,
            display: self.display@,
            native: match self.native {
                Ok(native) => Ok(native@),
                Err(error) => Err(error@),
            },
        }
    }
}

impl PathUri {
    /// The place that the path names, where it names one.
    pub open spec fn place(&self) -> Place {
        self.native->Ok_0@.place
    }

    /// The absolute native path.
    pub fn to_abs_path(&self) -> (native: Result<&NativePath, IoError>)
        ensures
            native is Ok <==> self.native is Ok,
            native matches Ok(path) ==> *path == self.native->Ok_0,
            native matches Err(error) ==> error == self.native->Err_0,
    {
        match &self.native {
            Ok(native) => Ok(native),
            Err(error) => Err(error.clone()),
        }
    }

    /// Whether both are the same path.
    pub fn same_uri(&self, other: &PathUri) -> (same: bool)
        ensures
            same == (self@.uri == other@.uri),
    {
        self.uri == other.uri
    }
}

impl Clone for PathUri {
    fn clone(&self) -> (copy: Self)
        ensures
            copy@ == self@,
    {
        PathUri {
            uri: self.uri.clone(),
            display: self.display.clone(),
            native: match &self.native {
                Ok(native) => Ok(native.clone()),
                Err(error) => Err(error.clone()),
            },
        }
    }
}

/// A place is itself at no distance, and to go up twice is to go up once by both distances.
pub proof fn law_going_up_adds(place: Place, first: nat, second: nat)
    requires
        first + second <= place.names.len(),
    ensures
        place.up(0) == place,
        place.up(first).up(second) == place.up(first + second),
        place.up(first).names.len() == place.names.len() - first,
        place.up(first).root == place.root,
        forall|i: int|
            0 <= i < place.names.len() - first ==> #[trigger] place.up(first).names[i]
                == place.names[i],
{
    assert(place.up(0).names =~= place.names);
    assert(place.up(first).up(second).names =~= place.up(first + second).names);
}

/// The text of a path is that of its directory and its own name, with a separator between them
/// unless the directory is the root.
pub proof fn law_path_text_adds_names(path: NativeView, levels: nat)
    requires
        levels < path.place.names.len(),
    ensures
        ({
            let above = path.text(levels + 1);
            let name = path.place.names[path.place.names.len() - levels - 1];
            path.text(levels) == if levels + 1 == path.place.names.len() {
                above + name
            } else {
                above + path.separator + name
            }
        }),
        path.text(path.place.names.len()) == path.place.root,
{
    let kept = path.place.up(levels).names;
    assert(kept.drop_last() =~= path.place.up(levels + 1).names);
    assert(path.text(path.place.names.len()) =~= path.place.root);
    if levels + 1 == path.place.names.len() {
        assert(path.text(levels) =~= path.text(levels + 1) + kept.last());
    } else {
        assert(path.text(levels) =~= path.text(levels + 1) + path.separator + kept.last());
    }
}

} // verus!
