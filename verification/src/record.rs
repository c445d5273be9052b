//! What a prepared patch says of itself: which changes it asks for, what they replace, which files it
//! names, and why a patch cannot be prepared. All of it is told by the hunks and the files.

use vstd::prelude::*;
use vstd::utf8::encode_utf8;

use crate::error::{ErrorKind, IoErrorView};
use crate::file_system::FsReply;
use crate::net_effect::{held, patched};
use crate::patch::{
    AppliedChangeView, AppliedView, FileChangeView, Hunk, HunkOperation, KeyedChange, PatchFailure,
};
use crate::path::PathView;
use crate::prepared::{Patch, PrepareReply, UpdateView};
use crate::text::{text_of, utf8_error_text};

verus! {

/// What came back for the hunks that update their files, in order.
pub open spec fn came_back(replies: Seq<PrepareReply>) -> Seq<UpdateView>
    decreases replies.len(),
{
    if replies.len() == 0 {
        Seq::empty()
    } else {
        let earlier = came_back(replies.drop_last());
        match replies.last() {
            PrepareReply::Updated(Ok(update)) => earlier.push(update@),
            _ => earlier,
        }
    }
}

/// The new contents.
pub open spec fn contents_of(updates: Seq<UpdateView>) -> Seq<Seq<char>> {
    Seq::new(updates.len(), |i: int| updates[i].content)
}

/// How many of the first `count` hunks update their files.
pub open spec fn update_count(hunks: Seq<Hunk>, count: int) -> nat
    decreases count,
{
    if count <= 0 {
        0
    } else {
        update_count(hunks, count - 1) + (if hunks[count - 1].operation is UpdateFile {
            1nat
        } else {
            0nat
        })
    }
}

/// The files after the first `count` hunks.
pub open spec fn files_after(
    files: Map<Seq<char>, Seq<u8>>,
    hunks: Seq<Hunk>,
    updates: Seq<UpdateView>,
    count: int,
) -> Map<Seq<char>, Seq<u8>> {
    patched(
        files,
        hunks.take(count),
        contents_of(updates).take(update_count(hunks, count) as int),
    )
}

/// The text that the file at `uri` holds, where there is a file and it holds text.
pub open spec fn text_at(files: Map<Seq<char>, Seq<u8>>, uri: Seq<char>) -> Option<Seq<char>> {
    match held(files, uri) {
        Some(bytes) => text_of(bytes),
        None => None,
    }
}

/// Whether there is no file at `uri`, or one that holds text.
pub open spec fn is_text(files: Map<Seq<char>, Seq<u8>>, uri: Seq<char>) -> bool {
    held(files, uri) is None || text_at(files, uri) is Some
}

/// What a hunk finds and leaves: the files before it and after it, and what came back for it, where
/// it updates its file.
pub struct Played {
    pub before: Map<Seq<char>, Seq<u8>>,
    pub after: Map<Seq<char>, Seq<u8>>,
    pub update: Option<UpdateView>,
}

/// What hunk `k` finds and leaves.
pub open spec fn played(
    files: Map<Seq<char>, Seq<u8>>,
    hunks: Seq<Hunk>,
    updates: Seq<UpdateView>,
    k: int,
) -> Played {
    Played {
        before: files_after(files, hunks, updates, k),
        after: files_after(files, hunks, updates, k + 1),
        update: if hunks[k].operation is UpdateFile {
            Some(updates[update_count(hunks, k) as int])
        } else {
            None
        },
    }
}

/// The file of a hunk.
pub open spec fn source_of(hunk: Hunk) -> PathView {
    hunk.source->Ok_0@
}

/// Where a hunk moves its file, where it does.
pub open spec fn destination_of(hunk: Hunk) -> Option<PathView> {
    match hunk.operation {
        HunkOperation::UpdateFile { destination: Some(Ok(path)) } => Some(path@),
        _ => None,
    }
}

/// The file that holds what an update makes.
pub open spec fn end_of(hunk: Hunk) -> PathView {
    match destination_of(hunk) {
        Some(path) => path,
        None => source_of(hunk),
    }
}

/// Whether `change` is what the hunk asks for. New contents are those that the hunk leaves behind,
/// and deleted ones those that it found.
pub open spec fn is_asked_for(change: KeyedChange, hunk: Hunk, played: Played) -> bool {
    let uri = source_of(hunk).uri;
    &&& change.path == source_of(hunk)
    &&& match (hunk.operation, change.change) {
        (HunkOperation::AddFile { .. }, FileChangeView::Add { content }) => held(
            played.after,
            uri,
        ) == Some(encode_utf8(content)),
        (HunkOperation::DeleteFile, FileChangeView::Delete { content }) => {
            ||| text_at(played.before, uri) == Some(content)
            ||| text_at(played.before, uri) is None && content.len() == 0
        },
        (
            HunkOperation::UpdateFile { .. },
            FileChangeView::Update { unified_diff, move_path, new_content },
        ) => {
            &&& unified_diff == played.update->0.unified_diff
            &&& move_path == destination_of(hunk)
            &&& held(played.after, end_of(hunk).uri) == Some(encode_utf8(new_content))
        },
        _ => false,
    }
}

/// Whether `change` tells what the hunk did: what it left behind, and the text that it replaced.
pub open spec fn tells(change: AppliedView, hunk: Hunk, played: Played) -> bool {
    let uri = source_of(hunk).uri;
    &&& change.path == source_of(hunk)
    &&& match (hunk.operation, change.change) {
        (
            HunkOperation::AddFile { .. },
            AppliedChangeView::Add { content, overwritten_content },
        ) => {
            &&& held(played.after, uri) == Some(encode_utf8(content))
            &&& overwritten_content == text_at(played.before, uri)
        },
        (HunkOperation::DeleteFile, AppliedChangeView::Delete { content }) => text_at(
            played.before,
            uri,
        ) == Some(content),
        (
            HunkOperation::UpdateFile { .. },
            AppliedChangeView::Update {
                move_path,
                old_content,
                overwritten_move_content,
                new_content,
            },
        ) => {
            &&& move_path == destination_of(hunk)
            &&& text_at(played.before, uri) == Some(old_content)
            &&& overwritten_move_content == match destination_of(hunk) {
                Some(path) => text_at(played.before, path.uri),
                None => None,
            }
            &&& held(played.after, end_of(hunk).uri) == Some(encode_utf8(new_content))
        },
        _ => false,
    }
}

/// Whether a change can tell what the hunk did: only the deletion of a file without text is not told.
pub open spec fn is_tellable(hunk: Hunk, played: Played) -> bool {
    hunk.operation is DeleteFile ==> text_at(played.before, source_of(hunk).uri) is Some
}

/// Whether a change can tell all that the hunk replaced: whatever it replaced was text.
pub open spec fn is_text_replaced(hunk: Hunk, played: Played) -> bool {
    match hunk.operation {
        HunkOperation::UpdateFile { .. } => match destination_of(hunk) {
            Some(path) => is_text(played.before, path.uri),
            None => true,
        },
        _ => is_text(played.before, source_of(hunk).uri),
    }
}

/// How many of the first `count` hunks can be told of.
pub open spec fn told_count(
    files: Map<Seq<char>, Seq<u8>>,
    hunks: Seq<Hunk>,
    updates: Seq<UpdateView>,
    count: int,
) -> nat
    decreases count,
{
    if count <= 0 {
        0
    } else {
        told_count(files, hunks, updates, count - 1) + (if is_tellable(
            hunks[count - 1],
            played(files, hunks, updates, count - 1),
        ) {
            1nat
        } else {
            0nat
        })
    }
}

/// The three lists of files that a patch names.
pub enum Listing {
    Added,
    Modified,
    Deleted,
}

/// Whether the file of the hunk is in the list.
pub open spec fn is_listed(hunk: Hunk, listing: Listing) -> bool {
    match listing {
        Listing::Added => hunk.operation is AddFile,
        Listing::Modified => hunk.operation is UpdateFile,
        Listing::Deleted => hunk.operation is DeleteFile,
    }
}

/// The files in the list, as the patch spells them, for the first `count` hunks.
pub open spec fn listed(hunks: Seq<Hunk>, listing: Listing, count: int) -> Seq<Seq<char>>
    decreases count,
{
    if count <= 0 {
        Seq::empty()
    } else if is_listed(hunks[count - 1], listing) {
        listed(hunks, listing, count - 1).push(hunks[count - 1].path@)
    } else {
        listed(hunks, listing, count - 1)
    }
}

/// Whether none of the first `count` hunks after hunk `k` is for the same file.
pub open spec fn is_last(hunks: Seq<Hunk>, count: int, k: int) -> bool {
    forall|j: int|
        k < j < count ==> source_of(#[trigger] hunks[j]).uri != source_of(hunks[k]).uri
}

/// Whether an earlier hunk is for the same file as hunk `k`.
pub open spec fn is_repeated(hunks: Seq<Hunk>, k: int) -> bool {
    exists|j: int|
        0 <= j < k && source_of(#[trigger] hunks[j]).uri == source_of(hunks[k]).uri
}

/// Whether hunk `k` can be played through: its paths can be resolved, a file that it deletes is
/// there, one that it updates is there and holds text, it does not move its file to where it is, and
/// it is for a file of its own, where files may not be named twice.
pub open spec fn is_playable(
    patch: Patch,
    files: Map<Seq<char>, Seq<u8>>,
    updates: Seq<UpdateView>,
    k: int,
) -> bool {
    let hunk = patch.hunks@[k];
    let before = files_after(files, patch.hunks@, updates, k);
    &&& hunk.source is Ok
    &&& patch.repeated_source_paths is Reject ==> !is_repeated(patch.hunks@, k)
    &&& match hunk.operation {
        HunkOperation::AddFile { .. } => true,
        HunkOperation::DeleteFile => held(before, source_of(hunk).uri) is Some,
        HunkOperation::UpdateFile { destination } => {
            &&& text_at(before, source_of(hunk).uri) is Some
            &&& destination matches Some(destination) ==> destination is Ok
                && destination->Ok_0.uri@ != source_of(hunk).uri
        },
    }
}

/// The path that is mentioned at `position`: a hunk mentions its file and then where it moves it.
pub open spec fn mention(hunks: Seq<Hunk>, position: int) -> Option<PathView> {
    let hunk = hunks[position / 2];
    if position % 2 == 0 {
        Some(source_of(hunk))
    } else {
        destination_of(hunk)
    }
}

/// Whether the path is mentioned at `position`, and its file not before.
pub open spec fn is_first_mention(hunks: Seq<Hunk>, position: int, path: PathView) -> bool {
    &&& 0 <= position < 2 * hunks.len()
    &&& mention(hunks, position) == Some(path)
    &&& forall|earlier: int|
        0 <= earlier < position ==> (#[trigger] mention(hunks, earlier) matches Some(other)
            ==> other.uri != path.uri)
}

/// Whether the reply says that there is no file, with this error.
pub open spec fn says_missing(reply: PrepareReply, error: IoErrorView) -> bool {
    &&& reply matches PrepareReply::Fs(FsReply::Contents(Err(said)))
    &&& said@ == error
    &&& error.kind == ErrorKind::NotFound
}

/// Whether `error` says that the file at `uri` is missing: with what the filesystem said of it, where
/// it was missing before the patch, and that there is none, where the patch took it away.
pub open spec fn is_missing_error(
    files: Map<Seq<char>, Seq<u8>>,
    replies: Seq<PrepareReply>,
    uri: Seq<char>,
    error: IoErrorView,
) -> bool {
    if held(files, uri) is Some {
        error.kind == ErrorKind::NotFound && error.message == "entity not found"@
    } else {
        exists|r: int| 0 <= r < replies.len() && says_missing(#[trigger] replies[r], error)
    }
}

/// Whether `failure` is that a file could not be read for `error`, for what `purpose` says.
pub open spec fn is_read_failure(
    failure: PatchFailure,
    purpose: Seq<char>,
    path: PathView,
    error: IoErrorView,
) -> bool {
    failure == (PatchFailure::Io { context: purpose + path.display, source: error })
}

/// Whether the patch cannot be prepared because of hunk `k`, and `failure` says why.
pub open spec fn is_reason(
    patch: Patch,
    files: Map<Seq<char>, Seq<u8>>,
    replies: Seq<PrepareReply>,
    k: int,
    failure: PatchFailure,
) -> bool {
    let hunk = patch.hunks@[k];
    let path = source_of(hunk);
    let before = files_after(files, patch.hunks@, came_back(replies), k);
    let answer = replies.last();
    match hunk.source {
        // The path of the file cannot be resolved.
        Err(error) => failure == error@,
        Ok(_) => if patch.repeated_source_paths is Reject && is_repeated(patch.hunks@, k) {
            failure == PatchFailure::InvalidPatch("multiple operations target "@ + path.display)
        } else {
            // The file, or the one in whose place it moves, was asked for and cannot be read.
            ||| {
                &&& replies.len() > 0
                &&& answer matches PrepareReply::Fs(FsReply::Contents(Err(error)))
                &&& error.kind != ErrorKind::NotFound
                &&& {
                    ||| is_read_failure(failure, "Failed to read "@, path, error@)
                    ||| destination_of(hunk) is Some && is_read_failure(
                        failure,
                        "Failed to read "@,
                        destination_of(hunk)->0,
                        error@,
                    )
                }
            }
            // The file is not there.
            ||| {
                &&& hunk.operation is DeleteFile
                &&& held(before, path.uri) is None
                &&& exists|error: IoErrorView| #[trigger]
                    is_missing_error(files, replies, path.uri, error) && is_read_failure(
                        failure,
                        "Failed to read file to delete "@,
                        path,
                        error,
                    )
            }
            ||| {
                &&& hunk.operation is UpdateFile
                &&& held(before, path.uri) is None
                &&& exists|error: IoErrorView| #[trigger]
                    is_missing_error(files, replies, path.uri, error) && is_read_failure(
                        failure,
                        "Failed to read file to update "@,
                        path,
                        error,
                    )
            }
            // The file holds no text.
            ||| {
                &&& hunk.operation is UpdateFile
                &&& held(before, path.uri) is Some
                &&& text_at(before, path.uri) is None
                &&& is_read_failure(
                    failure,
                    "Failed to read file to update "@,
                    path,
                    IoErrorView {
                        kind: ErrorKind::InvalidData,
                        message: utf8_error_text(held(before, path.uri)->0),
                    },
                )
            }
            // The lines of the hunk do not fit.
            ||| {
                &&& replies.len() > 0
                &&& hunk.operation is UpdateFile
                &&& answer matches PrepareReply::Updated(Err(error))
                &&& failure == error@
            }
            // The file cannot move there.
            ||| {
                &&& replies.len() > 0
                &&& answer matches PrepareReply::Updated(Ok(_))
                &&& hunk.operation matches HunkOperation::UpdateFile { destination: Some(moved) }
                &&& match moved {
                    Err(error) => failure == error@,
                    Ok(moved) => moved.uri@ == path.uri && failure == PatchFailure::InvalidPatch(
                        "move destination is the same as source "@ + path.display,
                    ),
                }
            }
        },
    }
}

} // verus!
