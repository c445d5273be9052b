//! What a prepared patch comes to: its batch has the effect of its hunks, one after the other, and
//! an exact delta tells how to undo it.

use vstd::prelude::*;
use vstd::utf8::encode_utf8;

use crate::error::ErrorKind;
use crate::file_system::FsReply;
use crate::mutation::MutationView;
use crate::overlay::OverlayView;
use crate::patch::{AppliedChangeView, AppliedView, Hunk, HunkOperation};
use crate::path::PathView;
use crate::prepared::{
    hunk_next, hunk_start, is_told, prepare_next, prepare_onward, prepare_start, replaced_text,
    source_loaded, DraftView, HunkNext, LoadStage, Patch, PreparationView, PrepareNext,
    PrepareReply, PrepareStageView, UpdateView,
};
use crate::text::law_text_is_written_as_it_was_read;

verus! {

/// What the file at `uri` holds; `None` is no file.
pub open spec fn held(files: Map<Seq<char>, Seq<u8>>, uri: Seq<char>) -> Option<Seq<u8>> {
    if files.contains_key(uri) {
        Some(files[uri])
    } else {
        None
    }
}

/// The files with the one at `uri` holding `contents`; `None` is no file.
pub open spec fn put(
    files: Map<Seq<char>, Seq<u8>>,
    uri: Seq<char>,
    contents: Option<Seq<u8>>,
) -> Map<Seq<char>, Seq<u8>> {
    match contents {
        Some(bytes) => files.insert(uri, bytes),
        None => files.remove(uri),
    }
}

/// The files after `hunks`, one after the other. `updates` are the new contents for those hunks that
/// update their files, in order.
pub open spec fn patched(
    files: Map<Seq<char>, Seq<u8>>,
    hunks: Seq<Hunk>,
    updates: Seq<Seq<char>>,
) -> Map<Seq<char>, Seq<u8>>
    decreases hunks.len(),
{
    if hunks.len() == 0 {
        files
    } else {
        let earlier = hunks.drop_last();
        let uri = hunks.last().source->Ok_0.uri@;
        match hunks.last().operation {
            HunkOperation::AddFile { contents } => put(
                patched(files, earlier, updates),
                uri,
                Some(encode_utf8(contents@)),
            ),
            HunkOperation::DeleteFile => put(patched(files, earlier, updates), uri, None),
            HunkOperation::UpdateFile { destination } => {
                let before = patched(files, earlier, updates.drop_last());
                let content = Some(encode_utf8(updates.last()));
                match destination {
                    Some(destination) => put(
                        put(before, destination->Ok_0.uri@, content),
                        uri,
                        None,
                    ),
                    None => put(before, uri, content),
                }
            },
        }
    }
}

/// The files after the mutations.
pub open spec fn mutated(
    files: Map<Seq<char>, Seq<u8>>,
    mutations: Seq<MutationView>,
) -> Map<Seq<char>, Seq<u8>>
    decreases mutations.len(),
{
    if mutations.len() == 0 {
        files
    } else {
        put(
            mutated(files, mutations.drop_last()),
            mutations.last().path.uri,
            mutations.last().after,
        )
    }
}

/// The bytes of `text`, where there is any.
pub open spec fn bytes_of(text: Option<Seq<char>>) -> Option<Seq<u8>> {
    match text {
        Some(text) => Some(encode_utf8(text)),
        None => None,
    }
}

/// The files before `change`, where they are `files` after it, as far as the change tells.
pub open spec fn undone(
    files: Map<Seq<char>, Seq<u8>>,
    change: AppliedView,
) -> Map<Seq<char>, Seq<u8>> {
    let uri = change.path.uri;
    match change.change {
        AppliedChangeView::Add { overwritten_content, .. } => put(
            files,
            uri,
            bytes_of(overwritten_content),
        ),
        AppliedChangeView::Delete { content } => put(files, uri, Some(encode_utf8(content))),
        AppliedChangeView::Update { move_path, old_content, overwritten_move_content, .. } => put(
            match move_path {
                Some(destination) => put(
                    files,
                    destination.uri,
                    bytes_of(overwritten_move_content),
                ),
                None => files,
            },
            uri,
            Some(encode_utf8(old_content)),
        ),
    }
}

/// The files before all the changes, the last one undone first.
pub open spec fn reverted(
    files: Map<Seq<char>, Seq<u8>>,
    changes: Seq<AppliedView>,
) -> Map<Seq<char>, Seq<u8>>
    decreases changes.len(),
{
    if changes.len() == 0 {
        files
    } else {
        reverted(undone(files, changes.last()), changes.drop_last())
    }
}

/// Where the preparation of a patch stands after `replies`, in order.
pub open spec fn prepare_after(patch: Patch, replies: Seq<PrepareReply>) -> PrepareNext
    decreases replies.len(),
{
    if replies.len() == 0 {
        prepare_start(patch)
    } else {
        match prepare_after(patch, replies.drop_last()) {
            PrepareNext::Pending(state) => prepare_next(state, replies.last()),
            next => next,
        }
    }
}

/// Whether `read` is true of the file at `uri`.
pub open spec fn is_true_read(
    files: Map<Seq<char>, Seq<u8>>,
    uri: Seq<char>,
    reply: PrepareReply,
) -> bool {
    match reply {
        PrepareReply::Fs(FsReply::Contents(Ok(bytes))) => held(files, uri) == Some(bytes@),
        PrepareReply::Fs(FsReply::Contents(Err(error))) => error.kind == ErrorKind::NotFound
            ==> held(files, uri) is None,
        _ => true,
    }
}

/// Whether the reply that `state` awaits is one of a filesystem that holds `files`, and an update is
/// one of the text that it was asked for. Every request may fail.
pub open spec fn is_true_reply(
    files: Map<Seq<char>, Seq<u8>>,
    state: PreparationView,
    reply: PrepareReply,
) -> bool {
    &&& state.accepts(reply)
    &&& match state.stage {
        PrepareStageView::Source(_) => is_true_read(
            files,
            state.hunk().source->Ok_0.uri@,
            reply,
        ),
        PrepareStageView::Updating(text) => reply matches PrepareReply::Updated(Ok(update))
            ==> update.original_content@ == text,
        PrepareStageView::Destination(_, _) => is_true_read(
            files,
            state.hunk().operation->destination->0->Ok_0.uri@,
            reply,
        ),
    }
}

/// Whether `replies` are those that the preparation of a patch gets from a filesystem that holds
/// `files` all the while.
pub open spec fn is_reading(
    patch: Patch,
    files: Map<Seq<char>, Seq<u8>>,
    replies: Seq<PrepareReply>,
) -> bool {
    forall|k: int|
        0 <= k < replies.len() ==> {
            &&& prepare_after(patch, #[trigger] replies.take(k)) matches PrepareNext::Pending(state)
            &&& is_true_reply(files, state, replies[k])
        }
}

/// The new contents that came back, in order.
pub open spec fn updates_of(replies: Seq<PrepareReply>) -> Seq<Seq<char>>
    decreases replies.len(),
{
    if replies.len() == 0 {
        Seq::empty()
    } else {
        let earlier = updates_of(replies.drop_last());
        match replies.last() {
            PrepareReply::Updated(Ok(update)) => earlier.push(update.content@),
            _ => earlier,
        }
    }
}

/// The files as the overlay has them: `files`, but for those that have been read.
pub(crate) open spec fn merged(files: Map<Seq<char>, Seq<u8>>, overlay: OverlayView) -> Map<Seq<char>, Seq<u8>> {
    Map::new(
        |uri: Seq<char>|
            if overlay.files.contains_key(uri) {
                overlay.files[uri].current is Some
            } else {
                files.contains_key(uri)
            },
        |uri: Seq<char>|
            if overlay.files.contains_key(uri) {
                overlay.files[uri].current->0
            } else {
                files[uri]
            },
    )
}

/// What holds where `count` hunks have been played through with `updates`.
pub(crate) open spec fn stands(
    patch: Patch,
    files: Map<Seq<char>, Seq<u8>>,
    draft: DraftView,
    count: int,
    updates: Seq<Seq<char>>,
) -> bool {
    &&& draft.overlay.is_valid()
    &&& forall|uri: Seq<char>| #[trigger]
        draft.overlay.files.contains_key(uri) ==> draft.overlay.files[uri].initial == held(
            files,
            uri,
        )
    &&& merged(files, draft.overlay) == patched(files, patch.hunks@.take(count), updates)
    &&& draft.delta.exact ==> reverted(merged(files, draft.overlay), draft.delta.changes) == files
    &&& forall|k: int|
        0 <= k < count ==> (#[trigger] patch.hunks@[k]).source is Ok
            && draft.changes.contains_key(patch.hunks@[k].source->Ok_0.uri@)
    &&& patch.repeated_source_paths is Reject ==> are_distinct(patch, count)
}

/// Whether the first `count` hunks are for different files.
pub open spec fn are_distinct(patch: Patch, count: int) -> bool {
    forall|i: int, j: int|
        0 <= i < j < count ==> (#[trigger] patch.hunks@[i]).source->Ok_0.uri@ != (
        #[trigger] patch.hunks@[j]).source->Ok_0.uri@
}

/// What holds where the hunk after the first `index` awaits a reply.
pub(crate) open spec fn awaits(
    patch: Patch,
    files: Map<Seq<char>, Seq<u8>>,
    draft: DraftView,
    index: int,
    stage: PrepareStageView,
    updates: Seq<Seq<char>>,
) -> bool {
    let state = PreparationView { patch, draft, index, stage };
    let path = state.hunk().source->Ok_0@;
    &&& state.is_valid()
    &&& patch.repeated_source_paths is Reject ==> !draft.changes.contains_key(path.uri)
    &&& match stage {
        PrepareStageView::Destination(_, update) => {
            &&& updates.len() > 0
            &&& updates.last() == update.content
            &&& stands(patch, files, draft, index, updates.drop_last())
            &&& replaced_text(draft.current(path)) == Some(update.original_content)
        },
        _ => stands(patch, files, draft, index, updates),
    }
}

/// What holds where the hunk after the first `index` goes on so.
pub(crate) open spec fn hunk_holds(
    patch: Patch,
    files: Map<Seq<char>, Seq<u8>>,
    index: int,
    next: HunkNext,
    updates: Seq<Seq<char>>,
) -> bool {
    match next {
        HunkNext::Advance(draft) => stands(patch, files, draft, index + 1, updates),
        HunkNext::Await(draft, stage) => awaits(patch, files, draft, index, stage, updates),
        HunkNext::Fail(_) => true,
    }
}

/// What holds where the preparation stands so.
spec fn holds(
    patch: Patch,
    files: Map<Seq<char>, Seq<u8>>,
    next: PrepareNext,
    updates: Seq<Seq<char>>,
) -> bool {
    match next {
        PrepareNext::Pending(state) => state.patch == patch && awaits(
            patch,
            files,
            state.draft,
            state.index,
            state.stage,
            updates,
        ),
        PrepareNext::Failed(_) => true,
        PrepareNext::Done(draft) => stands(
            patch,
            files,
            draft,
            patch.hunks@.len() as int,
            updates,
        ),
    }
}

pub(crate) proof fn lemma_same(one: Map<Seq<char>, Seq<u8>>, other: Map<Seq<char>, Seq<u8>>)
    requires
        forall|uri: Seq<char>| #[trigger] held(one, uri) == held(other, uri),
    ensures
        one == other,
{
    assert forall|uri: Seq<char>| one.dom().contains(uri) == other.dom().contains(uri) by {
        assert(held(one, uri) == held(other, uri));
    }
    assert(one.dom() =~= other.dom());
    assert forall|uri: Seq<char>| #[trigger] one.dom().contains(uri) implies one[uri]
        == other[uri] by {
        assert(held(one, uri) == held(other, uri));
    }
    assert(one =~= other);
}

/// Setting a file in the overlay sets it in the files.
proof fn lemma_set_current(
    files: Map<Seq<char>, Seq<u8>>,
    overlay: OverlayView,
    path: PathView,
    contents: Option<Seq<u8>>,
)
    requires
        overlay.has(path),
        overlay.is_valid(),
    ensures
        merged(files, overlay.set_current(path, contents)) == put(
            merged(files, overlay),
            path.uri,
            contents,
        ),
        overlay.set_current(path, contents).is_valid(),
{
    let after = overlay.set_current(path, contents);
    assert(after.files.dom() =~= overlay.files.dom());
    assert(after.is_valid()) by {
        assert forall|uri: Seq<char>| #[trigger] after.files.dom().contains(uri) implies exists|
            i: int,
        |
            0 <= i < after.order.len() && #[trigger] after.order[i].uri == uri by {
            assert(overlay.files.dom().contains(uri));
            let i = choose|i: int|
                0 <= i < overlay.order.len() && #[trigger] overlay.order[i].uri == uri;
            assert(after.order[i].uri == uri);
        }
    }
    assert forall|uri: Seq<char>| #[trigger]
        held(merged(files, after), uri) == held(put(merged(files, overlay), path.uri, contents), uri)
        by {}
    lemma_same(merged(files, after), put(merged(files, overlay), path.uri, contents));
}

/// A file that is read truly changes nothing.
pub(crate) proof fn lemma_loaded(
    files: Map<Seq<char>, Seq<u8>>,
    draft: DraftView,
    path: PathView,
    read: Result<Seq<u8>, crate::error::IoErrorView>,
)
    requires
        draft.overlay.is_valid(),
        !draft.overlay.has(path),
        read matches Ok(bytes) ==> held(files, path.uri) == Some(bytes),
        read is Err ==> held(files, path.uri) is None,
    ensures
        draft.loaded(path, read).overlay.is_valid(),
        merged(files, draft.loaded(path, read).overlay) == merged(files, draft.overlay),
{
    let before = draft.overlay;
    let after = draft.loaded(path, read).overlay;
    assert(after.is_valid()) by {
        assert forall|i: int, j: int| 0 <= i < j < after.order.len() implies
            #[trigger] after.order[i].uri != #[trigger] after.order[j].uri by {
            assert(before.files.dom().contains(before.order[i].uri));
            if j < before.order.len() {
                assert(before.order[i].uri != before.order[j].uri);
            }
        }
        assert forall|i: int| 0 <= i < after.order.len() implies after.files.dom().contains(
            #[trigger] after.order[i].uri,
        ) by {
            if i < before.order.len() {
                assert(before.files.dom().contains(before.order[i].uri));
            }
        }
        assert forall|uri: Seq<char>| #[trigger] after.files.dom().contains(uri) implies exists|
            i: int,
        |
            0 <= i < after.order.len() && #[trigger] after.order[i].uri == uri by {
            if uri == path.uri {
                assert(after.order[before.order.len() as int].uri == uri);
            } else {
                assert(before.files.dom().contains(uri));
                let i = choose|i: int|
                    0 <= i < before.order.len() && #[trigger] before.order[i].uri == uri;
                assert(after.order[i].uri == uri);
            }
        }
    }
    assert forall|uri: Seq<char>| #[trigger]
        held(merged(files, after), uri) == held(merged(files, before), uri) by {}
    lemma_same(merged(files, after), merged(files, before));
}

/// Text that was replaced can be put back.
proof fn lemma_put_back(
    files: Map<Seq<char>, Seq<u8>>,
    uri: Seq<char>,
    contents: Option<Seq<u8>>,
)
    requires
        is_told(held(files, uri)),
    ensures
        bytes_of(replaced_text(held(files, uri))) == held(files, uri),
        put(put(files, uri, contents), uri, bytes_of(replaced_text(held(files, uri)))) == files,
{
    match held(files, uri) {
        Some(bytes) => {
            law_text_is_written_as_it_was_read(bytes);
        },
        None => {},
    }
    let after = put(put(files, uri, contents), uri, held(files, uri));
    assert forall|other: Seq<char>| #[trigger] held(after, other) == held(files, other) by {}
    lemma_same(after, files);
}

proof fn lemma_reverted_push(
    files: Map<Seq<char>, Seq<u8>>,
    changes: Seq<AppliedView>,
    change: AppliedView,
)
    ensures
        reverted(files, changes.push(change)) == reverted(undone(files, change), changes),
{
    assert(changes.push(change).drop_last() =~= changes);
}

pub(crate) proof fn lemma_take(patch: Patch, index: int)
    requires
        0 <= index < patch.hunks@.len(),
    ensures
        patch.hunks@.take(index + 1).drop_last() == patch.hunks@.take(index),
        patch.hunks@.take(index + 1).last() == patch.hunks@[index],
        patch.hunks@.take(index + 1).len() > 0,
{
    assert(patch.hunks@.take(index + 1).drop_last() =~= patch.hunks@.take(index));
}

/// What holds of the hunks themselves when the one at `index` is done.
proof fn lemma_hunk_counted(patch: Patch, before: DraftView, after: DraftView, index: int)
    requires
        0 <= index < patch.hunks@.len(),
        patch.hunks@[index].source is Ok,
        forall|k: int|
            0 <= k < index ==> (#[trigger] patch.hunks@[k]).source is Ok
                && before.changes.contains_key(patch.hunks@[k].source->Ok_0.uri@),
        patch.repeated_source_paths is Reject ==> are_distinct(patch, index),
        patch.repeated_source_paths is Reject ==> !before.changes.contains_key(
            patch.hunks@[index].source->Ok_0.uri@,
        ),
        after.changes.dom() == before.changes.dom().insert(patch.hunks@[index].source->Ok_0.uri@),
    ensures
        forall|k: int|
            0 <= k < index + 1 ==> (#[trigger] patch.hunks@[k]).source is Ok
                && after.changes.contains_key(patch.hunks@[k].source->Ok_0.uri@),
        patch.repeated_source_paths is Reject ==> are_distinct(patch, index + 1),
{
    if patch.repeated_source_paths is Reject {
        assert forall|i: int, j: int| 0 <= i < j < index + 1 implies (
        #[trigger] patch.hunks@[i]).source->Ok_0.uri@ != (
        #[trigger] patch.hunks@[j]).source->Ok_0.uri@ by {
            if j == index {
                assert(before.changes.contains_key(patch.hunks@[i].source->Ok_0.uri@));
            }
        }
    }
}

/// The first of the files that a hunk changes, in the files as the overlay has them.
pub(crate) proof fn lemma_merged_held(files: Map<Seq<char>, Seq<u8>>, draft: DraftView, path: PathView)
    requires
        draft.overlay.has(path),
    ensures
        held(merged(files, draft.overlay), path.uri) == draft.current(path),
{
}

/// A hunk whose file has been read goes on rightly.
pub(crate) proof fn lemma_source_loaded(
    patch: Patch,
    files: Map<Seq<char>, Seq<u8>>,
    draft: DraftView,
    index: int,
    updates: Seq<Seq<char>>,
)
    requires
        0 <= index < patch.hunks@.len(),
        patch.hunks@[index].source is Ok,
        draft.overlay.has(patch.hunks@[index].source->Ok_0@),
        stands(patch, files, draft, index, updates),
        patch.repeated_source_paths is Reject ==> !draft.changes.contains_key(
            patch.hunks@[index].source->Ok_0.uri@,
        ),
    ensures
        hunk_holds(patch, files, index, source_loaded(patch.hunks@[index], draft), updates),
{
    let hunk = patch.hunks@[index];
    let path = hunk.source->Ok_0@;
    let before = merged(files, draft.overlay);
    lemma_take(patch, index);
    lemma_merged_held(files, draft, path);
    match hunk.operation {
        HunkOperation::AddFile { contents } => {
            let after = draft.added(path, hunk.path@, contents@);
            let content = Some(encode_utf8(contents@));
            lemma_set_current(files, draft.overlay, path, content);
            assert(after.changes.dom() =~= draft.changes.dom().insert(path.uri));
            lemma_hunk_counted(patch, draft, after, index);
            lemma_reverted_push(
                merged(files, after.overlay),
                draft.delta.changes,
                after.delta.changes.last(),
            );
            assert(after.delta.changes =~= draft.delta.changes.push(after.delta.changes.last()));
            if after.delta.exact {
                lemma_put_back(before, path.uri, content);
            }
        },
        HunkOperation::DeleteFile => {
            if let Some(bytes) = draft.current(path) {
                let after = draft.deleted(path, hunk.path@, bytes);
                lemma_set_current(files, draft.overlay, path, None);
                assert(after.changes.dom() =~= draft.changes.dom().insert(path.uri));
                lemma_hunk_counted(patch, draft, after, index);
                if after.delta.exact {
                    lemma_reverted_push(
                        merged(files, after.overlay),
                        draft.delta.changes,
                        after.delta.changes.last(),
                    );
                    assert(after.delta.changes =~= draft.delta.changes.push(
                        after.delta.changes.last(),
                    ));
                    lemma_put_back(before, path.uri, None);
                }
            }
        },
        HunkOperation::UpdateFile { .. } => {},
    }
}

/// A hunk that updates its file ends rightly.
pub(crate) proof fn lemma_updated(
    patch: Patch,
    files: Map<Seq<char>, Seq<u8>>,
    draft: DraftView,
    index: int,
    destination: Option<PathView>,
    update: UpdateView,
    updates: Seq<Seq<char>>,
)
    requires
        0 <= index < patch.hunks@.len(),
        patch.hunks@[index].source is Ok,
        patch.hunks@[index].operation is UpdateFile,
        draft.overlay.has(patch.hunks@[index].source->Ok_0@),
        match patch.hunks@[index].operation->destination {
            Some(target) => {
                &&& destination == Some(target->Ok_0@)
                &&& draft.overlay.has(target->Ok_0@)
                &&& target->Ok_0.uri@ != patch.hunks@[index].source->Ok_0.uri@
            },
            None => destination is None,
        },
        replaced_text(draft.current(patch.hunks@[index].source->Ok_0@)) == Some(
            update.original_content,
        ),
        stands(patch, files, draft, index, updates),
        patch.repeated_source_paths is Reject ==> !draft.changes.contains_key(
            patch.hunks@[index].source->Ok_0.uri@,
        ),
    ensures
        stands(
            patch,
            files,
            draft.updated(
                patch.hunks@[index].source->Ok_0@,
                patch.hunks@[index].path@,
                destination,
                update,
            ),
            index + 1,
            updates.push(update.content),
        ),
{
    let hunk = patch.hunks@[index];
    let path = hunk.source->Ok_0@;
    let before = merged(files, draft.overlay);
    let content = Some(encode_utf8(update.content));
    let after = draft.updated(path, hunk.path@, destination, update);
    let change = after.delta.changes.last();
    lemma_take(patch, index);
    lemma_merged_held(files, draft, path);
    assert(updates.push(update.content).drop_last() =~= updates);
    assert(after.changes.dom() =~= draft.changes.dom().insert(path.uri));
    lemma_hunk_counted(patch, draft, after, index);
    lemma_reverted_push(merged(files, after.overlay), draft.delta.changes, change);
    assert(after.delta.changes =~= draft.delta.changes.push(change));
    match destination {
        Some(target) => {
            let moved = draft.overlay.set_current(target, content);
            lemma_merged_held(files, draft, target);
            lemma_set_current(files, draft.overlay, target, content);
            lemma_set_current(files, moved, path, None);
            if after.delta.exact {
                let end = merged(files, after.overlay);
                lemma_put_back(before, path.uri, None);
                lemma_put_back(before, target.uri, content);
                assert forall|uri: Seq<char>| #[trigger]
                    held(undone(end, change), uri) == held(before, uri) by {}
                lemma_same(undone(end, change), before);
            }
        },
        None => {
            lemma_set_current(files, draft.overlay, path, content);
            if after.delta.exact {
                lemma_put_back(before, path.uri, content);
            }
        },
    }
}

/// A hunk starts rightly.
pub(crate) proof fn lemma_hunk_start(
    patch: Patch,
    files: Map<Seq<char>, Seq<u8>>,
    draft: DraftView,
    index: int,
    updates: Seq<Seq<char>>,
)
    requires
        0 <= index < patch.hunks@.len(),
        stands(patch, files, draft, index, updates),
    ensures
        hunk_holds(patch, files, index, hunk_start(patch, patch.hunks@[index], draft), updates),
{
    let hunk = patch.hunks@[index];
    if let Ok(path) = hunk.source {
        if patch.repeated_source_paths is Reject && draft.changes.dom().contains(path.uri@) {
        } else if draft.overlay.has(path@) {
            lemma_source_loaded(patch, files, draft, index, updates);
        }
    }
}

/// The hunks go on rightly.
proof fn lemma_onward(
    patch: Patch,
    files: Map<Seq<char>, Seq<u8>>,
    draft: DraftView,
    index: int,
    updates: Seq<Seq<char>>,
)
    requires
        0 <= index <= patch.hunks@.len(),
        stands(patch, files, draft, index, updates),
    ensures
        holds(patch, files, prepare_onward(patch, draft, index), updates),
    decreases patch.hunks@.len() - index,
{
    if index < patch.hunks@.len() {
        lemma_hunk_start(patch, files, draft, index, updates);
        if let HunkNext::Advance(advanced) = hunk_start(patch, patch.hunks@[index], draft) {
            lemma_onward(patch, files, advanced, index + 1, updates);
        }
    }
}

/// A hunk goes on rightly after a true reply.
pub(crate) proof fn lemma_hunk_next(
    patch: Patch,
    files: Map<Seq<char>, Seq<u8>>,
    state: PreparationView,
    reply: PrepareReply,
    updates: Seq<Seq<char>>,
)
    requires
        state.patch == patch,
        awaits(patch, files, state.draft, state.index, state.stage, updates),
        is_true_reply(files, state, reply),
    ensures
        hunk_holds(
            patch,
            files,
            state.index,
            hunk_next(
                patch.follow_symlinks,
                state.hunk(),
                state.draft,
                state.stage,
                reply,
            ),
            match reply {
                PrepareReply::Updated(Ok(update)) => updates.push(update.content@),
                _ => updates,
            },
        ),
{
    let hunk = state.hunk();
    let path = hunk.source->Ok_0@;
    let draft = state.draft;
    let index = state.index;
    match state.stage {
        PrepareStageView::Source(LoadStage::Reading) => match reply->Fs_0->Contents_0 {
            Ok(bytes) => {
                lemma_loaded(files, draft, path, Ok(bytes@));
                if !patch.follow_symlinks {
                    lemma_source_loaded(
                        patch,
                        files,
                        draft.loaded(path, Ok(bytes@)),
                        index,
                        updates,
                    );
                }
            },
            Err(error) => {
                if error.kind == ErrorKind::NotFound {
                    lemma_loaded(files, draft, path, Err(error@));
                    lemma_source_loaded(
                        patch,
                        files,
                        draft.loaded(path, Err(error@)),
                        index,
                        updates,
                    );
                }
            },
        },
        PrepareStageView::Source(LoadStage::Inspecting) => {
            let found = reply->Fs_0->Metadata_0;
            let inspected = draft.inspected(found is Ok && !found->Ok_0.is_symlink);
            lemma_source_loaded(patch, files, inspected, index, updates);
        },
        PrepareStageView::Updating(_) => {
            if let Ok(update) = reply->Updated_0 {
                match hunk.operation->destination {
                    None => {
                        lemma_updated(patch, files, draft, index, None, update@, updates);
                    },
                    Some(Ok(destination)) => {
                        if destination.uri@ == path.uri {
                        } else if draft.overlay.has(destination@) {
                            lemma_updated(
                                patch,
                                files,
                                draft,
                                index,
                                Some(destination@),
                                update@,
                                updates,
                            );
                        } else {
                            assert(updates.push(update.content@).drop_last() =~= updates);
                        }
                    },
                    Some(Err(_)) => {},
                }
            }
        },
        PrepareStageView::Destination(stage, update) => {
            let destination = hunk.operation->destination->0->Ok_0@;
            let earlier = updates.drop_last();
            assert(earlier.push(update.content) =~= updates);
            if stage is Reading {
                match reply->Fs_0->Contents_0 {
                    Ok(bytes) => {
                        let loaded = draft.loaded(destination, Ok(bytes@));
                        lemma_loaded(files, draft, destination, Ok(bytes@));
                        if !patch.follow_symlinks {
                            lemma_updated(
                                patch,
                                files,
                                loaded,
                                index,
                                Some(destination),
                                update,
                                earlier,
                            );
                        }
                    },
                    Err(error) => {
                        if error.kind == ErrorKind::NotFound {
                            let loaded = draft.loaded(destination, Err(error@));
                            lemma_loaded(files, draft, destination, Err(error@));
                            lemma_updated(
                                patch,
                                files,
                                loaded,
                                index,
                                Some(destination),
                                update,
                                earlier,
                            );
                        }
                    },
                }
            } else {
                let found = reply->Fs_0->Metadata_0;
                let inspected = draft.inspected(found is Ok && !found->Ok_0.is_symlink);
                lemma_updated(
                    patch,
                    files,
                    inspected,
                    index,
                    Some(destination),
                    update,
                    earlier,
                );
            }
        },
    }
}

/// The preparation stands rightly after true replies.
proof fn lemma_prepare_after(
    patch: Patch,
    files: Map<Seq<char>, Seq<u8>>,
    replies: Seq<PrepareReply>,
)
    requires
        is_reading(patch, files, replies),
    ensures
        holds(patch, files, prepare_after(patch, replies), updates_of(replies)),
    decreases replies.len(),
{
    if replies.len() == 0 {
        let draft = DraftView::empty();
        assert forall|uri: Seq<char>| #[trigger]
            held(merged(files, draft.overlay), uri) == held(files, uri) by {}
        lemma_same(merged(files, draft.overlay), files);
        assert(patch.hunks@.take(0) =~= Seq::empty());
        lemma_onward(patch, files, draft, 0, updates_of(replies));
    } else {
        let earlier = replies.drop_last();
        assert(earlier =~= replies.take(replies.len() - 1));
        assert forall|k: int| 0 <= k < earlier.len() implies {
            &&& prepare_after(patch, #[trigger] earlier.take(k)) matches PrepareNext::Pending(state)
            &&& is_true_reply(files, state, earlier[k])
        } by {
            assert(earlier.take(k) =~= replies.take(k));
        }
        lemma_prepare_after(patch, files, earlier);
        let state = prepare_after(patch, earlier)->Pending_0;
        let reply = replies.last();
        assert(is_true_reply(files, state, reply));
        lemma_hunk_next(patch, files, state, reply, updates_of(earlier));
        if let HunkNext::Advance(draft) = hunk_next(
            patch.follow_symlinks,
            state.hunk(),
            state.draft,
            state.stage,
            reply,
        ) {
            lemma_onward(patch, files, draft, state.index + 1, updates_of(replies));
        }
    }
}

/// The mutations for the first `count` files set those and no others.
proof fn lemma_mutated(files: Map<Seq<char>, Seq<u8>>, overlay: OverlayView, count: nat)
    requires
        overlay.is_valid(),
        count <= overlay.order.len(),
        forall|uri: Seq<char>| #[trigger]
            overlay.files.contains_key(uri) ==> overlay.files[uri].initial == held(files, uri),
    ensures
        forall|i: int|
            0 <= i < count ==> held(
                mutated(files, overlay.mutations(count)),
                #[trigger] overlay.order[i].uri,
            ) == overlay.files[overlay.order[i].uri].current,
        forall|uri: Seq<char>|
            (forall|i: int| 0 <= i < count ==> #[trigger] overlay.order[i].uri != uri)
                ==> #[trigger] held(mutated(files, overlay.mutations(count)), uri) == held(
                files,
                uri,
            ),
        forall|k: int|
            0 <= k < overlay.mutations(count).len() ==> {
                let mutation = #[trigger] overlay.mutations(count)[k];
                &&& mutation.before == held(files, mutation.path.uri)
                &&& mutation.before != mutation.after
                &&& exists|i: int| 0 <= i < count && #[trigger] overlay.order[i] == mutation.path
            },
        forall|j: int, k: int|
            0 <= j < k < overlay.mutations(count).len() ==> (
            #[trigger] overlay.mutations(count)[j]).path.uri != (
            #[trigger] overlay.mutations(count)[k]).path.uri,
    decreases count,
{
    if count > 0 {
        let fewer = (count - 1) as nat;
        lemma_mutated(files, overlay, fewer);
        let path = overlay.order[fewer as int];
        let state = overlay.files[path.uri];
        let earlier = overlay.mutations(fewer);
        let all = overlay.mutations(count);
        assert(overlay.files.contains_key(path.uri));
        assert(forall|i: int| 0 <= i < fewer ==> #[trigger] overlay.order[i].uri != path.uri);
        assert(held(mutated(files, earlier), path.uri) == held(files, path.uri));
        assert forall|uri: Seq<char>|
            (forall|i: int|
                0 <= i < count ==> #[trigger] overlay.order[i].uri != uri) implies #[trigger] held(
            mutated(files, all),
            uri,
        ) == held(files, uri) by {
            assert(overlay.order[fewer as int].uri != uri);
            assert(held(mutated(files, earlier), uri) == held(files, uri));
            if state.initial != state.current {
                assert(all.drop_last() =~= earlier);
            }
        }
        if state.initial != state.current {
            assert(all.drop_last() =~= earlier);
            assert forall|j: int, k: int| 0 <= j < k < all.len() implies (
            #[trigger] all[j]).path.uri != (#[trigger] all[k]).path.uri by {
                assert(all[j] == earlier[j]);
                if k < earlier.len() {
                    assert(all[k] == earlier[k]);
                }
            }
            assert forall|k: int| 0 <= k < all.len() implies {
                let mutation = #[trigger] all[k];
                &&& mutation.before == held(files, mutation.path.uri)
                &&& mutation.before != mutation.after
                &&& exists|i: int| 0 <= i < count && #[trigger] overlay.order[i] == mutation.path
            } by {
                if k < earlier.len() {
                    assert(all[k] == earlier[k]);
                } else {
                    assert(overlay.order[fewer as int] == all[k].path);
                }
            }
        }
    }
}

/// The batch of a prepared patch has the effect of the hunks, one after the other. It expects of each
/// file what the file held, names no file twice, and leaves alone what the hunks leave as it was.
pub proof fn law_batch_is_net_effect(
    patch: Patch,
    files: Map<Seq<char>, Seq<u8>>,
    replies: Seq<PrepareReply>,
    draft: DraftView,
)
    requires
        is_reading(patch, files, replies),
        prepare_after(patch, replies) == PrepareNext::Done(draft),
    ensures
        ({
            let mutations = draft.overlay.mutations(draft.overlay.order.len());
            &&& mutated(files, mutations) == patched(files, patch.hunks@, updates_of(replies))
            &&& forall|k: int|
                0 <= k < mutations.len() ==> (#[trigger] mutations[k]).before == held(
                    files,
                    mutations[k].path.uri,
                ) && mutations[k].before != mutations[k].after
            &&& forall|j: int, k: int|
                0 <= j < k < mutations.len() ==> (#[trigger] mutations[j]).path.uri != (
                #[trigger] mutations[k]).path.uri
        }),
{
    lemma_prepare_after(patch, files, replies);
    let overlay = draft.overlay;
    let mutations = overlay.mutations(overlay.order.len());
    lemma_mutated(files, overlay, overlay.order.len());
    assert(patch.hunks@.take(patch.hunks@.len() as int) =~= patch.hunks@);
    assert forall|uri: Seq<char>| #[trigger]
        held(mutated(files, mutations), uri) == held(merged(files, overlay), uri) by {
        if overlay.files.dom().contains(uri) {
            let i = choose|i: int|
                0 <= i < overlay.order.len() && #[trigger] overlay.order[i].uri == uri;
            assert(overlay.order[i].uri == uri);
        } else {
            assert forall|i: int| 0 <= i < overlay.order.len() implies
                #[trigger] overlay.order[i].uri != uri by {
                assert(overlay.files.dom().contains(overlay.order[i].uri));
            }
        }
    }
    lemma_same(mutated(files, mutations), merged(files, overlay));
}

/// An exact delta undoes the patch: from the files after the hunks it leads back to the files before
/// them.
pub proof fn law_exact_delta_undoes_patch(
    patch: Patch,
    files: Map<Seq<char>, Seq<u8>>,
    replies: Seq<PrepareReply>,
    draft: DraftView,
)
    requires
        is_reading(patch, files, replies),
        prepare_after(patch, replies) == PrepareNext::Done(draft),
        draft.delta.exact,
    ensures
        reverted(
            patched(files, patch.hunks@, updates_of(replies)),
            draft.delta.changes,
        ) == files,
{
    lemma_prepare_after(patch, files, replies);
    assert(patch.hunks@.take(patch.hunks@.len() as int) =~= patch.hunks@);
}

/// A patch that may not name a file twice is prepared only where its hunks are for different files.
pub proof fn law_repeated_sources_are_rejected(
    patch: Patch,
    files: Map<Seq<char>, Seq<u8>>,
    replies: Seq<PrepareReply>,
    draft: DraftView,
)
    requires
        is_reading(patch, files, replies),
        prepare_after(patch, replies) == PrepareNext::Done(draft),
        patch.repeated_source_paths is Reject,
    ensures
        are_distinct(patch, patch.hunks@.len() as int),
{
    lemma_prepare_after(patch, files, replies);
}

} // verus!
