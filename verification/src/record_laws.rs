//! What a prepared patch says of itself is true, and a patch that cannot be prepared has a reason.

use vstd::prelude::*;
use vstd::utf8::encode_utf8;

use crate::error::{ErrorKind, IoErrorView};
use crate::file_system::FsReply;
use crate::net_effect::{
    awaits, held, is_reading, is_true_reply, lemma_hunk_next, lemma_hunk_start, lemma_loaded,
    lemma_merged_held, lemma_same, lemma_source_loaded, lemma_take, lemma_updated, merged, patched,
    prepare_after, put, stands, updates_of,
};
use crate::mutation::mutation_views;
use crate::overlay::OverlayView;
use crate::patch::{AppliedChangeView, AppliedView, Hunk, HunkOperation, KeyedChange, PatchFailure};
use crate::path::PathView;
use crate::prepared::{
    hunk_next, hunk_start, is_action_of, missing_cause, prepare_next, prepare_onward, replaced_text,
    source_loaded, DraftView, HunkNext, LoadStage, Patch, PreparationView, PrepareNext,
    PrepareReply, PrepareStageView, PreparedAction, UpdateView,
};
use crate::record::{
    came_back, contents_of, destination_of, files_after, is_asked_for, is_first_mention, is_last,
    is_missing_error, is_playable, is_reason, is_repeated, is_tellable, is_text_replaced, listed,
    mention, played, says_missing, source_of, tells, told_count, update_count, Listing,
};
use crate::text::{joined, text_of};

verus! {

/// Whether every file that was looked at was seen, and was no link.
pub open spec fn are_plain(replies: Seq<PrepareReply>) -> bool {
    forall|r: int|
        0 <= r < replies.len() ==> (#[trigger] replies[r] matches PrepareReply::Fs(
            FsReply::Metadata(found),
        ) ==> found is Ok && !found->Ok_0.is_symlink)
}

/// Whether the draft says of the first `count` hunks what they do.
spec fn is_told(
    patch: Patch,
    files: Map<Seq<char>, Seq<u8>>,
    replies: Seq<PrepareReply>,
    draft: DraftView,
    count: int,
    updates: Seq<UpdateView>,
) -> bool {
    let hunks = patch.hunks@;
    &&& 0 <= count <= hunks.len()
    &&& updates.len() == update_count(hunks, count)
    &&& forall|k: int| 0 <= k < count ==> #[trigger] is_playable(patch, files, updates, k)
    &&& forall|k: int|
        0 <= k < count && #[trigger] is_last(hunks, count, k) ==> draft.changes.contains_key(
            source_of(hunks[k]).uri,
        ) && is_asked_for(
            draft.changes[source_of(hunks[k]).uri],
            hunks[k],
            played(files, hunks, updates, k),
        )
    &&& forall|uri: Seq<char>| #[trigger]
        draft.changes.contains_key(uri) ==> exists|k: int|
            0 <= k < count && source_of(#[trigger] hunks[k]).uri == uri
    &&& draft.delta.changes.len() == told_count(files, hunks, updates, count)
    &&& forall|k: int|
        0 <= k < count && is_tellable(hunks[k], #[trigger] played(files, hunks, updates, k))
            ==> told_count(files, hunks, updates, k) < draft.delta.changes.len() && tells(
            draft.delta.changes[told_count(files, hunks, updates, k) as int],
            hunks[k],
            played(files, hunks, updates, k),
        )
    &&& draft.delta.exact == (are_plain(replies) && forall|k: int|
        0 <= k < count ==> is_text_replaced(
            hunks[k],
            #[trigger] played(files, hunks, updates, k),
        ))
    &&& draft.affected.added == listed(hunks, Listing::Added, count)
    &&& draft.affected.modified == listed(hunks, Listing::Modified, count)
    &&& draft.affected.deleted == listed(hunks, Listing::Deleted, count)
}

/// Whether the overlay keeps what the filesystem said of the files that it does not have.
spec fn are_errors_kept(
    files: Map<Seq<char>, Seq<u8>>,
    replies: Seq<PrepareReply>,
    overlay: OverlayView,
) -> bool {
    forall|uri: Seq<char>| #[trigger]
        overlay.files.contains_key(uri) ==> {
            let state = overlay.files[uri];
            &&& state.missing_error is None <==> held(files, uri) is Some
            &&& state.missing_error matches Some(error) ==> is_missing_error(
                files,
                replies,
                uri,
                error,
            )
        }
}

/// Whether the file at `path` is first mentioned, by that path, before `bound`.
spec fn is_mentioned(hunks: Seq<Hunk>, bound: int, path: PathView) -> bool {
    exists|position: int| position < bound && #[trigger] is_first_mention(hunks, position, path)
}

/// Whether the overlay has the files that are mentioned before `bound`, in the order in which they
/// are.
#[verifier::opaque]
spec fn is_ordered(hunks: Seq<Hunk>, overlay: OverlayView, bound: int) -> bool {
    &&& forall|position: int|
        0 <= position < bound ==> (#[trigger] mention(hunks, position) matches Some(path)
            ==> overlay.has(path))
    &&& forall|i: int|
        0 <= i < overlay.order.len() ==> is_mentioned(hunks, bound, #[trigger] overlay.order[i])
    &&& forall|i: int, j: int, p: int, q: int|
        #![trigger is_first_mention(hunks, p, overlay.order[i]), is_first_mention(hunks, q, overlay.order[j])]
        0 <= i < j < overlay.order.len() && is_first_mention(hunks, p, overlay.order[i])
            && is_first_mention(hunks, q, overlay.order[j]) ==> p < q
}

/// Up to which position files have been read at a stage of hunk `index`.
spec fn bound_at(index: int, stage: PrepareStageView) -> int {
    match stage {
        PrepareStageView::Source(LoadStage::Reading) => 2 * index,
        PrepareStageView::Destination(LoadStage::Inspecting, _) => 2 * index + 2,
        _ => 2 * index + 1,
    }
}

/// What holds where hunk `index` awaits a reply.
spec fn is_awaiting(
    patch: Patch,
    files: Map<Seq<char>, Seq<u8>>,
    replies: Seq<PrepareReply>,
    draft: DraftView,
    index: int,
    stage: PrepareStageView,
    updates: Seq<UpdateView>,
) -> bool {
    &&& awaits(patch, files, draft, index, stage, contents_of(updates))
    &&& are_errors_kept(files, replies, draft.overlay)
    &&& is_ordered(patch.hunks@, draft.overlay, bound_at(index, stage))
    &&& match stage {
        PrepareStageView::Destination(_, update) => {
            &&& updates.len() > 0
            &&& updates.last() == update
            &&& is_told(patch, files, replies, draft, index, updates.drop_last())
        },
        _ => is_told(patch, files, replies, draft, index, updates),
    }
}

/// What holds where the first `count` hunks are done.
spec fn is_done(
    patch: Patch,
    files: Map<Seq<char>, Seq<u8>>,
    replies: Seq<PrepareReply>,
    draft: DraftView,
    count: int,
    updates: Seq<UpdateView>,
) -> bool {
    &&& stands(patch, files, draft, count, contents_of(updates))
    &&& are_errors_kept(files, replies, draft.overlay)
    &&& is_ordered(patch.hunks@, draft.overlay, 2 * count)
    &&& is_told(patch, files, replies, draft, count, updates)
}

/// Whether the patch failed at some hunk for a reason, and at none before it.
pub open spec fn has_reason(
    patch: Patch,
    files: Map<Seq<char>, Seq<u8>>,
    replies: Seq<PrepareReply>,
    failure: PatchFailure,
) -> bool {
    exists|k: int| #[trigger]
        is_reason(patch, files, replies, k, failure) && 0 <= k < patch.hunks@.len()
            && update_count(patch.hunks@, k) <= came_back(replies).len() && forall|j: int|
            0 <= j < k ==> #[trigger] is_playable(patch, files, came_back(replies), j)
}

/// What holds where hunk `index` goes on so.
spec fn goes_on(
    patch: Patch,
    files: Map<Seq<char>, Seq<u8>>,
    replies: Seq<PrepareReply>,
    index: int,
    next: HunkNext,
    updates: Seq<UpdateView>,
) -> bool {
    match next {
        HunkNext::Advance(draft) => is_done(patch, files, replies, draft, index + 1, updates),
        HunkNext::Await(draft, stage) => is_awaiting(
            patch,
            files,
            replies,
            draft,
            index,
            stage,
            updates,
        ),
        HunkNext::Fail(failure) => has_reason(patch, files, replies, failure),
    }
}

/// What holds where the preparation stands so.
spec fn holds(
    patch: Patch,
    files: Map<Seq<char>, Seq<u8>>,
    replies: Seq<PrepareReply>,
    next: PrepareNext,
    updates: Seq<UpdateView>,
) -> bool {
    match next {
        PrepareNext::Pending(state) => state.patch == patch && is_awaiting(
            patch,
            files,
            replies,
            state.draft,
            state.index,
            state.stage,
            updates,
        ),
        PrepareNext::Done(draft) => is_done(
            patch,
            files,
            replies,
            draft,
            patch.hunks@.len() as int,
            updates,
        ),
        PrepareNext::Failed(failure) => has_reason(patch, files, replies, failure),
    }
}

proof fn lemma_contents(replies: Seq<PrepareReply>)
    ensures
        contents_of(came_back(replies)) == updates_of(replies),
    decreases replies.len(),
{
    if replies.len() > 0 {
        lemma_contents(replies.drop_last());
    }
    assert(contents_of(came_back(replies)) =~= updates_of(replies));
}

proof fn lemma_contents_push(updates: Seq<UpdateView>, update: UpdateView)
    ensures
        contents_of(updates.push(update)) == contents_of(updates).push(update.content),
        updates.push(update).drop_last() == updates,
{
    assert(contents_of(updates.push(update)) =~= contents_of(updates).push(update.content));
    assert(updates.push(update).drop_last() =~= updates);
}

proof fn lemma_update_count_grows(hunks: Seq<Hunk>, fewer: int, more: int)
    requires
        fewer <= more,
    ensures
        update_count(hunks, fewer) <= update_count(hunks, more),
    decreases more - fewer,
{
    if fewer < more {
        lemma_update_count_grows(hunks, fewer, more - 1);
    }
}

/// What comes back later changes nothing in what earlier hunks found and left.
proof fn lemma_stable(
    patch: Patch,
    files: Map<Seq<char>, Seq<u8>>,
    updates: Seq<UpdateView>,
    more: Seq<UpdateView>,
    count: int,
)
    requires
        0 <= count <= patch.hunks@.len(),
        update_count(patch.hunks@, count) <= updates.len() <= more.len(),
        more.take(updates.len() as int) == updates,
    ensures
        forall|k: int|
            0 <= k <= count ==> #[trigger] files_after(files, patch.hunks@, more, k) == files_after(
                files,
                patch.hunks@,
                updates,
                k,
            ),
        forall|k: int|
            0 <= k < count ==> #[trigger] played(files, patch.hunks@, more, k) == played(
                files,
                patch.hunks@,
                updates,
                k,
            ),
        forall|k: int|
            0 <= k < count ==> #[trigger] is_playable(patch, files, more, k) == is_playable(
                patch,
                files,
                updates,
                k,
            ),
{
    let hunks = patch.hunks@;
    assert forall|k: int| 0 <= k <= count implies #[trigger] files_after(files, hunks, more, k)
        == files_after(files, hunks, updates, k) by {
        lemma_update_count_grows(hunks, k, count);
        let n = update_count(hunks, k) as int;
        assert(contents_of(more).take(n) =~= contents_of(updates).take(n)) by {
            assert forall|i: int| 0 <= i < n implies contents_of(more)[i] == contents_of(
                updates,
            )[i] by {
                assert(more[i] == more.take(updates.len() as int)[i]);
            }
        }
    }
    assert forall|k: int| 0 <= k < count implies #[trigger] played(files, hunks, more, k)
        == played(files, hunks, updates, k) by {
        assert(files_after(files, hunks, more, k) == files_after(files, hunks, updates, k));
        assert(files_after(files, hunks, more, k + 1) == files_after(files, hunks, updates, k + 1));
        if hunks[k].operation is UpdateFile {
            lemma_update_count_grows(hunks, k + 1, count);
            let n = update_count(hunks, k) as int;
            assert(more[n] == more.take(updates.len() as int)[n]);
        }
    }
    assert forall|k: int| 0 <= k < count implies #[trigger] is_playable(patch, files, more, k)
        == is_playable(patch, files, updates, k) by {
        assert(files_after(files, hunks, more, k) == files_after(files, hunks, updates, k));
    }
}

proof fn lemma_told_count_stable(
    patch: Patch,
    files: Map<Seq<char>, Seq<u8>>,
    updates: Seq<UpdateView>,
    more: Seq<UpdateView>,
    count: int,
    k: int,
)
    requires
        0 <= k <= count <= patch.hunks@.len(),
        update_count(patch.hunks@, count) <= updates.len() <= more.len(),
        more.take(updates.len() as int) == updates,
    ensures
        told_count(files, patch.hunks@, more, k) == told_count(files, patch.hunks@, updates, k),
    decreases k,
{
    if k > 0 {
        lemma_told_count_stable(patch, files, updates, more, count, k - 1);
        lemma_stable(patch, files, updates, more, count);
        assert(played(files, patch.hunks@, more, k - 1) == played(
            files,
            patch.hunks@,
            updates,
            k - 1,
        ));
    }
}

/// One more hunk is told of.
proof fn lemma_told(
    patch: Patch,
    files: Map<Seq<char>, Seq<u8>>,
    replies: Seq<PrepareReply>,
    draft: DraftView,
    after: DraftView,
    index: int,
    updates: Seq<UpdateView>,
    more: Seq<UpdateView>,
    asked: KeyedChange,
)
    requires
        is_told(patch, files, replies, draft, index, updates),
        index < patch.hunks@.len(),
        more.len() == update_count(patch.hunks@, index + 1),
        updates.len() <= more.len(),
        more.take(updates.len() as int) == updates,
        is_playable(patch, files, more, index),
        ({
            let hunk = patch.hunks@[index];
            let played = played(files, patch.hunks@, more, index);
            &&& after.changes == draft.changes.insert(source_of(hunk).uri, asked)
            &&& is_asked_for(asked, hunk, played)
            &&& if is_tellable(hunk, played) {
                &&& after.delta.changes.len() == draft.delta.changes.len() + 1
                &&& after.delta.changes.drop_last() == draft.delta.changes
                &&& tells(after.delta.changes.last(), hunk, played)
            } else {
                after.delta.changes == draft.delta.changes
            }
            &&& after.delta.exact == (draft.delta.exact && is_text_replaced(hunk, played))
            &&& after.affected.added == (if hunk.operation is AddFile {
                draft.affected.added.push(hunk.path@)
            } else {
                draft.affected.added
            })
            &&& after.affected.modified == (if hunk.operation is UpdateFile {
                draft.affected.modified.push(hunk.path@)
            } else {
                draft.affected.modified
            })
            &&& after.affected.deleted == (if hunk.operation is DeleteFile {
                draft.affected.deleted.push(hunk.path@)
            } else {
                draft.affected.deleted
            })
        }),
    ensures
        is_told(patch, files, replies, after, index + 1, more),
{
    let hunks = patch.hunks@;
    let hunk = hunks[index];
    let uri = source_of(hunk).uri;
    lemma_stable(patch, files, updates, more, index);
    lemma_told_count_stable(patch, files, updates, more, index, index);
    assert forall|k: int| 0 <= k < index + 1 implies #[trigger] is_playable(
        patch,
        files,
        more,
        k,
    ) by {
        if k < index {
            assert(is_playable(patch, files, updates, k));
        }
    }
    assert forall|k: int| 0 <= k < index + 1 && #[trigger] is_last(hunks, index + 1, k) implies
        after.changes.contains_key(source_of(hunks[k]).uri) && is_asked_for(
        after.changes[source_of(hunks[k]).uri],
        hunks[k],
        played(files, hunks, more, k),
    ) by {
        if k < index {
            assert(source_of(hunks[index]).uri != source_of(hunks[k]).uri);
            assert(is_last(hunks, index, k));
            assert(played(files, hunks, more, k) == played(files, hunks, updates, k));
        }
    }
    assert forall|other: Seq<char>| #[trigger] after.changes.contains_key(other) implies exists|
        k: int,
    |
        0 <= k < index + 1 && source_of(#[trigger] hunks[k]).uri == other by {
        if other == uri {
            assert(source_of(hunks[index]).uri == other);
        } else {
            assert(draft.changes.contains_key(other));
            let k = choose|k: int| 0 <= k < index && source_of(#[trigger] hunks[k]).uri == other;
            assert(source_of(hunks[k]).uri == other);
        }
    }
    assert forall|k: int|
        0 <= k < index + 1 && is_tellable(hunks[k], #[trigger] played(files, hunks, more, k)) implies
        told_count(files, hunks, more, k) < after.delta.changes.len() && tells(
        after.delta.changes[told_count(files, hunks, more, k) as int],
        hunks[k],
        played(files, hunks, more, k),
    ) by {
        if k < index {
            assert(played(files, hunks, more, k) == played(files, hunks, updates, k));
            lemma_told_count_stable(patch, files, updates, more, index, k);
            let place = told_count(files, hunks, updates, k) as int;
            if after.delta.changes != draft.delta.changes {
                assert(after.delta.changes.drop_last()[place] == after.delta.changes[place]);
            }
        }
    }
    if after.delta.exact {
        assert forall|k: int| 0 <= k < index + 1 implies is_text_replaced(
            hunks[k],
            #[trigger] played(files, hunks, more, k),
        ) by {
            if k < index {
                assert(played(files, hunks, more, k) == played(files, hunks, updates, k));
            }
        }
    } else if are_plain(replies) && (forall|k: int|
        0 <= k < index + 1 ==> is_text_replaced(hunks[k], #[trigger] played(files, hunks, more, k)))
    {
        assert forall|k: int| 0 <= k < index implies is_text_replaced(
            hunks[k],
            #[trigger] played(files, hunks, updates, k),
        ) by {
            assert(played(files, hunks, more, k) == played(files, hunks, updates, k));
        }
        assert(is_text_replaced(hunks[index], played(files, hunks, more, index)));
        assert(false);
    }
}

/// The files as the overlay has them are those after the hunks so far.
proof fn lemma_files_now(
    patch: Patch,
    files: Map<Seq<char>, Seq<u8>>,
    draft: DraftView,
    count: int,
    updates: Seq<UpdateView>,
)
    requires
        stands(patch, files, draft, count, contents_of(updates)),
        updates.len() == update_count(patch.hunks@, count),
    ensures
        files_after(files, patch.hunks@, updates, count) == merged(files, draft.overlay),
{
    let contents = contents_of(updates);
    assert(contents.take(contents.len() as int) =~= contents);
}

/// What a hunk makes of the files.
proof fn lemma_files_after(
    patch: Patch,
    files: Map<Seq<char>, Seq<u8>>,
    updates: Seq<UpdateView>,
    index: int,
)
    requires
        0 <= index < patch.hunks@.len(),
        updates.len() >= update_count(patch.hunks@, index + 1),
    ensures
        ({
            let hunk = patch.hunks@[index];
            let uri = source_of(hunk).uri;
            let before = files_after(files, patch.hunks@, updates, index);
            let after = files_after(files, patch.hunks@, updates, index + 1);
            match hunk.operation {
                HunkOperation::AddFile { contents } => after == put(
                    before,
                    uri,
                    Some(encode_utf8(contents@)),
                ),
                HunkOperation::DeleteFile => after == put(before, uri, None),
                HunkOperation::UpdateFile { destination } => {
                    let content = Some(
                        encode_utf8(updates[update_count(patch.hunks@, index) as int].content),
                    );
                    match destination {
                        Some(destination) => after == put(
                            put(before, destination->Ok_0.uri@, content),
                            uri,
                            None,
                        ),
                        None => after == put(before, uri, content),
                    }
                },
            }
        }),
{
    let hunks = patch.hunks@;
    let n = update_count(hunks, index) as int;
    let contents = contents_of(updates);
    lemma_take(patch, index);
    if hunks[index].operation is UpdateFile {
        assert(contents.take(n + 1).drop_last() =~= contents.take(n));
        assert(contents.take(n + 1).last() == updates[n].content);
    }
}

proof fn lemma_first_is_one(hunks: Seq<Hunk>, p: int, q: int, one: PathView, other: PathView)
    requires
        is_first_mention(hunks, p, one),
        is_first_mention(hunks, q, other),
        one.uri == other.uri,
    ensures
        p == q,
{
    if p < q {
        assert(mention(hunks, p) == Some(one));
    } else if q < p {
        assert(mention(hunks, q) == Some(other));
    }
}

proof fn lemma_mentioned_grows(hunks: Seq<Hunk>, bound: int, more: int, path: PathView)
    requires
        bound <= more,
        is_mentioned(hunks, bound, path),
    ensures
        is_mentioned(hunks, more, path),
{
    let position = choose|position: int|
        position < bound && #[trigger] is_first_mention(hunks, position, path);
    assert(is_first_mention(hunks, position, path));
}

/// A file that is mentioned and has been read before keeps the order.
proof fn lemma_ordered_again(hunks: Seq<Hunk>, overlay: OverlayView, bound: int)
    requires
        is_ordered(hunks, overlay, bound),
        mention(hunks, bound) matches Some(path) ==> overlay.has(path),
    ensures
        is_ordered(hunks, overlay, bound + 1),
{
    reveal(is_ordered);
    assert forall|i: int| 0 <= i < overlay.order.len() implies is_mentioned(
        hunks,
        bound + 1,
        #[trigger] overlay.order[i],
    ) by {
        lemma_mentioned_grows(hunks, bound, bound + 1, overlay.order[i]);
    }
}

/// A file that is read when it is first mentioned keeps the order.
proof fn lemma_ordered_load(
    hunks: Seq<Hunk>,
    before: OverlayView,
    after: OverlayView,
    bound: int,
    path: PathView,
)
    requires
        is_ordered(hunks, before, bound),
        0 <= bound < 2 * hunks.len(),
        mention(hunks, bound) == Some(path),
        !before.has(path),
        after.order == before.order.push(path),
        after.files.dom() == before.files.dom().insert(path.uri),
    ensures
        is_ordered(hunks, after, bound + 1),
{
    reveal(is_ordered);
    assert(is_first_mention(hunks, bound, path));
    assert forall|i: int| 0 <= i < after.order.len() implies is_mentioned(
        hunks,
        bound + 1,
        #[trigger] after.order[i],
    ) by {
        if i < before.order.len() {
            assert(after.order[i] == before.order[i]);
            lemma_mentioned_grows(hunks, bound, bound + 1, before.order[i]);
        }
    }
    assert forall|i: int, j: int, p: int, q: int|
        #![trigger is_first_mention(hunks, p, after.order[i]), is_first_mention(hunks, q, after.order[j])]
        0 <= i < j < after.order.len() && is_first_mention(hunks, p, after.order[i])
            && is_first_mention(hunks, q, after.order[j]) implies p < q by {
        assert(after.order[i] == before.order[i]);
        if j < before.order.len() {
            assert(after.order[j] == before.order[j]);
            assert(is_first_mention(hunks, p, before.order[i]));
            assert(is_first_mention(hunks, q, before.order[j]));
        } else {
            assert(is_mentioned(hunks, bound, before.order[i]));
            let position = choose|position: int|
                position < bound && #[trigger] is_first_mention(hunks, position, before.order[i]);
            lemma_first_is_one(hunks, p, position, before.order[i], before.order[i]);
            lemma_first_is_one(hunks, q, bound, path, path);
        }
    }
}

/// What a file holds has no say in the order.
proof fn lemma_ordered_set(
    hunks: Seq<Hunk>,
    before: OverlayView,
    after: OverlayView,
    bound: int,
)
    requires
        is_ordered(hunks, before, bound),
        after.order == before.order,
        before.files.dom().subset_of(after.files.dom()),
    ensures
        is_ordered(hunks, after, bound),
{
    reveal(is_ordered);
}

/// What is mentioned by hunk `index`.
proof fn lemma_mentions(hunks: Seq<Hunk>, index: int)
    ensures
        mention(hunks, 2 * index) == Some(source_of(hunks[index])),
        mention(hunks, 2 * index + 1) == destination_of(hunks[index]),
{
    assert((2 * index) / 2 == index && (2 * index) % 2 == 0);
    assert((2 * index + 1) / 2 == index && (2 * index + 1) % 2 == 1);
}

proof fn lemma_not_repeated(
    patch: Patch,
    files: Map<Seq<char>, Seq<u8>>,
    draft: DraftView,
    index: int,
    contents: Seq<Seq<char>>,
)
    requires
        0 <= index < patch.hunks@.len(),
        stands(patch, files, draft, index, contents),
        !draft.changes.contains_key(source_of(patch.hunks@[index]).uri),
    ensures
        !is_repeated(patch.hunks@, index),
{
    let hunks = patch.hunks@;
    if is_repeated(hunks, index) {
        let j = choose|j: int|
            0 <= j < index && source_of(#[trigger] hunks[j]).uri == source_of(hunks[index]).uri;
        assert(draft.changes.contains_key(hunks[j].source->Ok_0.uri@));
    }
}

/// The texts of the failures.
proof fn lemma_purposes()
    ensures
        joined("Failed to read file to "@, "delete"@, " "@)
            == "Failed to read file to delete "@,
        joined("Failed to read file to "@, "update"@, " "@)
            == "Failed to read file to update "@,
{
    reveal_strlit("Failed to read file to ");
    reveal_strlit("delete");
    reveal_strlit("update");
    reveal_strlit(" ");
    reveal_strlit("Failed to read file to delete ");
    reveal_strlit("Failed to read file to update ");
    assert(joined("Failed to read file to "@, "delete"@, " "@)
        =~= "Failed to read file to delete "@);
    assert(joined("Failed to read file to "@, "update"@, " "@)
        =~= "Failed to read file to update "@);
}

/// What holds where a hunk whose file has been read is to be played through.
spec fn is_loaded(
    patch: Patch,
    files: Map<Seq<char>, Seq<u8>>,
    replies: Seq<PrepareReply>,
    draft: DraftView,
    index: int,
    updates: Seq<UpdateView>,
) -> bool {
    let path = source_of(patch.hunks@[index]);
    &&& 0 <= index < patch.hunks@.len()
    &&& patch.hunks@[index].source is Ok
    &&& draft.overlay.has(path)
    &&& stands(patch, files, draft, index, contents_of(updates))
    &&& are_errors_kept(files, replies, draft.overlay)
    &&& is_told(patch, files, replies, draft, index, updates)
    &&& patch.repeated_source_paths is Reject ==> !draft.changes.contains_key(path.uri)
}

/// What is known of a hunk whose file has been read.
proof fn lemma_is_loaded(
    patch: Patch,
    files: Map<Seq<char>, Seq<u8>>,
    replies: Seq<PrepareReply>,
    draft: DraftView,
    index: int,
    updates: Seq<UpdateView>,
)
    requires
        is_loaded(patch, files, replies, draft, index, updates),
    ensures
        held(
            files_after(files, patch.hunks@, updates, index),
            source_of(patch.hunks@[index]).uri,
        ) == draft.current(source_of(patch.hunks@[index])),
        forall|path: PathView|
            draft.overlay.has(path) ==> #[trigger] held(
                files_after(files, patch.hunks@, updates, index),
                path.uri,
            ) == draft.current(path),
        patch.repeated_source_paths is Reject ==> !is_repeated(patch.hunks@, index),
        updates.take(updates.len() as int) == updates,
{
    lemma_files_now(patch, files, draft, index, updates);
    lemma_merged_held(files, draft, source_of(patch.hunks@[index]));
    if patch.repeated_source_paths is Reject {
        lemma_not_repeated(patch, files, draft, index, contents_of(updates));
    }
    assert(updates.take(updates.len() as int) =~= updates);
}

/// A hunk that adds its file is told of.
proof fn lemma_added_told(
    patch: Patch,
    files: Map<Seq<char>, Seq<u8>>,
    replies: Seq<PrepareReply>,
    draft: DraftView,
    index: int,
    updates: Seq<UpdateView>,
)
    requires
        is_loaded(patch, files, replies, draft, index, updates),
        patch.hunks@[index].operation is AddFile,
    ensures
        ({
            let hunk = patch.hunks@[index];
            let contents = hunk.operation->contents;
            is_told(
                patch,
                files,
                replies,
                draft.added(source_of(hunk), hunk.path@, contents@),
                index + 1,
                updates,
            )
        }),
{
    let hunk = patch.hunks@[index];
    let path = source_of(hunk);
    let after = draft.added(path, hunk.path@, hunk.operation->contents@);
    lemma_is_loaded(patch, files, replies, draft, index, updates);
    lemma_files_after(patch, files, updates, index);
    assert(after.delta.changes.drop_last() =~= draft.delta.changes);
    let asked = after.changes[path.uri];
    lemma_told(patch, files, replies, draft, after, index, updates, updates, asked);
}

/// A hunk that deletes its file is told of.
proof fn lemma_deleted_told(
    patch: Patch,
    files: Map<Seq<char>, Seq<u8>>,
    replies: Seq<PrepareReply>,
    draft: DraftView,
    index: int,
    updates: Seq<UpdateView>,
    bytes: Seq<u8>,
)
    requires
        is_loaded(patch, files, replies, draft, index, updates),
        patch.hunks@[index].operation is DeleteFile,
        draft.current(source_of(patch.hunks@[index])) == Some(bytes),
    ensures
        ({
            let hunk = patch.hunks@[index];
            is_told(
                patch,
                files,
                replies,
                draft.deleted(source_of(hunk), hunk.path@, bytes),
                index + 1,
                updates,
            )
        }),
{
    let hunk = patch.hunks@[index];
    let path = source_of(hunk);
    let after = draft.deleted(path, hunk.path@, bytes);
    lemma_is_loaded(patch, files, replies, draft, index, updates);
    lemma_files_after(patch, files, updates, index);
    if text_of(bytes) is Some {
        assert(after.delta.changes.drop_last() =~= draft.delta.changes);
    }
    let asked = after.changes[path.uri];
    lemma_told(patch, files, replies, draft, after, index, updates, updates, asked);
}

/// A hunk that updates its file is told of.
proof fn lemma_updated_told(
    patch: Patch,
    files: Map<Seq<char>, Seq<u8>>,
    replies: Seq<PrepareReply>,
    draft: DraftView,
    index: int,
    updates: Seq<UpdateView>,
    update: UpdateView,
)
    requires
        is_loaded(patch, files, replies, draft, index, updates),
        patch.hunks@[index].operation matches HunkOperation::UpdateFile { destination } && (
        destination matches Some(moved) ==> moved is Ok && moved->Ok_0.uri@ != source_of(
            patch.hunks@[index],
        ).uri && draft.overlay.has(moved->Ok_0@)),
        replaced_text(draft.current(source_of(patch.hunks@[index]))) == Some(
            update.original_content,
        ),
    ensures
        ({
            let hunk = patch.hunks@[index];
            is_told(
                patch,
                files,
                replies,
                draft.updated(source_of(hunk), hunk.path@, destination_of(hunk), update),
                index + 1,
                updates.push(update),
            )
        }),
{
    let hunks = patch.hunks@;
    let hunk = hunks[index];
    let path = source_of(hunk);
    let more = updates.push(update);
    let after = draft.updated(path, hunk.path@, destination_of(hunk), update);
    lemma_is_loaded(patch, files, replies, draft, index, updates);
    assert(more.take(updates.len() as int) =~= updates);
    lemma_stable(patch, files, updates, more, index);
    assert(files_after(files, hunks, more, index) == files_after(files, hunks, updates, index));
    lemma_files_after(patch, files, more, index);
    assert(after.delta.changes.drop_last() =~= draft.delta.changes);
    let before = files_after(files, hunks, more, index);
    assert(held(before, path.uri) == draft.current(path));
    if let Some(moved) = destination_of(hunk) {
        assert(held(before, moved.uri) == draft.current(moved));
    }
    let asked = after.changes[path.uri];
    lemma_told(patch, files, replies, draft, after, index, updates, more, asked);
}

/// Setting what files hold leaves alone what was said of them.
proof fn lemma_errors_set(
    files: Map<Seq<char>, Seq<u8>>,
    replies: Seq<PrepareReply>,
    overlay: OverlayView,
    path: PathView,
    contents: Option<Seq<u8>>,
)
    requires
        are_errors_kept(files, replies, overlay),
        overlay.has(path),
    ensures
        are_errors_kept(files, replies, overlay.set_current(path, contents)),
{
    let after = overlay.set_current(path, contents);
    assert forall|uri: Seq<char>| #[trigger] after.files.contains_key(uri) implies {
        let state = after.files[uri];
        &&& state.missing_error is None <==> held(files, uri) is Some
        &&& state.missing_error matches Some(error) ==> is_missing_error(files, replies, uri, error)
    } by {
        assert(overlay.files.contains_key(uri));
    }
}

/// A hunk whose file has been read goes on as it should.
proof fn lemma_source_told(
    patch: Patch,
    files: Map<Seq<char>, Seq<u8>>,
    replies: Seq<PrepareReply>,
    draft: DraftView,
    index: int,
)
    requires
        is_loaded(patch, files, replies, draft, index, came_back(replies)),
        is_ordered(patch.hunks@, draft.overlay, 2 * index + 1),
    ensures
        goes_on(
            patch,
            files,
            replies,
            index,
            source_loaded(patch.hunks@[index], draft),
            came_back(replies),
        ),
{
    let hunks = patch.hunks@;
    let hunk = hunks[index];
    let path = source_of(hunk);
    let updates = came_back(replies);
    lemma_source_loaded(patch, files, draft, index, contents_of(updates));
    lemma_is_loaded(patch, files, replies, draft, index, updates);
    lemma_mentions(hunks, index);
    match hunk.operation {
        HunkOperation::AddFile { contents } => {
            let after = draft.added(path, hunk.path@, contents@);
            lemma_added_told(patch, files, replies, draft, index, updates);
            lemma_errors_set(files, replies, draft.overlay, path, Some(encode_utf8(contents@)));
            lemma_ordered_set(hunks, draft.overlay, after.overlay, 2 * index + 1);
            lemma_ordered_again(hunks, after.overlay, 2 * index + 1);
        },
        HunkOperation::DeleteFile => {
            match draft.current(path) {
                Some(bytes) => {
                    let after = draft.deleted(path, hunk.path@, bytes);
                    lemma_deleted_told(patch, files, replies, draft, index, updates, bytes);
                    lemma_errors_set(files, replies, draft.overlay, path, None);
                    lemma_ordered_set(hunks, draft.overlay, after.overlay, 2 * index + 1);
                    lemma_ordered_again(hunks, after.overlay, 2 * index + 1);
                },
                None => {
                    lemma_missing(patch, files, replies, draft, index);
                },
            }
        },
        HunkOperation::UpdateFile { .. } => {
            match draft.current(path) {
                Some(bytes) => {
                    if text_of(bytes) is None {
                        lemma_purposes();
                        let failure = source_loaded(hunk, draft)->Fail_0;
                        assert(is_reason(patch, files, replies, index, failure));
                    }
                },
                None => {
                    lemma_missing(patch, files, replies, draft, index);
                },
            }
        },
    }
}

/// A file that is not there is a reason.
proof fn lemma_missing(
    patch: Patch,
    files: Map<Seq<char>, Seq<u8>>,
    replies: Seq<PrepareReply>,
    draft: DraftView,
    index: int,
)
    requires
        0 <= index < patch.hunks@.len(),
        patch.hunks@[index].source is Ok,
        !(patch.hunks@[index].operation is AddFile),
        draft.overlay.has(source_of(patch.hunks@[index])),
        draft.current(source_of(patch.hunks@[index])) is None,
        held(
            files_after(files, patch.hunks@, came_back(replies), index),
            source_of(patch.hunks@[index]).uri,
        ) is None,
        are_errors_kept(files, replies, draft.overlay),
        is_told(patch, files, replies, draft, index, came_back(replies)),
        patch.repeated_source_paths is Reject ==> !is_repeated(patch.hunks@, index),
    ensures
        source_loaded(patch.hunks@[index], draft) matches HunkNext::Fail(failure) && has_reason(
            patch,
            files,
            replies,
            failure,
        ),
{
    let hunk = patch.hunks@[index];
    let path = source_of(hunk);
    let failure = source_loaded(hunk, draft)->Fail_0;
    let error = missing_cause(draft.overlay.files[path.uri]);
    lemma_purposes();
    assert(draft.overlay.files.contains_key(path.uri));
    assert(is_missing_error(files, replies, path.uri, error));
    assert(is_reason(patch, files, replies, index, failure));
}

/// A hunk that updates its file is done.
proof fn lemma_update_done(
    patch: Patch,
    files: Map<Seq<char>, Seq<u8>>,
    replies: Seq<PrepareReply>,
    draft: DraftView,
    index: int,
    updates: Seq<UpdateView>,
    update: UpdateView,
)
    requires
        is_loaded(patch, files, replies, draft, index, updates),
        is_ordered(patch.hunks@, draft.overlay, 2 * index + 2),
        patch.hunks@[index].operation matches HunkOperation::UpdateFile { destination } && (
        destination matches Some(moved) ==> moved is Ok && moved->Ok_0.uri@ != source_of(
            patch.hunks@[index],
        ).uri && draft.overlay.has(moved->Ok_0@)),
        replaced_text(draft.current(source_of(patch.hunks@[index]))) == Some(
            update.original_content,
        ),
    ensures
        ({
            let hunk = patch.hunks@[index];
            is_done(
                patch,
                files,
                replies,
                draft.updated(source_of(hunk), hunk.path@, destination_of(hunk), update),
                index + 1,
                updates.push(update),
            )
        }),
{
    let hunk = patch.hunks@[index];
    let path = source_of(hunk);
    let content = Some(encode_utf8(update.content));
    let after = draft.updated(path, hunk.path@, destination_of(hunk), update);
    lemma_contents_push(updates, update);
    lemma_updated_told(patch, files, replies, draft, index, updates, update);
    lemma_updated(
        patch,
        files,
        draft,
        index,
        destination_of(hunk),
        update,
        contents_of(updates),
    );
    match destination_of(hunk) {
        Some(moved) => {
            lemma_errors_set(files, replies, draft.overlay, moved, content);
            lemma_errors_set(
                files,
                replies,
                draft.overlay.set_current(moved, content),
                path,
                None,
            );
        },
        None => {
            lemma_errors_set(files, replies, draft.overlay, path, content);
        },
    }
    lemma_ordered_set(patch.hunks@, draft.overlay, after.overlay, 2 * index + 2);
}

/// A hunk starts as it should.
proof fn lemma_start_told(
    patch: Patch,
    files: Map<Seq<char>, Seq<u8>>,
    replies: Seq<PrepareReply>,
    draft: DraftView,
    index: int,
)
    requires
        0 <= index < patch.hunks@.len(),
        is_done(patch, files, replies, draft, index, came_back(replies)),
    ensures
        goes_on(
            patch,
            files,
            replies,
            index,
            hunk_start(patch, patch.hunks@[index], draft),
            came_back(replies),
        ),
{
    let hunks = patch.hunks@;
    let hunk = hunks[index];
    lemma_hunk_start(patch, files, draft, index, contents_of(came_back(replies)));
    lemma_mentions(hunks, index);
    match hunk.source {
        Err(error) => {
            assert(is_reason(patch, files, replies, index, error@));
        },
        Ok(path) => {
            if patch.repeated_source_paths is Reject && draft.changes.dom().contains(path.uri@) {
                assert(draft.changes.contains_key(path.uri@));
                let k = choose|k: int|
                    0 <= k < index && source_of(#[trigger] hunks[k]).uri == path.uri@;
                assert(source_of(hunks[k]).uri == source_of(hunks[index]).uri);
                assert(is_repeated(hunks, index));
                let failure = hunk_start(patch, hunk, draft)->Fail_0;
                assert(is_reason(patch, files, replies, index, failure));
            } else if draft.overlay.has(path@) {
                lemma_ordered_again(hunks, draft.overlay, 2 * index);
                lemma_source_told(patch, files, replies, draft, index);
            }
        },
    }
}

/// The hunks go on as they should.
proof fn lemma_onward_told(
    patch: Patch,
    files: Map<Seq<char>, Seq<u8>>,
    replies: Seq<PrepareReply>,
    draft: DraftView,
    index: int,
)
    requires
        0 <= index <= patch.hunks@.len(),
        is_done(patch, files, replies, draft, index, came_back(replies)),
    ensures
        holds(patch, files, replies, prepare_onward(patch, draft, index), came_back(replies)),
    decreases patch.hunks@.len() - index,
{
    if index < patch.hunks@.len() {
        lemma_start_told(patch, files, replies, draft, index);
        if let HunkNext::Advance(advanced) = hunk_start(patch, patch.hunks@[index], draft) {
            lemma_onward_told(patch, files, replies, advanced, index + 1);
        }
    }
}

/// A reply that is no look leaves alone what is told.
proof fn lemma_told_on(
    patch: Patch,
    files: Map<Seq<char>, Seq<u8>>,
    replies: Seq<PrepareReply>,
    reply: PrepareReply,
    draft: DraftView,
    after: DraftView,
    count: int,
    updates: Seq<UpdateView>,
)
    requires
        is_told(patch, files, replies, draft, count, updates),
        after.changes == draft.changes,
        after.affected == draft.affected,
        after.delta.changes == draft.delta.changes,
        after.delta.exact == (draft.delta.exact && (reply matches PrepareReply::Fs(
            FsReply::Metadata(found),
        ) ==> found is Ok && !found->Ok_0.is_symlink)),
    ensures
        is_told(patch, files, replies.push(reply), after, count, updates),
{
    let more = replies.push(reply);
    if are_plain(more) {
        assert(are_plain(replies)) by {
            assert forall|r: int| 0 <= r < replies.len() implies (
            #[trigger] replies[r] matches PrepareReply::Fs(FsReply::Metadata(found)) ==> found is Ok
                && !found->Ok_0.is_symlink) by {
                assert(more[r] == replies[r]);
            }
        }
        assert(more[replies.len() as int] == reply);
    } else if are_plain(replies) {
        let r = choose|r: int|
            0 <= r < more.len() && !(#[trigger] more[r] matches PrepareReply::Fs(
                FsReply::Metadata(found),
            ) ==> found is Ok && !found->Ok_0.is_symlink);
        if r < replies.len() {
            assert(more[r] == replies[r]);
        }
    }
}

/// What was said stays said.
proof fn lemma_errors_on(
    files: Map<Seq<char>, Seq<u8>>,
    replies: Seq<PrepareReply>,
    reply: PrepareReply,
    overlay: OverlayView,
)
    requires
        are_errors_kept(files, replies, overlay),
    ensures
        are_errors_kept(files, replies.push(reply), overlay),
{
    let more = replies.push(reply);
    assert forall|uri: Seq<char>| #[trigger] overlay.files.contains_key(uri) implies {
        let state = overlay.files[uri];
        &&& state.missing_error is None <==> held(files, uri) is Some
        &&& state.missing_error matches Some(error) ==> is_missing_error(files, more, uri, error)
    } by {
        if let Some(error) = overlay.files[uri].missing_error {
            let r = choose|r: int|
                0 <= r < replies.len() && says_missing(#[trigger] replies[r], error);
            assert(says_missing(more[r], error));
        }
    }
}

/// A file that is read is kept as it was found.
proof fn lemma_load_told(
    patch: Patch,
    files: Map<Seq<char>, Seq<u8>>,
    replies: Seq<PrepareReply>,
    draft: DraftView,
    index: int,
    updates: Seq<UpdateView>,
    path: PathView,
    read: Result<Vec<u8>, crate::error::IoError>,
    position: int,
)
    requires
        stands(patch, files, draft, index, contents_of(updates)),
        are_errors_kept(files, replies, draft.overlay),
        is_told(patch, files, replies, draft, index, updates),
        is_ordered(patch.hunks@, draft.overlay, position),
        0 <= position < 2 * patch.hunks@.len(),
        mention(patch.hunks@, position) == Some(path),
        !draft.overlay.has(path),
        match read {
            Ok(bytes) => held(files, path.uri) == Some(bytes@),
            Err(error) => held(files, path.uri) is None && error.kind == ErrorKind::NotFound,
        },
    ensures
        ({
            let more = replies.push(PrepareReply::Fs(FsReply::Contents(read)));
            let after = draft.loaded(
                path,
                match read {
                    Ok(bytes) => Ok(bytes@),
                    Err(error) => Err(error@),
                },
            );
            &&& stands(patch, files, after, index, contents_of(updates))
            &&& are_errors_kept(files, more, after.overlay)
            &&& is_told(patch, files, more, after, index, updates)
            &&& is_ordered(patch.hunks@, after.overlay, position + 1)
        }),
{
    let reply = PrepareReply::Fs(FsReply::Contents(read));
    let more = replies.push(reply);
    let found = match read {
        Ok(bytes) => Ok(bytes@),
        Err(error) => Err(error@),
    };
    let after = draft.loaded(path, found);
    lemma_loaded(files, draft, path, found);
    lemma_told_on(patch, files, replies, reply, draft, after, index, updates);
    lemma_errors_on(files, replies, reply, draft.overlay);
    lemma_ordered_load(patch.hunks@, draft.overlay, after.overlay, position, path);
    assert forall|uri: Seq<char>| #[trigger] after.overlay.files.contains_key(uri) implies {
        let state = after.overlay.files[uri];
        &&& state.missing_error is None <==> held(files, uri) is Some
        &&& state.missing_error matches Some(error) ==> is_missing_error(files, more, uri, error)
    } by {
        if uri == path.uri {
            if let Err(error) = read {
                assert(says_missing(more[replies.len() as int], error@));
            }
        } else {
            assert(draft.overlay.files.contains_key(uri));
        }
    }
}

proof fn lemma_came_back_push(replies: Seq<PrepareReply>, reply: PrepareReply)
    ensures
        came_back(replies.push(reply)) == (match reply {
            PrepareReply::Updated(Ok(update)) => came_back(replies).push(update@),
            _ => came_back(replies),
        }),
        updates_of(replies.push(reply)) == (match reply {
            PrepareReply::Updated(Ok(update)) => updates_of(replies).push(update.content@),
            _ => updates_of(replies),
        }),
{
    assert(replies.push(reply).drop_last() =~= replies);
}

/// The hunk goes on as it should when its file was read.
proof fn lemma_source_read(
    patch: Patch,
    files: Map<Seq<char>, Seq<u8>>,
    replies: Seq<PrepareReply>,
    state: PreparationView,
    reply: PrepareReply,
)
    requires
        state.patch == patch,
        state.stage == PrepareStageView::Source(LoadStage::Reading),
        is_awaiting(
            patch,
            files,
            replies,
            state.draft,
            state.index,
            state.stage,
            came_back(replies),
        ),
        is_true_reply(files, state, reply),
    ensures
        goes_on(
            patch,
            files,
            replies.push(reply),
            state.index,
            hunk_next(patch.follow_symlinks, state.hunk(), state.draft, state.stage, reply),
            came_back(replies.push(reply)),
        ),
{
    let index = state.index;
    let draft = state.draft;
    let hunk = state.hunk();
    let path = source_of(hunk);
    let updates = came_back(replies);
    let more = replies.push(reply);
    let read = reply->Fs_0->Contents_0;
    lemma_came_back_push(replies, reply);
    lemma_mentions(patch.hunks@, index);
    lemma_hunk_next(patch, files, state, reply, contents_of(updates));
    if read is Ok || read->Err_0.kind == ErrorKind::NotFound {
        let found = match read {
            Ok(bytes) => Ok(bytes@),
            Err(error) => Err(error@),
        };
        let loaded = draft.loaded(path, found);
        lemma_load_told(patch, files, replies, draft, index, updates, path, read, 2 * index);
        assert(reply == PrepareReply::Fs(FsReply::Contents(read)));
        if read is Err || !patch.follow_symlinks {
            lemma_source_told(patch, files, more, loaded, index);
        }
    } else {
        if patch.repeated_source_paths is Reject {
            lemma_not_repeated(patch, files, draft, index, contents_of(updates));
        }
        let failure = hunk_next(
            patch.follow_symlinks,
            hunk,
            draft,
            state.stage,
            reply,
        )->Fail_0;
        assert(more.last() == reply);
        assert(is_reason(patch, files, more, index, failure));
    }
}

/// The hunk goes on as it should when its file was looked at.
proof fn lemma_source_seen(
    patch: Patch,
    files: Map<Seq<char>, Seq<u8>>,
    replies: Seq<PrepareReply>,
    state: PreparationView,
    reply: PrepareReply,
)
    requires
        state.patch == patch,
        state.stage == PrepareStageView::Source(LoadStage::Inspecting),
        is_awaiting(
            patch,
            files,
            replies,
            state.draft,
            state.index,
            state.stage,
            came_back(replies),
        ),
        is_true_reply(files, state, reply),
    ensures
        goes_on(
            patch,
            files,
            replies.push(reply),
            state.index,
            hunk_next(patch.follow_symlinks, state.hunk(), state.draft, state.stage, reply),
            came_back(replies.push(reply)),
        ),
{
    let index = state.index;
    let draft = state.draft;
    let updates = came_back(replies);
    let more = replies.push(reply);
    let found = reply->Fs_0->Metadata_0;
    let inspected = draft.inspected(found is Ok && !found->Ok_0.is_symlink);
    lemma_came_back_push(replies, reply);
    lemma_told_on(patch, files, replies, reply, draft, inspected, index, updates);
    lemma_errors_on(files, replies, reply, draft.overlay);
    lemma_source_told(patch, files, more, inspected, index);
}

/// The hunk goes on as it should when its new contents came back.
proof fn lemma_update_came(
    patch: Patch,
    files: Map<Seq<char>, Seq<u8>>,
    replies: Seq<PrepareReply>,
    state: PreparationView,
    reply: PrepareReply,
)
    requires
        state.patch == patch,
        state.stage is Updating,
        is_awaiting(
            patch,
            files,
            replies,
            state.draft,
            state.index,
            state.stage,
            came_back(replies),
        ),
        is_true_reply(files, state, reply),
    ensures
        goes_on(
            patch,
            files,
            replies.push(reply),
            state.index,
            hunk_next(patch.follow_symlinks, state.hunk(), state.draft, state.stage, reply),
            came_back(replies.push(reply)),
        ),
{
    let index = state.index;
    let draft = state.draft;
    let hunk = state.hunk();
    let path = source_of(hunk);
    let updates = came_back(replies);
    let more = replies.push(reply);
    let next = hunk_next(patch.follow_symlinks, hunk, draft, state.stage, reply);
    lemma_came_back_push(replies, reply);
    lemma_mentions(patch.hunks@, index);
    lemma_told_on(patch, files, replies, reply, draft, draft, index, updates);
    lemma_errors_on(files, replies, reply, draft.overlay);
    lemma_hunk_next(patch, files, state, reply, contents_of(updates));
    if patch.repeated_source_paths is Reject {
        lemma_not_repeated(patch, files, draft, index, contents_of(updates));
    }
    assert(more.last() == reply);
    assert(is_loaded(patch, files, more, draft, index, updates));
    match reply->Updated_0 {
        Err(error) => {
            assert(is_reason(patch, files, more, index, error@));
        },
        Ok(update) => {
            lemma_contents_push(updates, update@);
            let all = updates.push(update@);
            assert(all.take(updates.len() as int) =~= updates);
            lemma_stable(patch, files, updates, all, index);
            assert(files_after(files, patch.hunks@, all, index) == files_after(
                files,
                patch.hunks@,
                updates,
                index,
            ));
            match hunk.operation->destination {
                None => {
                    lemma_ordered_again(patch.hunks@, draft.overlay, 2 * index + 1);
                    lemma_update_done(patch, files, more, draft, index, updates, update@);
                },
                Some(Err(error)) => {
                    lemma_playable_on(patch, files, updates, all, index);
                    assert(is_reason(patch, files, more, index, error@));
                },
                Some(Ok(destination)) => {
                    if destination.uri@ == path.uri {
                        lemma_playable_on(patch, files, updates, all, index);
                        assert(is_reason(patch, files, more, index, next->Fail_0));
                    } else if draft.overlay.has(destination@) {
                        lemma_ordered_again(patch.hunks@, draft.overlay, 2 * index + 1);
                        lemma_update_done(patch, files, more, draft, index, updates, update@);
                    }
                },
            }
        },
    }
}

proof fn lemma_playable_on(
    patch: Patch,
    files: Map<Seq<char>, Seq<u8>>,
    updates: Seq<UpdateView>,
    more: Seq<UpdateView>,
    count: int,
)
    requires
        0 <= count <= patch.hunks@.len(),
        update_count(patch.hunks@, count) <= updates.len() <= more.len(),
        more.take(updates.len() as int) == updates,
        forall|k: int| 0 <= k < count ==> #[trigger] is_playable(patch, files, updates, k),
    ensures
        forall|k: int| 0 <= k < count ==> #[trigger] is_playable(patch, files, more, k),
{
    lemma_stable(patch, files, updates, more, count);
    assert forall|k: int| 0 <= k < count implies #[trigger] is_playable(
        patch,
        files,
        more,
        k,
    ) by {
        assert(is_playable(patch, files, updates, k));
    }
}

/// The hunk goes on as it should when the place that its file moves to was read, or looked at.
proof fn lemma_destination_came(
    patch: Patch,
    files: Map<Seq<char>, Seq<u8>>,
    replies: Seq<PrepareReply>,
    state: PreparationView,
    reply: PrepareReply,
)
    requires
        state.patch == patch,
        state.stage is Destination,
        is_awaiting(
            patch,
            files,
            replies,
            state.draft,
            state.index,
            state.stage,
            came_back(replies),
        ),
        is_true_reply(files, state, reply),
    ensures
        goes_on(
            patch,
            files,
            replies.push(reply),
            state.index,
            hunk_next(patch.follow_symlinks, state.hunk(), state.draft, state.stage, reply),
            came_back(replies.push(reply)),
        ),
{
    let index = state.index;
    let draft = state.draft;
    let hunk = state.hunk();
    let update = state.stage->Destination_1;
    let destination = hunk.operation->destination->0->Ok_0@;
    let updates = came_back(replies);
    let earlier = updates.drop_last();
    let more = replies.push(reply);
    lemma_came_back_push(replies, reply);
    lemma_mentions(patch.hunks@, index);
    lemma_hunk_next(patch, files, state, reply, contents_of(updates));
    assert(earlier.push(update) =~= updates);
    lemma_contents_push(earlier, update);
    assert(contents_of(updates).drop_last() =~= contents_of(earlier));
    if patch.repeated_source_paths is Reject {
        lemma_not_repeated(patch, files, draft, index, contents_of(earlier));
    }
    if state.stage->Destination_0 is Reading {
        let read = reply->Fs_0->Contents_0;
        if read is Ok || read->Err_0.kind == ErrorKind::NotFound {
            let found = match read {
                Ok(bytes) => Ok(bytes@),
                Err(error) => Err(error@),
            };
            let loaded = draft.loaded(destination, found);
            lemma_load_told(
                patch,
                files,
                replies,
                draft,
                index,
                earlier,
                destination,
                read,
                2 * index + 1,
            );
            assert(reply == PrepareReply::Fs(FsReply::Contents(read)));
            if read is Err || !patch.follow_symlinks {
                lemma_update_done(patch, files, more, loaded, index, earlier, update);
            }
        } else {
            assert(updates.take(earlier.len() as int) =~= earlier);
            lemma_playable_on(patch, files, earlier, updates, index);
            let failure = hunk_next(
                patch.follow_symlinks,
                hunk,
                draft,
                state.stage,
                reply,
            )->Fail_0;
            assert(more.last() == reply);
            assert(is_reason(patch, files, more, index, failure));
        }
    } else {
        let found = reply->Fs_0->Metadata_0;
        let inspected = draft.inspected(found is Ok && !found->Ok_0.is_symlink);
        lemma_told_on(patch, files, replies, reply, draft, inspected, index, earlier);
        lemma_errors_on(files, replies, reply, draft.overlay);
        lemma_update_done(patch, files, more, inspected, index, earlier, update);
    }
}

/// The invariant of a preparation, by induction on the replies.
proof fn lemma_run(patch: Patch, files: Map<Seq<char>, Seq<u8>>, replies: Seq<PrepareReply>)
    requires
        is_reading(patch, files, replies),
    ensures
        holds(patch, files, replies, prepare_after(patch, replies), came_back(replies)),
    decreases replies.len(),
{
    let hunks = patch.hunks@;
    if replies.len() == 0 {
        let draft = DraftView::empty();
        assert forall|uri: Seq<char>| #[trigger]
            held(merged(files, draft.overlay), uri) == held(files, uri) by {}
        lemma_same(merged(files, draft.overlay), files);
        assert(hunks.take(0) =~= Seq::empty());
        assert(contents_of(came_back(replies)) =~= Seq::empty());
        assert(is_ordered(hunks, draft.overlay, 0)) by {
            reveal(is_ordered);
        }
        lemma_onward_told(patch, files, replies, draft, 0);
    } else {
        let earlier = replies.drop_last();
        let reply = replies.last();
        assert(earlier =~= replies.take(replies.len() - 1));
        assert(earlier.push(reply) =~= replies);
        assert forall|k: int| 0 <= k < earlier.len() implies {
            &&& prepare_after(patch, #[trigger] earlier.take(k)) matches PrepareNext::Pending(state)
            &&& is_true_reply(files, state, earlier[k])
        } by {
            assert(earlier.take(k) =~= replies.take(k));
        }
        lemma_run(patch, files, earlier);
        let state = prepare_after(patch, earlier)->Pending_0;
        assert(is_true_reply(files, state, reply));
        match state.stage {
            PrepareStageView::Source(LoadStage::Reading) => {
                lemma_source_read(patch, files, earlier, state, reply);
            },
            PrepareStageView::Source(LoadStage::Inspecting) => {
                lemma_source_seen(patch, files, earlier, state, reply);
            },
            PrepareStageView::Updating(_) => {
                lemma_update_came(patch, files, earlier, state, reply);
            },
            PrepareStageView::Destination(_, _) => {
                lemma_destination_came(patch, files, earlier, state, reply);
            },
        }
        if let HunkNext::Advance(draft) = hunk_next(
            patch.follow_symlinks,
            state.hunk(),
            state.draft,
            state.stage,
            reply,
        ) {
            lemma_onward_told(patch, files, replies, draft, state.index + 1);
        }
    }
}

/// A patch that cannot be prepared has a reason, and says it: a path that cannot be resolved, a file
/// that is named twice where that may not be, a file that cannot be read, one that is not there or
/// holds no text, lines that do not fit, or a move to where the file is. All hunks before that one
/// can be played through.
pub proof fn law_failure_has_a_reason(
    patch: Patch,
    files: Map<Seq<char>, Seq<u8>>,
    replies: Seq<PrepareReply>,
    failure: PatchFailure,
)
    requires
        is_reading(patch, files, replies),
        prepare_after(patch, replies) == PrepareNext::Failed(failure),
    ensures
        has_reason(patch, files, replies, failure),
{
    lemma_run(patch, files, replies);
}

/// Whether nothing that was asked for failed: what could not be read is not there, and the lines of
/// every hunk fit.
pub open spec fn is_answered(replies: Seq<PrepareReply>) -> bool {
    forall|r: int|
        0 <= r < replies.len() ==> match #[trigger] replies[r] {
            PrepareReply::Fs(FsReply::Contents(Err(error))) => error.kind == ErrorKind::NotFound,
            PrepareReply::Updated(updated) => updated is Ok,
            _ => true,
        }
}

/// A patch whose hunks can all be played through, as far as it has come, does not fail where nothing
/// that it asks for does. And the hunks of a patch that was prepared can all be played through.
pub proof fn law_playable_patch_is_prepared(
    patch: Patch,
    files: Map<Seq<char>, Seq<u8>>,
    replies: Seq<PrepareReply>,
)
    requires
        is_reading(patch, files, replies),
    ensures
        is_answered(replies) && (forall|k: int|
            0 <= k < patch.hunks@.len() && update_count(patch.hunks@, k) <= came_back(
                replies,
            ).len() ==> #[trigger] is_playable(patch, files, came_back(replies), k))
            ==> !(prepare_after(patch, replies) is Failed),
        prepare_after(patch, replies) is Done ==> forall|k: int|
            0 <= k < patch.hunks@.len() ==> #[trigger] is_playable(
                patch,
                files,
                came_back(replies),
                k,
            ),
{
    lemma_run(patch, files, replies);
    if is_answered(replies) && (forall|k: int|
        0 <= k < patch.hunks@.len() && update_count(patch.hunks@, k) <= came_back(replies).len()
            ==> #[trigger] is_playable(patch, files, came_back(replies), k)) {
        if let PrepareNext::Failed(failure) = prepare_after(patch, replies) {
            let k = choose|k: int| #[trigger]
                is_reason(patch, files, replies, k, failure) && 0 <= k < patch.hunks@.len()
                    && update_count(patch.hunks@, k) <= came_back(replies).len() && forall|j: int|
                    0 <= j < k ==> #[trigger] is_playable(patch, files, came_back(replies), j);
            assert(is_playable(patch, files, came_back(replies), k));
            if replies.len() > 0 {
                assert(replies[replies.len() - 1] == replies.last());
            }
            assert(false);
        }
    }
}

/// The changes that a prepared patch lists are what its hunks ask for: for each file the change of
/// the last hunk for it, and no other. New contents are those that the hunk leaves behind, deleted
/// ones those that it found, and a move goes where the hunk moves the file.
pub proof fn law_changes_are_those_of_the_last_hunks(
    patch: Patch,
    files: Map<Seq<char>, Seq<u8>>,
    replies: Seq<PrepareReply>,
    draft: DraftView,
    action: PreparedAction,
)
    requires
        is_reading(patch, files, replies),
        prepare_after(patch, replies) == PrepareNext::Done(draft),
        is_action_of(action, patch, draft),
    ensures
        ({
            let hunks = patch.hunks@;
            let changes = action.changes@;
            &&& forall|k: int|
                0 <= k < hunks.len() && #[trigger] is_last(hunks, hunks.len() as int, k)
                    ==> changes.contains_key(source_of(hunks[k]).uri) && is_asked_for(
                    changes[source_of(hunks[k]).uri],
                    hunks[k],
                    played(files, hunks, came_back(replies), k),
                )
            &&& forall|uri: Seq<char>| #[trigger]
                changes.contains_key(uri) ==> exists|k: int|
                    0 <= k < hunks.len() && source_of(#[trigger] hunks[k]).uri == uri
        }),
{
    lemma_run(patch, files, replies);
}

/// The delta of a prepared patch tells of each hunk in order, but for deletions of files without
/// text: what it left behind, and the text that it replaced. It is exact if and only if all that was
/// replaced was text, and every file that was looked at was seen and was no link.
pub proof fn law_delta_tells_of_every_hunk(
    patch: Patch,
    files: Map<Seq<char>, Seq<u8>>,
    replies: Seq<PrepareReply>,
    draft: DraftView,
    action: PreparedAction,
)
    requires
        is_reading(patch, files, replies),
        prepare_after(patch, replies) == PrepareNext::Done(draft),
        is_action_of(action, patch, draft),
    ensures
        ({
            let hunks = patch.hunks@;
            let updates = came_back(replies);
            let delta = action.prepared.delta@;
            &&& delta.changes.len() == told_count(files, hunks, updates, hunks.len() as int)
            &&& forall|k: int|
                0 <= k < hunks.len() && is_tellable(
                    hunks[k],
                    #[trigger] played(files, hunks, updates, k),
                ) ==> tells(
                    delta.changes[told_count(files, hunks, updates, k) as int],
                    hunks[k],
                    played(files, hunks, updates, k),
                )
            &&& delta.exact == (are_plain(replies) && forall|k: int|
                0 <= k < hunks.len() ==> is_text_replaced(
                    hunks[k],
                    #[trigger] played(files, hunks, updates, k),
                ))
        }),
{
    lemma_run(patch, files, replies);
}

/// The files after `change`, where they are `files` before it, as far as the change tells.
pub open spec fn redone(
    files: Map<Seq<char>, Seq<u8>>,
    change: AppliedView,
) -> Map<Seq<char>, Seq<u8>> {
    let uri = change.path.uri;
    match change.change {
        AppliedChangeView::Add { content, .. } => put(files, uri, Some(encode_utf8(content))),
        AppliedChangeView::Delete { .. } => put(files, uri, None),
        AppliedChangeView::Update { move_path, new_content, .. } => match move_path {
            Some(destination) => put(
                put(files, uri, None),
                destination.uri,
                Some(encode_utf8(new_content)),
            ),
            None => put(files, uri, Some(encode_utf8(new_content))),
        },
    }
}

/// The files after all the changes, one after the other.
pub open spec fn replayed(
    files: Map<Seq<char>, Seq<u8>>,
    changes: Seq<AppliedView>,
) -> Map<Seq<char>, Seq<u8>>
    decreases changes.len(),
{
    if changes.len() == 0 {
        files
    } else {
        redone(replayed(files, changes.drop_last()), changes.last())
    }
}

/// A change that tells what a hunk did leads from the files before the hunk to those after it.
proof fn lemma_redone(
    patch: Patch,
    files: Map<Seq<char>, Seq<u8>>,
    updates: Seq<UpdateView>,
    k: int,
    change: AppliedView,
)
    requires
        0 <= k < patch.hunks@.len(),
        updates.len() >= update_count(patch.hunks@, k + 1),
        is_playable(patch, files, updates, k),
        tells(change, patch.hunks@[k], played(files, patch.hunks@, updates, k)),
    ensures
        redone(files_after(files, patch.hunks@, updates, k), change) == files_after(
            files,
            patch.hunks@,
            updates,
            k + 1,
        ),
{
    let before = files_after(files, patch.hunks@, updates, k);
    let after = files_after(files, patch.hunks@, updates, k + 1);
    lemma_files_after(patch, files, updates, k);
    assert forall|uri: Seq<char>| #[trigger] held(redone(before, change), uri) == held(
        after,
        uri,
    ) by {}
    lemma_same(redone(before, change), after);
}

/// A delta that tells of every hunk leads forwards.
proof fn lemma_replayed(
    patch: Patch,
    files: Map<Seq<char>, Seq<u8>>,
    updates: Seq<UpdateView>,
    changes: Seq<AppliedView>,
    count: int,
)
    requires
        0 <= count <= patch.hunks@.len(),
        changes.len() >= count,
        updates.len() >= update_count(patch.hunks@, count),
        forall|k: int| 0 <= k < count ==> #[trigger] is_playable(patch, files, updates, k),
        forall|k: int|
            0 <= k < count ==> tells(
                changes[k],
                patch.hunks@[k],
                #[trigger] played(files, patch.hunks@, updates, k),
            ),
    ensures
        replayed(files, changes.take(count)) == files_after(files, patch.hunks@, updates, count),
    decreases count,
{
    if count == 0 {
        assert(patch.hunks@.take(0) =~= Seq::empty());
    } else {
        let last = count - 1;
        lemma_update_count_grows(patch.hunks@, last, count);
        lemma_replayed(patch, files, updates, changes, last);
        assert(changes.take(count).drop_last() =~= changes.take(last));
        assert(is_playable(patch, files, updates, last));
        assert(tells(
            changes[last],
            patch.hunks@[last],
            played(files, patch.hunks@, updates, last),
        ));
        lemma_redone(patch, files, updates, last, changes[last]);
    }
}

proof fn lemma_all_told(
    files: Map<Seq<char>, Seq<u8>>,
    hunks: Seq<Hunk>,
    updates: Seq<UpdateView>,
    count: int,
)
    requires
        0 <= count,
        forall|k: int|
            0 <= k < count ==> is_tellable(hunks[k], #[trigger] played(files, hunks, updates, k)),
    ensures
        told_count(files, hunks, updates, count) == count,
    decreases count,
{
    if count > 0 {
        lemma_all_told(files, hunks, updates, count - 1);
        assert(is_tellable(hunks[count - 1], played(files, hunks, updates, count - 1)));
    }
}

/// A delta that is exact tells of every hunk, and so leads forwards.
proof fn lemma_exact_replayed(
    patch: Patch,
    files: Map<Seq<char>, Seq<u8>>,
    replies: Seq<PrepareReply>,
    draft: DraftView,
    updates: Seq<UpdateView>,
)
    requires
        is_told(patch, files, replies, draft, patch.hunks@.len() as int, updates),
        draft.delta.exact,
    ensures
        draft.delta.changes.len() == patch.hunks@.len(),
        replayed(files, draft.delta.changes) == files_after(
            files,
            patch.hunks@,
            updates,
            patch.hunks@.len() as int,
        ),
{
    let hunks = patch.hunks@;
    let count = hunks.len() as int;
    let changes = draft.delta.changes;
    assert forall|k: int| 0 <= k < count implies is_tellable(
        hunks[k],
        #[trigger] played(files, hunks, updates, k),
    ) by {
        assert(is_text_replaced(hunks[k], played(files, hunks, updates, k)));
        assert(is_playable(patch, files, updates, k));
    }
    lemma_all_told(files, hunks, updates, count);
    assert forall|k: int| 0 <= k < count implies tells(
        changes[k],
        hunks[k],
        #[trigger] played(files, hunks, updates, k),
    ) by {
        assert(is_tellable(hunks[k], played(files, hunks, updates, k)));
        lemma_all_told(files, hunks, updates, k);
    }
    lemma_replayed(patch, files, updates, changes, count);
    assert(changes.take(count) =~= changes);
}

/// The files after all hunks.
proof fn lemma_files_at_end(
    patch: Patch,
    files: Map<Seq<char>, Seq<u8>>,
    replies: Seq<PrepareReply>,
)
    requires
        came_back(replies).len() == update_count(patch.hunks@, patch.hunks@.len() as int),
    ensures
        files_after(files, patch.hunks@, came_back(replies), patch.hunks@.len() as int)
            == patched(files, patch.hunks@, updates_of(replies)),
{
    let updates = came_back(replies);
    lemma_contents(replies);
    assert(patch.hunks@.take(patch.hunks@.len() as int) =~= patch.hunks@);
    assert(contents_of(updates).take(updates.len() as int) =~= contents_of(updates));
}

/// An exact delta leads forwards: from the files before the hunks, one change after the other leads
/// to the files after them. It has one change for each hunk.
pub proof fn law_exact_delta_redoes_patch(
    patch: Patch,
    files: Map<Seq<char>, Seq<u8>>,
    replies: Seq<PrepareReply>,
    draft: DraftView,
    action: PreparedAction,
)
    requires
        is_reading(patch, files, replies),
        prepare_after(patch, replies) == PrepareNext::Done(draft),
        is_action_of(action, patch, draft),
        action.prepared.delta@.exact,
    ensures
        action.prepared.delta@.changes.len() == patch.hunks@.len(),
        replayed(files, action.prepared.delta@.changes) == patched(
            files,
            patch.hunks@,
            updates_of(replies),
        ),
{
    lemma_run(patch, files, replies);
    lemma_exact_replayed(patch, files, replies, draft, came_back(replies));
    lemma_files_at_end(patch, files, replies);
}

/// A prepared patch names its files in three lists, as it spells them and in its order: those that
/// its hunks add, update and delete.
pub proof fn law_files_are_listed_by_what_hunks_do(
    patch: Patch,
    files: Map<Seq<char>, Seq<u8>>,
    replies: Seq<PrepareReply>,
    draft: DraftView,
    action: PreparedAction,
)
    requires
        is_reading(patch, files, replies),
        prepare_after(patch, replies) == PrepareNext::Done(draft),
        is_action_of(action, patch, draft),
    ensures
        ({
            let hunks = patch.hunks@;
            let affected = action.prepared.affected@;
            &&& affected.added == listed(hunks, Listing::Added, hunks.len() as int)
            &&& affected.modified == listed(hunks, Listing::Modified, hunks.len() as int)
            &&& affected.deleted == listed(hunks, Listing::Deleted, hunks.len() as int)
        }),
{
    lemma_run(patch, files, replies);
}

/// The mutations follow the order of the files in the overlay.
proof fn lemma_mutations_ordered(overlay: OverlayView, count: nat)
    requires
        overlay.is_valid(),
        count <= overlay.order.len(),
    ensures
        forall|a: int|
            0 <= a < overlay.mutations(count).len() ==> exists|i: int|
                0 <= i < count && #[trigger] overlay.order[i] == (
                #[trigger] overlay.mutations(count)[a]).path,
        forall|a: int, b: int, i: int, j: int|
            #![trigger overlay.mutations(count)[a], overlay.mutations(count)[b], overlay.order[i], overlay.order[j]]
            0 <= a < b < overlay.mutations(count).len() && 0 <= i < overlay.order.len() && 0 <= j
                < overlay.order.len() && overlay.order[i] == overlay.mutations(count)[a].path
                && overlay.order[j] == overlay.mutations(count)[b].path ==> i < j,
    decreases count,
{
    if count > 0 {
        let fewer = (count - 1) as nat;
        lemma_mutations_ordered(overlay, fewer);
        let earlier = overlay.mutations(fewer);
        let all = overlay.mutations(count);
        assert forall|a: int| 0 <= a < all.len() implies exists|i: int|
            0 <= i < count && #[trigger] overlay.order[i] == (#[trigger] all[a]).path by {
            if a < earlier.len() {
                assert(all[a] == earlier[a]);
                let i = choose|i: int|
                    0 <= i < fewer && #[trigger] overlay.order[i] == earlier[a].path;
                assert(overlay.order[i] == all[a].path);
            } else {
                assert(overlay.order[fewer as int] == all[a].path);
            }
        }
        assert forall|a: int, b: int, i: int, j: int|
            #![trigger all[a], all[b], overlay.order[i], overlay.order[j]]
            0 <= a < b < all.len() && 0 <= i < overlay.order.len() && 0 <= j < overlay.order.len()
                && overlay.order[i] == all[a].path && overlay.order[j]
                == all[b].path implies i < j by {
            assert(all[a] == earlier[a]);
            let n = choose|n: int| 0 <= n < fewer && #[trigger] overlay.order[n] == earlier[a].path;
            assert(overlay.order[n].uri == overlay.order[i].uri);
            assert(n == i);
            if b < earlier.len() {
                assert(all[b] == earlier[b]);
            } else {
                assert(overlay.order[fewer as int].uri == overlay.order[j].uri);
                assert(j == fewer);
            }
        }
    }
}

/// The batch of a prepared patch names its files in the order in which the patch first mentions them,
/// each by the path of that mention, a hunk's file before the place that it moves to. It follows
/// links where the patch does.
pub proof fn law_batch_is_in_the_order_of_the_patch(
    patch: Patch,
    files: Map<Seq<char>, Seq<u8>>,
    replies: Seq<PrepareReply>,
    draft: DraftView,
    action: PreparedAction,
)
    requires
        is_reading(patch, files, replies),
        prepare_after(patch, replies) == PrepareNext::Done(draft),
        is_action_of(action, patch, draft),
    ensures
        ({
            let hunks = patch.hunks@;
            let mutations = action.prepared.batch.mutations@;
            &&& action.prepared.batch.follow_symlinks == patch.follow_symlinks
            &&& forall|a: int|
                0 <= a < mutations.len() ==> exists|position: int| #[trigger]
                    is_first_mention(hunks, position, (#[trigger] mutations[a]).path()@)
            &&& forall|a: int, b: int, p: int, q: int|
                #![trigger is_first_mention(hunks, p, mutations[a].path()@), is_first_mention(hunks, q, mutations[b].path()@)]
                0 <= a < b < mutations.len() && is_first_mention(hunks, p, mutations[a].path()@)
                    && is_first_mention(hunks, q, mutations[b].path()@) ==> p < q
        }),
{
    let hunks = patch.hunks@;
    let overlay = draft.overlay;
    let mutations = action.prepared.batch.mutations@;
    let views = mutation_views(mutations);
    lemma_run(patch, files, replies);
    lemma_mutations_ordered(overlay, overlay.order.len());
    reveal(is_ordered);
    assert forall|a: int| 0 <= a < mutations.len() implies exists|position: int| #[trigger]
        is_first_mention(hunks, position, (#[trigger] mutations[a]).path()@) by {
        assert(views[a].path == mutations[a].path()@);
        let i = choose|i: int|
            0 <= i < overlay.order.len() && #[trigger] overlay.order[i] == views[a].path;
        assert(is_mentioned(hunks, 2 * hunks.len() as int, overlay.order[i]));
    }
    assert forall|a: int, b: int, p: int, q: int|
        #![trigger is_first_mention(hunks, p, mutations[a].path()@), is_first_mention(hunks, q, mutations[b].path()@)]
        0 <= a < b < mutations.len() && is_first_mention(hunks, p, mutations[a].path()@)
            && is_first_mention(hunks, q, mutations[b].path()@) implies p < q by {
        assert(views[a].path == mutations[a].path()@);
        assert(views[b].path == mutations[b].path()@);
        let i = choose|i: int|
            0 <= i < overlay.order.len() && #[trigger] overlay.order[i] == views[a].path;
        let j = choose|j: int|
            0 <= j < overlay.order.len() && #[trigger] overlay.order[j] == views[b].path;
        assert(i < j);
        assert(is_first_mention(hunks, p, overlay.order[i]));
        assert(is_first_mention(hunks, q, overlay.order[j]));
    }
}

/// Whether two preparations stand alike.
pub open spec fn stand_alike(one: PrepareNext, other: PrepareNext) -> bool {
    match (one, other) {
        (PrepareNext::Pending(one), PrepareNext::Pending(other)) => {
            &&& one.draft == other.draft
            &&& one.index == other.index
            &&& one.stage == other.stage
        },
        (PrepareNext::Failed(one), PrepareNext::Failed(other)) => one == other,
        (PrepareNext::Done(one), PrepareNext::Done(other)) => one == other,
        _ => false,
    }
}

/// Whether the changes so far are for files of the first `count` hunks.
spec fn are_of_hunks(hunks: Seq<Hunk>, draft: DraftView, count: int) -> bool {
    forall|uri: Seq<char>| #[trigger]
        draft.changes.contains_key(uri) ==> exists|k: int|
            0 <= k < count && (#[trigger] hunks[k]).source is Ok && source_of(hunks[k]).uri == uri
}

/// A hunk changes nothing but its own entry among the changes.
proof fn lemma_own_change(
    hunks: Seq<Hunk>,
    before: DraftView,
    after: DraftView,
    index: int,
    change: KeyedChange,
)
    requires
        are_of_hunks(hunks, before, index),
        0 <= index < hunks.len(),
        hunks[index].source is Ok,
        after.changes == before.changes.insert(source_of(hunks[index]).uri, change),
    ensures
        are_of_hunks(hunks, after, index + 1),
{
    assert forall|uri: Seq<char>| #[trigger] after.changes.contains_key(uri) implies exists|k: int|
        0 <= k < index + 1 && (#[trigger] hunks[k]).source is Ok && source_of(hunks[k]).uri
            == uri by {
        if uri == source_of(hunks[index]).uri {
            assert(hunks[index].source is Ok);
        } else {
            assert(before.changes.contains_key(uri));
            let k = choose|k: int|
                0 <= k < index && (#[trigger] hunks[k]).source is Ok && source_of(hunks[k]).uri
                    == uri;
            assert(hunks[k].source is Ok);
        }
    }
}

/// What a hunk whose file has been read does to the changes.
proof fn lemma_source_changes(hunks: Seq<Hunk>, draft: DraftView, index: int)
    requires
        are_of_hunks(hunks, draft, index),
        0 <= index < hunks.len(),
        hunks[index].source is Ok,
    ensures
        match source_loaded(hunks[index], draft) {
            HunkNext::Advance(after) => are_of_hunks(hunks, after, index + 1),
            HunkNext::Await(after, _) => are_of_hunks(hunks, after, index),
            HunkNext::Fail(_) => true,
        },
{
    if let HunkNext::Advance(after) = source_loaded(hunks[index], draft) {
        let change = after.changes[source_of(hunks[index]).uri];
        lemma_own_change(hunks, draft, after, index, change);
    }
}

/// A preparation that may not name files twice goes on like one that may.
proof fn lemma_onward_alike(one: Patch, other: Patch, draft: DraftView, index: int)
    requires
        one.hunks@ == other.hunks@,
        one.repeated_source_paths is Allow,
        other.repeated_source_paths is Reject,
        are_for_different_files(one.hunks@),
        0 <= index <= one.hunks@.len(),
        are_of_hunks(one.hunks@, draft, index),
    ensures
        stand_alike(prepare_onward(one, draft, index), prepare_onward(other, draft, index)),
        prepare_onward(one, draft, index) matches PrepareNext::Pending(state) ==> state.index
            >= index && is_alike_state(one.hunks@, state),
    decreases one.hunks@.len() - index,
{
    let hunks = one.hunks@;
    if index < hunks.len() {
        let hunk = hunks[index];
        if let Ok(path) = hunk.source {
            if draft.changes.contains_key(path.uri@) {
                let k = choose|k: int|
                    0 <= k < index && (#[trigger] hunks[k]).source is Ok && source_of(hunks[k]).uri
                        == path.uri@;
                assert(source_of(hunks[k]).uri == source_of(hunks[index]).uri);
                assert(false);
            }
            assert(!draft.changes.dom().contains(path.uri@));
            lemma_source_changes(hunks, draft, index);
        }
        assert(hunk_start(one, hunk, draft) == hunk_start(other, hunk, draft));
        if let HunkNext::Advance(after) = hunk_start(one, hunk, draft) {
            lemma_onward_alike(one, other, after, index + 1);
        }
    }
}

/// Whether no two hunks are for the same file.
pub open spec fn are_for_different_files(hunks: Seq<Hunk>) -> bool {
    forall|i: int, j: int|
        0 <= i < j < hunks.len() && (#[trigger] hunks[i]).source is Ok && (
        #[trigger] hunks[j]).source is Ok ==> source_of(hunks[i]).uri != source_of(hunks[j]).uri
}

/// What holds of a state of a preparation.
spec fn is_alike_state(hunks: Seq<Hunk>, state: PreparationView) -> bool {
    &&& 0 <= state.index < hunks.len()
    &&& hunks[state.index].source is Ok
    &&& are_of_hunks(hunks, state.draft, state.index)
    &&& state.patch.hunks@ == hunks
}

/// A reply leads two preparations on alike.
proof fn lemma_next_alike(
    one: Patch,
    other: Patch,
    state: PreparationView,
    twin: PreparationView,
    reply: PrepareReply,
)
    requires
        one.hunks@ == other.hunks@,
        one.follow_symlinks == other.follow_symlinks,
        one.repeated_source_paths is Allow,
        other.repeated_source_paths is Reject,
        are_for_different_files(one.hunks@),
        state.patch == one,
        twin.patch == other,
        stand_alike(PrepareNext::Pending(state), PrepareNext::Pending(twin)),
        is_alike_state(one.hunks@, state),
    ensures
        stand_alike(prepare_next(state, reply), prepare_next(twin, reply)),
        prepare_next(state, reply) matches PrepareNext::Pending(next) ==> is_alike_state(
            one.hunks@,
            next,
        ),
{
    let hunks = one.hunks@;
    let index = state.index;
    let draft = state.draft;
    let next = hunk_next(one.follow_symlinks, state.hunk(), draft, state.stage, reply);
    assert(state.hunk() == hunks[index] && twin.hunk() == hunks[index]);
    assert(forall|path: PathView, read: Result<Seq<u8>, IoErrorView>|
        are_of_hunks(hunks, #[trigger] draft.loaded(path, read), index));
    assert(forall|is_plain: bool|
        are_of_hunks(hunks, #[trigger] draft.inspected(is_plain), index));
    match (state.stage, reply) {
        (PrepareStageView::Source(_), PrepareReply::Fs(FsReply::Contents(Ok(bytes)))) => {
            lemma_source_changes(
                hunks,
                draft.loaded(source_of(hunks[index]), Ok(bytes@)),
                index,
            );
        },
        (PrepareStageView::Source(_), PrepareReply::Fs(FsReply::Contents(Err(error)))) => {
            lemma_source_changes(
                hunks,
                draft.loaded(source_of(hunks[index]), Err(error@)),
                index,
            );
        },
        (PrepareStageView::Source(_), PrepareReply::Fs(FsReply::Metadata(found))) => {
            lemma_source_changes(
                hunks,
                draft.inspected(found is Ok && !found->Ok_0.is_symlink),
                index,
            );
        },
        _ => {
            if let HunkNext::Advance(after) = next {
                let change = after.changes[source_of(hunks[index]).uri];
                assert(after.changes =~= draft.changes.insert(
                    source_of(hunks[index]).uri,
                    change,
                ));
                lemma_own_change(hunks, draft, after, index, change);
            }
        },
    }
    if let HunkNext::Advance(after) = next {
        lemma_onward_alike(one, other, after, index + 1);
    }
}

/// A patch whose hunks are for different files is prepared alike, whether or not files may be named
/// twice: the same is asked for, and the same comes of it, whatever the replies.
pub proof fn law_different_files_are_never_rejected(
    one: Patch,
    other: Patch,
    replies: Seq<PrepareReply>,
)
    requires
        one.hunks@ == other.hunks@,
        one.follow_symlinks == other.follow_symlinks,
        one.repeated_source_paths is Allow,
        other.repeated_source_paths is Reject,
        are_for_different_files(one.hunks@),
    ensures
        stand_alike(prepare_after(one, replies), prepare_after(other, replies)),
{
    lemma_alike(one, other, replies);
}

proof fn lemma_alike(one: Patch, other: Patch, replies: Seq<PrepareReply>)
    requires
        one.hunks@ == other.hunks@,
        one.follow_symlinks == other.follow_symlinks,
        one.repeated_source_paths is Allow,
        other.repeated_source_paths is Reject,
        are_for_different_files(one.hunks@),
    ensures
        stand_alike(prepare_after(one, replies), prepare_after(other, replies)),
        prepare_after(one, replies) matches PrepareNext::Pending(state) ==> state.patch == one
            && is_alike_state(one.hunks@, state),
        prepare_after(other, replies) matches PrepareNext::Pending(state) ==> state.patch == other,
    decreases replies.len(),
{
    if replies.len() == 0 {
        lemma_onward_alike(one, other, DraftView::empty(), 0);
        lemma_onward_patch(one, DraftView::empty(), 0);
        lemma_onward_patch(other, DraftView::empty(), 0);
    } else {
        lemma_alike(one, other, replies.drop_last());
        if let PrepareNext::Pending(state) = prepare_after(one, replies.drop_last()) {
            let twin = prepare_after(other, replies.drop_last())->Pending_0;
            lemma_next_alike(one, other, state, twin, replies.last());
            lemma_next_patch(state, replies.last());
            lemma_next_patch(twin, replies.last());
        }
    }
}

proof fn lemma_onward_patch(patch: Patch, draft: DraftView, index: int)
    ensures
        prepare_onward(patch, draft, index) matches PrepareNext::Pending(state) ==> state.patch
            == patch,
    decreases patch.hunks@.len() - index,
{
    if index < patch.hunks@.len() {
        if let HunkNext::Advance(after) = hunk_start(patch, patch.hunks@[index], draft) {
            lemma_onward_patch(patch, after, index + 1);
        }
    }
}

proof fn lemma_next_patch(state: PreparationView, reply: PrepareReply)
    ensures
        prepare_next(state, reply) matches PrepareNext::Pending(next) ==> next.patch == state.patch,
{
    if let HunkNext::Advance(after) = hunk_next(
        state.patch.follow_symlinks,
        state.hunk(),
        state.draft,
        state.stage,
        reply,
    ) {
        lemma_onward_patch(state.patch, after, state.index + 1);
    }
}

} // verus!
