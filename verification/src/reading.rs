//! What the preparation of a patch asks for.

use vstd::prelude::*;

use crate::file_system::{FsReply, FsRequest};
use crate::net_effect::{is_reading, is_true_read, is_true_reply, prepare_after};
use crate::prepared::{
    hunk_next, hunk_start, prepare_onward, DraftView, HunkNext, Patch, Preparation, PrepareNext,
    PrepareReply, PrepareRequest, PrepareStageView,
};

verus! {

/// Whether `reply` answers the request truly: what is read is what the file at the path of the
/// request holds, and an update is one of the text that was handed over. Every request may fail.
pub open spec fn is_true_answer(
    files: Map<Seq<char>, Seq<u8>>,
    request: PrepareRequest,
    reply: PrepareReply,
) -> bool {
    &&& request.is_answered_by(reply)
    &&& match request {
        PrepareRequest::Fs(FsRequest::ReadFile { at, .. }) => at.levels == 0 ==> is_true_read(
            files,
            at.path.uri@,
            reply,
        ),
        PrepareRequest::Fs(_) => true,
        PrepareRequest::Update { original, .. } => reply matches PrepareReply::Updated(Ok(update))
            ==> update.original_content@ == original@,
    }
}

/// What a preparation asks for is what it needs: whoever answers its requests truly brings it the
/// replies from which the laws of a prepared patch follow. It only reads and looks, at the file of a
/// hunk or where the hunk moves it, follows links where the patch does, and asks for the lines of the
/// hunk that is being played through.
pub proof fn law_true_answers_are_true_replies(
    state: Preparation,
    files: Map<Seq<char>, Seq<u8>>,
    reply: PrepareReply,
)
    requires
        state.is_valid(),
        is_true_answer(files, state.request_spec(), reply),
    ensures
        is_true_reply(files, state@, reply),
        match state.request_spec() {
            PrepareRequest::Fs(FsRequest::ReadFile { at, follow_symlinks }) => follow_symlinks
                == state.patch.follow_symlinks,
            PrepareRequest::Fs(FsRequest::GetMetadata { at, follow_symlinks }) => {
                let hunk = state.patch.hunks@[state.index as int];
                &&& follow_symlinks == state.patch.follow_symlinks
                &&& at.levels == 0
                &&& state.draft@.overlay.has(at.path@)
                &&& at.path@ == hunk.source->Ok_0@ || at.path@
                    == hunk.operation->destination->0->Ok_0@
            },
            PrepareRequest::Fs(_) => false,
            PrepareRequest::Update { hunk, path, .. } => hunk == state.index && path@
                == state.patch.hunks@[state.index as int].source->Ok_0@,
        },
{
}

/// Without links followed there is no look at a file.
proof fn lemma_no_look_onward(patch: Patch, draft: DraftView, index: int)
    ensures
        prepare_onward(patch, draft, index) matches PrepareNext::Pending(state) ==> state.patch
            == patch && !is_looking(state.stage),
    decreases patch.hunks@.len() - index,
{
    if index < patch.hunks@.len() {
        if let HunkNext::Advance(after) = hunk_start(patch, patch.hunks@[index], draft) {
            lemma_no_look_onward(patch, after, index + 1);
        }
    }
}

spec fn is_looking(stage: PrepareStageView) -> bool {
    match stage {
        PrepareStageView::Source(stage) => stage is Inspecting,
        PrepareStageView::Destination(stage, _) => stage is Inspecting,
        PrepareStageView::Updating(_) => false,
    }
}

proof fn lemma_looks(patch: Patch, replies: Seq<PrepareReply>)
    ensures
        prepare_after(patch, replies) matches PrepareNext::Pending(state) ==> state.patch == patch
            && (is_looking(state.stage) ==> patch.follow_symlinks),
    decreases replies.len(),
{
    if replies.len() == 0 {
        lemma_no_look_onward(patch, DraftView::empty(), 0);
    } else {
        lemma_looks(patch, replies.drop_last());
        if let PrepareNext::Pending(state) = prepare_after(patch, replies.drop_last()) {
            if let HunkNext::Advance(after) = hunk_next(
                patch.follow_symlinks,
                state.hunk(),
                state.draft,
                state.stage,
                replies.last(),
            ) {
                lemma_no_look_onward(patch, after, state.index + 1);
            }
        }
    }
}

/// Every file that was read is looked at next where links are followed, and no file is where they are
/// not.
pub proof fn law_files_are_looked_at_where_links_are_followed(
    patch: Patch,
    files: Map<Seq<char>, Seq<u8>>,
    replies: Seq<PrepareReply>,
    r: int,
)
    requires
        is_reading(patch, files, replies),
        0 <= r < replies.len(),
    ensures
        patch.follow_symlinks && (replies[r] matches PrepareReply::Fs(FsReply::Contents(Ok(_))))
            ==> if r + 1 < replies.len() {
            replies[r + 1] matches PrepareReply::Fs(FsReply::Metadata(_))
        } else {
            prepare_after(patch, replies) is Pending
        },
        replies[r] matches PrepareReply::Fs(FsReply::Metadata(_)) ==> patch.follow_symlinks,
{
    let state = prepare_after(patch, replies.take(r))->Pending_0;
    assert(is_true_reply(files, state, replies[r]));
    lemma_looks(patch, replies.take(r));
    assert(replies.take(r + 1).drop_last() =~= replies.take(r));
    assert(replies.take(r + 1).last() == replies[r]);
    if r + 1 < replies.len() {
        let next = prepare_after(patch, replies.take(r + 1))->Pending_0;
        assert(is_true_reply(files, next, replies[r + 1]));
    } else {
        assert(replies.take(r + 1) =~= replies);
    }
}

} // verus!
