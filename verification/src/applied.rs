//! A patch from its hunks to the files: what a prepared patch leaves behind once its batch has been
//! carried out.

use vstd::prelude::*;

use crate::atomicity::{
    batch_after, is_history, is_target, law_batch_is_all_or_nothing, target, World,
};
use crate::batch::BatchNext;
use crate::file_system::FsReply;
use crate::mutation::{mutation_views, BatchLimits, MutationView};
use crate::net_effect::{
    held, is_reading, law_batch_is_net_effect, mutated, patched, prepare_after, updates_of,
};
use crate::path::Place;
use crate::prepared::{is_action_of, DraftView, Patch, PrepareNext, PrepareReply, PreparedAction};
use crate::rollback::OutcomeView;

verus! {

/// What mutations of different files leave behind.
proof fn lemma_mutated(
    files: Map<Seq<char>, Seq<u8>>,
    mutations: Seq<MutationView>,
    uri: Seq<char>,
)
    requires
        forall|j: int, k: int|
            0 <= j < k < mutations.len() ==> (#[trigger] mutations[j]).path.uri != (
            #[trigger] mutations[k]).path.uri,
    ensures
        forall|k: int|
            0 <= k < mutations.len() && (#[trigger] mutations[k]).path.uri == uri ==> held(
                mutated(files, mutations),
                uri,
            ) == mutations[k].after,
        (forall|k: int| 0 <= k < mutations.len() ==> (#[trigger] mutations[k]).path.uri != uri)
            ==> held(mutated(files, mutations), uri) == held(files, uri),
    decreases mutations.len(),
{
    if mutations.len() > 0 {
        let earlier = mutations.drop_last();
        let last = mutations.len() - 1;
        assert(mutations[last] == mutations.last());
        assert forall|j: int, k: int| 0 <= j < k < earlier.len() implies (
        #[trigger] earlier[j]).path.uri != (#[trigger] earlier[k]).path.uri by {
            assert(earlier[j] == mutations[j] && earlier[k] == mutations[k]);
        }
        lemma_mutated(files, earlier, uri);
        assert forall|k: int|
            0 <= k < mutations.len() && (#[trigger] mutations[k]).path.uri == uri implies held(
            mutated(files, mutations),
            uri,
        ) == mutations[k].after by {
            if k < last {
                assert(earlier[k] == mutations[k]);
                assert(mutations[last].path.uri != uri);
            }
        }
        if forall|k: int| 0 <= k < mutations.len() ==> (#[trigger] mutations[k]).path.uri != uri {
            assert forall|k: int| 0 <= k < earlier.len() implies (
            #[trigger] earlier[k]).path.uri != uri by {
                assert(earlier[k] == mutations[k]);
            }
            assert(mutations[last].path.uri != uri);
        }
    }
}

/// A patch that was prepared from `files`, and whose batch was committed, leaves every file that its
/// batch names as its hunks do, one after the other. The hunks leave all other files as they were,
/// and so does the batch.
pub proof fn law_committed_patch_has_the_effect_of_its_hunks(
    patch: Patch,
    files: Map<Seq<char>, Seq<u8>>,
    reads: Seq<PrepareReply>,
    draft: DraftView,
    action: PreparedAction,
    limits: BatchLimits,
    replies: Seq<FsReply>,
    worlds: Seq<World>,
)
    requires
        is_reading(patch, files, reads),
        prepare_after(patch, reads) == PrepareNext::Done(draft),
        is_action_of(action, patch, draft),
        is_history(action.prepared.batch, limits, replies, worlds),
        batch_after(action.prepared.batch, limits, replies) == BatchNext::Done(
            OutcomeView::Committed,
        ),
    ensures
        ({
            let batch = action.prepared.batch;
            let mutations = batch.mutations@;
            let after = patched(files, patch.hunks@, updates_of(reads));
            &&& forall|k: int|
                0 <= k < mutations.len() ==> worlds.last().file_at(#[trigger] target(batch, k))
                    == held(after, mutations[k].path().uri@)
            &&& forall|place: Place|
                !is_target(batch, mutations.len() as int, place)
                    ==> #[trigger] worlds.last().file_at(place) == worlds[0].file_at(place)
            &&& forall|uri: Seq<char>|
                (forall|k: int| 0 <= k < mutations.len() ==> (#[trigger] mutations[k]).path().uri@
                    != uri) ==> #[trigger] held(after, uri) == held(files, uri)
        }),
{
    let batch = action.prepared.batch;
    let mutations = batch.mutations@;
    let views = mutation_views(mutations);
    let after = patched(files, patch.hunks@, updates_of(reads));
    law_batch_is_net_effect(patch, files, reads, draft);
    law_batch_is_all_or_nothing(batch, limits, replies, worlds, OutcomeView::Committed);
    assert forall|k: int| 0 <= k < mutations.len() implies worlds.last().file_at(
        #[trigger] target(batch, k),
    ) == held(after, mutations[k].path().uri@) by {
        lemma_mutated(files, views, mutations[k].path().uri@);
        assert(views[k].path.uri == mutations[k].path().uri@);
    }
    assert forall|uri: Seq<char>|
        (forall|k: int|
            0 <= k < mutations.len() ==> (#[trigger] mutations[k]).path().uri@
                != uri) implies #[trigger] held(after, uri) == held(files, uri) by {
        lemma_mutated(files, views, uri);
        assert forall|k: int| 0 <= k < views.len() implies (#[trigger] views[k]).path.uri
            != uri by {
            assert(views[k].path.uri == mutations[k].path().uri@);
        }
    }
}

} // verus!
