//! The preparation of a patch: its hunks are played through on an overlay of the files, which gives
//! one batch of mutations with their net effect.

use vstd::prelude::*;
use vstd::utf8::encode_utf8;

use crate::error::{ErrorKind, IoError, IoErrorView};
use crate::file_system::{FileMetadata, FsReply, FsRequest, Location};
use crate::mutation::{mutation_views, FileMutationBatch, FilePreimage};
use crate::overlay::{image, FileState, Overlay, OverlayEntry, OverlayView};
use crate::patch::{
    text_view, AffectedPaths, AffectedView, AppliedChangeView, AppliedPatchDelta,
    AppliedPatchFileChange, AppliedView, ApplyPatchError, ApplyPatchFileChange, DeltaView,
    FileChangeView, FileChanges, FileUpdate, Hunk, HunkOperation, KeyedChange, PatchFailure,
    RepeatedSourcePaths,
};
use crate::path::{names, PathUri, PathView};
use crate::text::{bytes_copy, join, joined, text_bytes, text_from_utf8, text_of, utf8_error_text};

verus! {

/// A patch, and how it is to be applied.
#[derive(Debug)]
pub struct Patch {
    pub hunks: Vec<Hunk>,
    pub repeated_source_paths: RepeatedSourcePaths,
    /// Whether links are followed where files are read and where they are changed.
    pub follow_symlinks: bool,
}

/// What the hunks so far come to.
#[derive(Debug)]
pub struct Draft {
    pub overlay: Overlay,
    pub changes: FileChanges,
    pub delta: AppliedPatchDelta,
    pub affected: AffectedPaths,
}

/// What a [`Draft`] says.
#[verifier::ext_equal]
pub struct DraftView {
    pub overlay: OverlayView,
    pub changes: Map<Seq<char>, KeyedChange>,
    pub delta: DeltaView,
    pub affected: AffectedView,
}

impl View for Draft {
    type V = DraftView;

    open spec fn view(&self) -> DraftView {
        DraftView {
            overlay: self.overlay@,
            changes: self.changes@,
            delta: self.delta@,
            affected: self.affected@,
        }
    }
}

/// What a [`FileUpdate`] says.
pub struct UpdateView {
    pub original_content: Seq<char>,
    pub unified_diff: Seq<char>,
    pub content: Seq<char>,
}

impl View for FileUpdate {
    type V = UpdateView;

    open spec fn view(&self) -> UpdateView {
        UpdateView {
            original_content: self.original_content@,
            unified_diff: self.unified_diff@,
            content: self.content@,
        }
    }
}

/// A patch that is ready to be applied.
#[derive(Debug)]
pub struct PreparedPatch {
    pub batch: FileMutationBatch,
    pub delta: AppliedPatchDelta,
    pub affected: AffectedPaths,
}

/// A patch that is ready to be applied, and the changes that it asks for.
#[derive(Debug)]
pub struct PreparedAction {
    pub changes: FileChanges,
    pub prepared: PreparedPatch,
}

/// How far the reading of a file has come: which reply is awaited.
#[derive(Clone, Copy, Debug, PartialEq, Eq, Structural)]
pub enum LoadStage {
    /// The file is read.
    Reading,
    /// The file was there and links are followed; it is looked at, to tell whether it is one.
    Inspecting,
}

/// How far a hunk has come: which reply is awaited.
#[derive(Debug)]
pub enum PrepareStage {
    Source(LoadStage),
    /// The lines of the hunk are applied to this text.
    Updating(String),
    /// The file moves, and the place that it moves to is read.
    Destination(LoadStage, FileUpdate),
}

/// What a [`PrepareStage`] says.
pub enum PrepareStageView {
    Source(LoadStage),
    Updating(Seq<char>),
    Destination(LoadStage, UpdateView),
}

impl View for PrepareStage {
    type V = PrepareStageView;

    open spec fn view(&self) -> PrepareStageView {
        match self {
            PrepareStage::Source(stage) => PrepareStageView::Source(*stage),
            PrepareStage::Updating(text) => PrepareStageView::Updating(text@),
            PrepareStage::Destination(stage, update) => PrepareStageView::Destination(
                *stage,
                update@,
            ),
        }
    }
}

/// The preparation of a patch, under way.
#[derive(Debug)]
pub struct Preparation {
    pub patch: Patch,
    pub draft: Draft,
    /// The hunk that is being played through.
    pub index: usize,
    pub stage: PrepareStage,
}

/// What a [`Preparation`] says.
#[verifier::ext_equal]
pub struct PreparationView {
    pub patch: Patch,
    pub draft: DraftView,
    pub index: int,
    pub stage: PrepareStageView,
}

impl View for Preparation {
    type V = PreparationView;

    open spec fn view(&self) -> PreparationView {
        PreparationView {
            patch: self.patch,
            draft: self.draft@,
            index: self.index as int,
            stage: self.stage@,
        }
    }
}

/// What a preparation asks for.
#[derive(Clone, Copy, Debug)]
pub enum PrepareRequest<'a> {
    Fs(FsRequest<'a>),
    /// What the lines of the hunk at this position make of the text in `path`.
    Update { hunk: usize, path: &'a PathUri, original: &'a String },
}

/// The reply to a request.
#[derive(Debug)]
pub enum PrepareReply {
    Fs(FsReply),
    Updated(Result<FileUpdate, ApplyPatchError>),
}

/// What follows a reply, or the start.
#[derive(Debug)]
pub enum PrepareStep {
    Pending(Preparation),
    Done(Result<PreparedAction, ApplyPatchError>),
}

/// What follows a reply, or the start, as it is decided.
pub enum PrepareNext {
    Pending(PreparationView),
    Failed(PatchFailure),
    /// All hunks have been played through.
    Done(DraftView),
}

/// How a hunk goes on.
pub enum HunkNext {
    /// The hunk is done.
    Advance(DraftView),
    Await(DraftView, PrepareStageView),
    Fail(PatchFailure),
}

/// The failure where a patch names `path` twice and may not.
pub open spec fn repeated_failure(path: PathView) -> PatchFailure {
    PatchFailure::InvalidPatch("multiple operations target "@ + path.display)
}

/// The failure where a file would move to where it is.
pub open spec fn same_path_failure(path: PathView) -> PatchFailure {
    PatchFailure::InvalidPatch("move destination is the same as source "@ + path.display)
}

/// The failure where a file cannot be read.
pub open spec fn read_failure(path: PathView, source: IoErrorView) -> PatchFailure {
    PatchFailure::Io { context: "Failed to read "@ + path.display, source }
}

/// The failure where a file is not what `operation` needs.
pub open spec fn content_failure(
    path: PathView,
    operation: Seq<char>,
    source: IoErrorView,
) -> PatchFailure {
    PatchFailure::Io {
        context: joined("Failed to read file to "@, operation, " "@) + path.display,
        source,
    }
}

/// Why there is no file: what the filesystem said, or, where the patch itself took it away, that
/// there is none.
pub open spec fn missing_cause(state: FileState) -> IoErrorView {
    match state.missing_error {
        Some(error) => error,
        None => IoErrorView { kind: ErrorKind::NotFound, message: "entity not found"@ },
    }
}

/// What is replaced, as text, where there is a file that holds text.
pub open spec fn replaced_text(current: Option<Seq<u8>>) -> Option<Seq<char>> {
    match current {
        Some(bytes) => text_of(bytes),
        None => None,
    }
}

/// Whether [`replaced_text`] tells all that is replaced.
pub open spec fn is_told(current: Option<Seq<u8>>) -> bool {
    current is Some ==> replaced_text(current) is Some
}

impl DraftView {
    /// Before the first hunk.
    pub open spec fn empty() -> DraftView {
        DraftView {
            overlay: OverlayView::empty(),
            changes: Map::empty(),
            delta: DeltaView { exact: true, changes: Seq::empty() },
            affected: AffectedView {
                added: Seq::empty(),
                modified: Seq::empty(),
                deleted: Seq::empty(),
            },
        }
    }

    /// What the file at `path` holds now.
    pub open spec fn current(self, path: PathView) -> Option<Seq<u8>> {
        self.overlay.files[path.uri].current
    }

    /// With what the filesystem said of the file at `path`: its contents, or that there is none.
    pub open spec fn loaded(self, path: PathView, read: Result<Seq<u8>, IoErrorView>) -> DraftView {
        DraftView {
            overlay: self.overlay.insert(
                path,
                match read {
                    Ok(bytes) => FileState {
                        initial: Some(bytes),
                        current: Some(bytes),
                        missing_error: None,
                    },
                    Err(error) => FileState {
                        initial: None,
                        current: None,
                        missing_error: Some(error),
                    },
                },
            ),
            ..self
        }
    }

    /// With a file that may be a link, where `is_plain` is false: the delta does not tell what
    /// became of the link.
    pub open spec fn inspected(self, is_plain: bool) -> DraftView {
        DraftView {
            delta: DeltaView { exact: self.delta.exact && is_plain, ..self.delta },
            ..self
        }
    }

    /// With the file at `path` added, in place of what it held.
    pub open spec fn added(self, path: PathView, spelled: Seq<char>, content: Seq<char>) -> DraftView {
        let current = self.current(path);
        DraftView {
            overlay: self.overlay.set_current(path, Some(encode_utf8(content))),
            changes: self.changes.insert(
                path.uri,
                KeyedChange { path, change: FileChangeView::Add { content } },
            ),
            delta: DeltaView {
                exact: self.delta.exact && is_told(current),
                changes: self.delta.changes.push(
                    AppliedView {
                        path,
                        change: AppliedChangeView::Add {
                            content,
                            overwritten_content: replaced_text(current),
                        },
                    },
                ),
            },
            affected: AffectedView { added: self.affected.added.push(spelled), ..self.affected },
        }
    }

    /// With the file at `path` deleted, which held `bytes`. A file that holds no text leaves no
    /// change in the delta.
    pub open spec fn deleted(self, path: PathView, spelled: Seq<char>, bytes: Seq<u8>) -> DraftView {
        DraftView {
            overlay: self.overlay.set_current(path, None),
            changes: self.changes.insert(
                path.uri,
                KeyedChange {
                    path,
                    change: FileChangeView::Delete {
                        content: match text_of(bytes) {
                            Some(content) => content,
                            None => Seq::empty(),
                        },
                    },
                },
            ),
            delta: match text_of(bytes) {
                Some(content) => DeltaView {
                    exact: self.delta.exact,
                    changes: self.delta.changes.push(
                        AppliedView { path, change: AppliedChangeView::Delete { content } },
                    ),
                },
                None => DeltaView { exact: false, changes: self.delta.changes },
            },
            affected: AffectedView { deleted: self.affected.deleted.push(spelled), ..self.affected },
        }
    }

    /// With the file at `path` updated, and moved to the destination where there is one, in place of
    /// what that held.
    pub open spec fn updated(
        self,
        path: PathView,
        spelled: Seq<char>,
        destination: Option<PathView>,
        update: UpdateView,
    ) -> DraftView {
        let content = Some(encode_utf8(update.content));
        let replaced = match destination {
            Some(destination) => self.current(destination),
            None => None,
        };
        DraftView {
            overlay: match destination {
                Some(destination) => self.overlay.set_current(destination, content).set_current(
                    path,
                    None,
                ),
                None => self.overlay.set_current(path, content),
            },
            changes: self.changes.insert(
                path.uri,
                KeyedChange {
                    path,
                    change: FileChangeView::Update {
                        unified_diff: update.unified_diff,
                        move_path: destination,
                        new_content: update.content,
                    },
                },
            ),
            delta: DeltaView {
                exact: self.delta.exact && is_told(replaced),
                changes: self.delta.changes.push(
                    AppliedView {
                        path,
                        change: AppliedChangeView::Update {
                            move_path: destination,
                            old_content: update.original_content,
                            overwritten_move_content: replaced_text(replaced),
                            new_content: update.content,
                        },
                    },
                ),
            },
            affected: AffectedView {
                modified: self.affected.modified.push(spelled),
                ..self.affected
            },
        }
    }
}

/// How a hunk goes on when its file has been read.
pub open spec fn source_loaded(hunk: Hunk, draft: DraftView) -> HunkNext {
    let path = hunk.source->Ok_0@;
    match hunk.operation {
        HunkOperation::AddFile { contents } => HunkNext::Advance(
            draft.added(path, hunk.path@, contents@),
        ),
        HunkOperation::DeleteFile => match draft.current(path) {
            Some(bytes) => HunkNext::Advance(draft.deleted(path, hunk.path@, bytes)),
            None => HunkNext::Fail(
                content_failure(path, "delete"@, missing_cause(draft.overlay.files[path.uri])),
            ),
        },
        HunkOperation::UpdateFile { .. } => match draft.current(path) {
            Some(bytes) => match text_of(bytes) {
                Some(text) => HunkNext::Await(draft, PrepareStageView::Updating(text)),
                None => HunkNext::Fail(
                    content_failure(
                        path,
                        "update"@,
                        IoErrorView {
                            kind: ErrorKind::InvalidData,
                            message: utf8_error_text(bytes),
                        },
                    ),
                ),
            },
            None => HunkNext::Fail(
                content_failure(path, "update"@, missing_cause(draft.overlay.files[path.uri])),
            ),
        },
    }
}

/// How a hunk starts: its file is read, unless an earlier hunk has brought it in.
pub open spec fn hunk_start(patch: Patch, hunk: Hunk, draft: DraftView) -> HunkNext {
    match hunk.source {
        Err(error) => HunkNext::Fail(error@),
        Ok(path) => if patch.repeated_source_paths is Reject && draft.changes.dom().contains(
            path.uri@,
        ) {
            HunkNext::Fail(repeated_failure(path@))
        } else if draft.overlay.has(path@) {
            source_loaded(hunk, draft)
        } else {
            HunkNext::Await(draft, PrepareStageView::Source(LoadStage::Reading))
        },
    }
}

/// How a hunk that updates its file goes on when the new contents are there.
pub open spec fn hunk_updated(hunk: Hunk, draft: DraftView, update: UpdateView) -> HunkNext {
    let path = hunk.source->Ok_0@;
    match hunk.operation->destination {
        None => HunkNext::Advance(draft.updated(path, hunk.path@, None, update)),
        Some(Err(error)) => HunkNext::Fail(error@),
        Some(Ok(destination)) => if destination.uri@ == path.uri {
            HunkNext::Fail(same_path_failure(path))
        } else if draft.overlay.has(destination@) {
            HunkNext::Advance(draft.updated(path, hunk.path@, Some(destination@), update))
        } else {
            HunkNext::Await(draft, PrepareStageView::Destination(LoadStage::Reading, update))
        },
    }
}

/// How a hunk goes on after a reply. A file that was read is looked at where links are followed, to
/// tell whether it is one; where they are not, a file that can be read is none.
pub open spec fn hunk_next(
    follow_symlinks: bool,
    hunk: Hunk,
    draft: DraftView,
    stage: PrepareStageView,
    reply: PrepareReply,
) -> HunkNext {
    let path = hunk.source->Ok_0@;
    match (stage, reply) {
        (
            PrepareStageView::Source(LoadStage::Reading),
            PrepareReply::Fs(FsReply::Contents(read)),
        ) => match read {
            Ok(bytes) => {
                let loaded = draft.loaded(path, Ok(bytes@));
                if follow_symlinks {
                    HunkNext::Await(loaded, PrepareStageView::Source(LoadStage::Inspecting))
                } else {
                    source_loaded(hunk, loaded)
                }
            },
            Err(error) => if error.kind == ErrorKind::NotFound {
                source_loaded(hunk, draft.loaded(path, Err(error@)))
            } else {
                HunkNext::Fail(read_failure(path, error@))
            },
        },
        (
            PrepareStageView::Source(LoadStage::Inspecting),
            PrepareReply::Fs(FsReply::Metadata(found)),
        ) => source_loaded(hunk, draft.inspected(found is Ok && !found->Ok_0.is_symlink)),
        (PrepareStageView::Updating(_), PrepareReply::Updated(result)) => match result {
            Ok(update) => hunk_updated(hunk, draft, update@),
            Err(error) => HunkNext::Fail(error@),
        },
        (
            PrepareStageView::Destination(LoadStage::Reading, update),
            PrepareReply::Fs(FsReply::Contents(read)),
        ) => {
            let destination = hunk.operation->destination->0->Ok_0@;
            match read {
                Ok(bytes) => {
                    let loaded = draft.loaded(destination, Ok(bytes@));
                    if follow_symlinks {
                        HunkNext::Await(
                            loaded,
                            PrepareStageView::Destination(LoadStage::Inspecting, update),
                        )
                    } else {
                        HunkNext::Advance(
                            loaded.updated(path, hunk.path@, Some(destination), update),
                        )
                    }
                },
                Err(error) => if error.kind == ErrorKind::NotFound {
                    HunkNext::Advance(
                        draft.loaded(destination, Err(error@)).updated(
                            path,
                            hunk.path@,
                            Some(destination),
                            update,
                        ),
                    )
                } else {
                    HunkNext::Fail(read_failure(destination, error@))
                },
            }
        },
        (
            PrepareStageView::Destination(LoadStage::Inspecting, update),
            PrepareReply::Fs(FsReply::Metadata(found)),
        ) => {
            let destination = hunk.operation->destination->0->Ok_0@;
            HunkNext::Advance(
                draft.inspected(found is Ok && !found->Ok_0.is_symlink).updated(
                    path,
                    hunk.path@,
                    Some(destination),
                    update,
                ),
            )
        },
        _ => HunkNext::Await(draft, stage),
    }
}

/// What follows where the hunks before `index` are done.
pub open spec fn prepare_onward(patch: Patch, draft: DraftView, index: int) -> PrepareNext
    decreases patch.hunks@.len() - index,
{
    if index >= patch.hunks@.len() {
        PrepareNext::Done(draft)
    } else {
        match hunk_start(patch, patch.hunks@[index], draft) {
            HunkNext::Advance(draft) => prepare_onward(patch, draft, index + 1),
            HunkNext::Await(draft, stage) => PrepareNext::Pending(
                PreparationView { patch, draft, index, stage },
            ),
            HunkNext::Fail(failure) => PrepareNext::Failed(failure),
        }
    }
}

/// What follows where the hunk at `index` goes on so.
pub open spec fn prepare_settled(patch: Patch, index: int, hunk: HunkNext) -> PrepareNext {
    match hunk {
        HunkNext::Advance(draft) => prepare_onward(patch, draft, index + 1),
        HunkNext::Await(draft, stage) => PrepareNext::Pending(
            PreparationView { patch, draft, index, stage },
        ),
        HunkNext::Fail(failure) => PrepareNext::Failed(failure),
    }
}

/// What follows at the start.
pub open spec fn prepare_start(patch: Patch) -> PrepareNext {
    prepare_onward(patch, DraftView::empty(), 0)
}

/// What follows a reply.
pub open spec fn prepare_next(state: PreparationView, reply: PrepareReply) -> PrepareNext {
    prepare_settled(
        state.patch,
        state.index,
        hunk_next(
            state.patch.follow_symlinks,
            state.hunk(),
            state.draft,
            state.stage,
            reply,
        ),
    )
}

/// Whether `action` is what `draft` comes to.
pub open spec fn is_action_of(action: PreparedAction, patch: Patch, draft: DraftView) -> bool {
    &&& action.changes.is_valid()
    &&& action.changes@ == draft.changes
    &&& action.prepared.delta@ == draft.delta
    &&& action.prepared.affected@ == draft.affected
    &&& mutation_views(action.prepared.batch.mutations@) == draft.overlay.mutations(
        draft.overlay.order.len(),
    )
    &&& action.prepared.batch.follow_symlinks == patch.follow_symlinks
}

/// Whether `step` is what was decided.
pub open spec fn prepare_agrees(step: PrepareStep, patch: Patch, next: PrepareNext) -> bool {
    match next {
        PrepareNext::Pending(state) => {
            &&& step is Pending
            &&& step->Pending_0.is_valid()
            &&& step->Pending_0@ == state
        },
        PrepareNext::Failed(failure) => {
            &&& step is Done
            &&& step->Done_0 is Err
            &&& step->Done_0->Err_0@ == failure
        },
        PrepareNext::Done(draft) => {
            &&& step is Done
            &&& step->Done_0 is Ok
            &&& is_action_of(step->Done_0->Ok_0, patch, draft)
        },
    }
}

impl Preparation {
    /// Whether the state is one that a preparation comes to.
    pub open spec fn is_valid(self) -> bool {
        self.draft.is_valid() && self@.is_valid()
    }
}

impl PreparationView {
    /// The hunk that is being played through.
    pub open spec fn hunk(self) -> Hunk {
        self.patch.hunks@[self.index]
    }

    /// Whether the hunk and what has been read fit the stage.
    pub open spec fn is_valid(self) -> bool {
        &&& 0 <= self.index < self.patch.hunks@.len()
        &&& fits_stage(self.hunk(), self.draft, self.stage)
    }

    /// Whether `reply` is of the awaited kind.
    pub open spec fn accepts(self, reply: PrepareReply) -> bool {
        self.stage.accepts(reply)
    }
}

/// Whether a hunk and what has been read fit the stage.
pub open spec fn fits_stage(hunk: Hunk, draft: DraftView, stage: PrepareStageView) -> bool {
    let path = hunk.source->Ok_0@;
    let destination = hunk.operation->destination->0->Ok_0@;
    &&& hunk.source is Ok
    &&& match stage {
        PrepareStageView::Source(LoadStage::Reading) => !draft.overlay.has(path),
        PrepareStageView::Source(LoadStage::Inspecting) => draft.overlay.has(path),
        PrepareStageView::Updating(text) => {
            &&& hunk.operation is UpdateFile
            &&& draft.overlay.has(path)
            &&& replaced_text(draft.current(path)) == Some(text)
        },
        PrepareStageView::Destination(stage, _) => {
            &&& hunk.operation is UpdateFile
            &&& hunk.operation->destination is Some
            &&& hunk.operation->destination->0 is Ok
            &&& destination.uri != path.uri
            &&& draft.overlay.has(path)
            &&& draft.overlay.has(destination) == (stage is Inspecting)
        },
    }
}

impl PrepareStageView {
    /// Whether `reply` is of the awaited kind.
    pub open spec fn accepts(self, reply: PrepareReply) -> bool {
        match self {
            PrepareStageView::Source(LoadStage::Reading)
            | PrepareStageView::Destination(LoadStage::Reading, _) => reply is Fs
                && reply->Fs_0 is Contents,
            PrepareStageView::Source(LoadStage::Inspecting)
            | PrepareStageView::Destination(LoadStage::Inspecting, _) => reply is Fs
                && reply->Fs_0 is Metadata,
            PrepareStageView::Updating(_) => reply is Updated,
        }
    }
}

impl<'a> PrepareRequest<'a> {
    /// Whether `reply` is the kind of reply that the request gets.
    pub open spec fn is_answered_by(self, reply: PrepareReply) -> bool {
        match self {
            PrepareRequest::Fs(request) => reply is Fs && request.is_answered_by(reply->Fs_0),
            PrepareRequest::Update { .. } => reply is Updated,
        }
    }
}

/// What the file at `path` holds, for `operation`.
pub fn current_bytes<'a>(
    path: &PathUri,
    overlay: &'a Overlay,
    operation: &str,
) -> (bytes: Result<&'a Vec<u8>, ApplyPatchError>)
    requires
        overlay.is_valid(),
        overlay@.has(path@),
    ensures
        match overlay@.files[path.uri@].current {
            Some(current) => bytes is Ok && bytes->Ok_0@ == current,
            None => bytes is Err && bytes->Err_0@ == content_failure(
                path@,
                operation@,
                missing_cause(overlay@.files[path.uri@]),
            ),
        },
{
    match overlay.current(path) {
        Some(bytes) => Ok(bytes),
        None => {
            let source = match overlay.missing_error(path) {
                Some(error) => error.clone(),
                None => IoError::new(ErrorKind::NotFound, "entity not found"),
            };
            Err(ApplyPatchError::Io { context: content_context(path, operation), source })
        },
    }
}

fn content_context(path: &PathUri, operation: &str) -> (context: String)
    ensures
        context@ == joined("Failed to read file to "@, operation@, " "@) + path@.display,
{
    let mut context: String = join("Failed to read file to ", operation, " ");
    context.append(path.display.as_str());
    context
}

/// The text that the file at `path` holds, for `operation`.
pub fn current_text(
    path: &PathUri,
    overlay: &Overlay,
    operation: &str,
) -> (text: Result<String, ApplyPatchError>)
    requires
        overlay.is_valid(),
        overlay@.has(path@),
    ensures
        match overlay@.files[path.uri@].current {
            Some(current) => match text_of(current) {
                Some(content) => text is Ok && text->Ok_0@ == content,
                None => text is Err && text->Err_0@ == content_failure(
                    path@,
                    operation@,
                    IoErrorView {
                        kind: ErrorKind::InvalidData,
                        message: utf8_error_text(current),
                    },
                ),
            },
            None => text is Err && text->Err_0@ == content_failure(
                path@,
                operation@,
                missing_cause(overlay@.files[path.uri@]),
            ),
        },
{
    let bytes = current_bytes(path, overlay, operation)?;
    match text_from_utf8(bytes_copy(bytes)) {
        Ok(text) => Ok(text),
        Err(message) => Err(
            ApplyPatchError::Io {
                context: content_context(path, operation),
                source: IoError { kind: ErrorKind::InvalidData, message },
            },
        ),
    }
}

/// Takes what the filesystem said of the file at `path` into the overlay. Returns whether there is
/// such a file; a failure to read it is passed on.
pub fn load_path(
    path: &PathUri,
    read: Result<Vec<u8>, IoError>,
    overlay: &mut Overlay,
) -> (found: Result<bool, ApplyPatchError>)
    requires
        old(overlay).is_valid(),
        !old(overlay)@.has(path@),
    ensures
        final(overlay).is_valid(),
        match read {
            Ok(bytes) => {
                &&& found is Ok
                &&& found->Ok_0
                &&& final(overlay)@ == old(overlay)@.insert(
                    path@,
                    FileState {
                        initial: Some(bytes@),
                        current: Some(bytes@),
                        missing_error: None,
                    },
                )
            },
            Err(error) => if error.kind == ErrorKind::NotFound {
                &&& found is Ok
                &&& !found->Ok_0
                &&& final(overlay)@ == old(overlay)@.insert(
                    path@,
                    FileState { initial: None, current: None, missing_error: Some(error@) },
                )
            } else {
                &&& found is Err
                &&& found->Err_0@ == read_failure(path@, error@)
                &&& final(overlay)@ == old(overlay)@
            },
        },
{
    match read {
        Ok(bytes) => {
            overlay.insert(
                OverlayEntry {
                    path: path.clone(),
                    initial: FilePreimage::Exact(bytes_copy(&bytes)),
                    current: Some(bytes),
                    missing_error: None,
                },
            );
            Ok(true)
        },
        Err(error) => {
            if error.kind == ErrorKind::NotFound {
                overlay.insert(
                    OverlayEntry {
                        path: path.clone(),
                        initial: FilePreimage::Missing,
                        current: None,
                        missing_error: Some(error),
                    },
                );
                Ok(false)
            } else {
                let mut context: String = "Failed to read ".to_owned();
                context.append(path.display.as_str());
                Err(ApplyPatchError::Io { context, source: error })
            }
        },
    }
}

/// How a hunk goes on.
enum Progress {
    Advance(Draft),
    Await(Draft, PrepareStage),
    Fail(ApplyPatchError),
}

impl Progress {
    /// Whether this is what was decided.
    spec fn agrees(self, next: HunkNext) -> bool {
        match next {
            HunkNext::Advance(draft) => {
                &&& self is Advance
                &&& self->Advance_0.is_valid()
                &&& self->Advance_0@ == draft
            },
            HunkNext::Await(draft, stage) => {
                &&& self is Await
                &&& self->Await_0.is_valid()
                &&& self->Await_0@ == draft
                &&& self->Await_1@ == stage
            },
            HunkNext::Fail(failure) => self is Fail && self->Fail_0@ == failure,
        }
    }
}

/// What is replaced, as text, and whether that tells all of it.
fn overwritten(contents: &Option<Vec<u8>>) -> (told: (Option<String>, bool))
    ensures
        text_view(told.0) == replaced_text(image(*contents)),
        told.1 == is_told(image(*contents)),
{
    match contents {
        Some(bytes) => match text_from_utf8(bytes_copy(bytes)) {
            Ok(text) => (Some(text), true),
            Err(_) => (None, false),
        },
        None => (None, true),
    }
}

impl Draft {
    /// Whether no file and no change is there twice.
    pub open spec fn is_valid(self) -> bool {
        self.overlay.is_valid() && self.changes.is_valid()
    }

    /// Before the first hunk.
    fn new() -> (draft: Self)
        ensures
            draft.is_valid(),
            draft@ == DraftView::empty(),
    {
        Draft {
            overlay: Overlay::new(),
            changes: FileChanges::new(),
            delta: AppliedPatchDelta::empty(),
            affected: AffectedPaths::new(),
        }
    }

    /// Takes into account whether a file that was read is a link.
    fn inspect(&mut self, found: Result<FileMetadata, IoError>)
        requires
            old(self).is_valid(),
        ensures
            final(self).is_valid(),
            final(self)@ == old(self)@.inspected(found is Ok && !found->Ok_0.is_symlink),
    {
        let is_plain = match found {
            Ok(metadata) => !metadata.is_symlink,
            Err(_) => false,
        };
        if !is_plain {
            self.delta.exact = false;
        }
    }

    /// Adds the file at `path`.
    fn add_file(&mut self, path: &PathUri, spelled: &String, contents: &String)
        requires
            old(self).is_valid(),
            old(self)@.overlay.has(path@),
        ensures
            final(self).is_valid(),
            final(self)@ == old(self)@.added(path@, spelled@, contents@),
    {
        let ghost before = self.affected.added@;
        let (overwritten_content, told) = overwritten(self.overlay.current(path));
        if !told {
            self.delta.exact = false;
        }
        self.overlay.set_current(path, Some(text_bytes(contents)));
        self.changes.insert(path, ApplyPatchFileChange::Add { content: contents.clone() });
        self.delta.push(
            path.clone(),
            AppliedPatchFileChange::Add { content: contents.clone(), overwritten_content },
        );
        self.affected.added.push(spelled.clone());
        assert(names(self.affected.added@) =~= names(before).push(spelled@));
    }

    /// Deletes the file at `path`.
    fn delete_file(&mut self, path: &PathUri, spelled: &String) -> (deleted: Result<
        (),
        ApplyPatchError,
    >)
        requires
            old(self).is_valid(),
            old(self)@.overlay.has(path@),
        ensures
            match old(self)@.current(path@) {
                Some(bytes) => {
                    &&& deleted is Ok
                    &&& final(self).is_valid()
                    &&& final(self)@ == old(self)@.deleted(path@, spelled@, bytes)
                },
                None => {
                    &&& deleted is Err
                    &&& deleted->Err_0@ == content_failure(
                        path@,
                        "delete"@,
                        missing_cause(old(self)@.overlay.files[path.uri@]),
                    )
                },
            },
    {
        let ghost before = self.affected.deleted@;
        let bytes = bytes_copy(current_bytes(path, &self.overlay, "delete")?);
        let content = match text_from_utf8(bytes) {
            Ok(content) => Some(content),
            Err(_) => {
                self.delta.exact = false;
                None
            },
        };
        self.overlay.set_current(path, None);
        match content {
            Some(content) => {
                self.changes.insert(path, ApplyPatchFileChange::Delete { content: content.clone() });
                self.delta.push(path.clone(), AppliedPatchFileChange::Delete { content });
            },
            None => {
                let content: String = String::new();
                assert(content@ =~= Seq::empty());
                self.changes.insert(path, ApplyPatchFileChange::Delete { content });
            },
        }
        self.affected.deleted.push(spelled.clone());
        assert(names(self.affected.deleted@) =~= names(before).push(spelled@));
        Ok(())
    }

    /// Updates the file at `path`, and moves it where there is a destination.
    fn update_file(
        &mut self,
        path: &PathUri,
        spelled: &String,
        destination: Option<&PathUri>,
        update: FileUpdate,
    )
        requires
            old(self).is_valid(),
            old(self)@.overlay.has(path@),
            destination matches Some(destination) ==> old(self)@.overlay.has(destination@),
        ensures
            final(self).is_valid(),
            final(self)@ == old(self)@.updated(
                path@,
                spelled@,
                match destination {
                    Some(destination) => Some(destination@),
                    None => None,
                },
                update@,
            ),
    {
        let ghost before = self.affected.modified@;
        let (overwritten_move_content, move_path) = match destination {
            Some(destination) => {
                let (content, told) = overwritten(self.overlay.current(destination));
                if !told {
                    self.delta.exact = false;
                }
                self.overlay.set_current(destination, Some(text_bytes(&update.content)));
                self.overlay.set_current(path, None);
                (content, Some(destination.clone()))
            },
            None => {
                self.overlay.set_current(path, Some(text_bytes(&update.content)));
                (None, None)
            },
        };
        self.changes.insert(
            path,
            ApplyPatchFileChange::Update {
                unified_diff: update.unified_diff,
                move_path: move_path.clone(),
                new_content: update.content.clone(),
            },
        );
        self.delta.push(
            path.clone(),
            AppliedPatchFileChange::Update {
                move_path,
                old_content: update.original_content,
                overwritten_move_content,
                new_content: update.content,
            },
        );
        self.affected.modified.push(spelled.clone());
        assert(names(self.affected.modified@) =~= names(before).push(spelled@));
    }
}

/// Goes on with a hunk when its file has been read.
fn on_source_loaded(hunk: &Hunk, path: &PathUri, draft: Draft) -> (progress: Progress)
    requires
        draft.is_valid(),
        hunk.source is Ok,
        *path == hunk.source->Ok_0,
        draft@.overlay.has(path@),
    ensures
        progress.agrees(source_loaded(*hunk, draft@)),
{
    let mut draft = draft;
    match &hunk.operation {
        HunkOperation::AddFile { contents } => {
            draft.add_file(path, &hunk.path, contents);
            Progress::Advance(draft)
        },
        HunkOperation::DeleteFile => match draft.delete_file(path, &hunk.path) {
            Ok(()) => Progress::Advance(draft),
            Err(error) => Progress::Fail(error),
        },
        HunkOperation::UpdateFile { .. } => match current_text(path, &draft.overlay, "update") {
            Ok(text) => Progress::Await(draft, PrepareStage::Updating(text)),
            Err(error) => Progress::Fail(error),
        },
    }
}

/// Starts a hunk.
fn start_hunk(patch: &Patch, hunk: &Hunk, draft: Draft) -> (progress: Progress)
    requires
        draft.is_valid(),
    ensures
        progress.agrees(hunk_start(*patch, *hunk, draft@)),
{
    match &hunk.source {
        Err(error) => Progress::Fail(error.clone()),
        Ok(path) => {
            let reject = match patch.repeated_source_paths {
                RepeatedSourcePaths::Reject => true,
                RepeatedSourcePaths::Allow => false,
            };
            if reject && draft.changes.find(path).is_some() {
                let mut message: String = "multiple operations target ".to_owned();
                message.append(path.display.as_str());
                Progress::Fail(ApplyPatchError::InvalidPatch(message))
            } else if draft.overlay.find(path).is_some() {
                on_source_loaded(hunk, path, draft)
            } else {
                Progress::Await(draft, PrepareStage::Source(LoadStage::Reading))
            }
        },
    }
}

/// Goes on with a hunk when the new contents of its file are there.
fn on_updated(hunk: &Hunk, path: &PathUri, draft: Draft, update: FileUpdate) -> (progress: Progress)
    requires
        draft.is_valid(),
        hunk.source is Ok,
        *path == hunk.source->Ok_0,
        hunk.operation is UpdateFile,
        draft@.overlay.has(path@),
    ensures
        progress.agrees(hunk_updated(*hunk, draft@, update@)),
{
    let mut draft = draft;
    match &hunk.operation {
        HunkOperation::UpdateFile { destination: Some(Ok(destination)) } => {
            if destination.same_uri(path) {
                let mut message: String = "move destination is the same as source ".to_owned();
                message.append(path.display.as_str());
                Progress::Fail(ApplyPatchError::InvalidPatch(message))
            } else if draft.overlay.find(destination).is_some() {
                draft.update_file(path, &hunk.path, Some(destination), update);
                Progress::Advance(draft)
            } else {
                Progress::Await(draft, PrepareStage::Destination(LoadStage::Reading, update))
            }
        },
        HunkOperation::UpdateFile { destination: Some(Err(error)) } => Progress::Fail(
            error.clone(),
        ),
        _ => {
            draft.update_file(path, &hunk.path, None, update);
            Progress::Advance(draft)
        },
    }
}

/// Plays hunks through until one awaits a reply.
#[verifier::loop_isolation(false)]
fn play(patch: Patch, draft: Draft, index: usize) -> (step: PrepareStep)
    requires
        draft.is_valid(),
        index <= patch.hunks@.len(),
    ensures
        prepare_agrees(step, patch, prepare_onward(patch, draft@, index as int)),
{
    let ghost next = prepare_onward(patch, draft@, index as int);
    let mut draft = draft;
    let mut index: usize = index;
    while index < patch.hunks.len()
        invariant
            index <= patch.hunks@.len(),
            draft.is_valid(),
            next == prepare_onward(patch, draft@, index as int),
        decreases patch.hunks@.len() - index,
    {
        match start_hunk(&patch, &patch.hunks[index], draft) {
            Progress::Advance(advanced) => {
                draft = advanced;
                index = index + 1;
            },
            Progress::Await(draft, stage) => {
                return PrepareStep::Pending(Preparation { patch, draft, index, stage });
            },
            Progress::Fail(error) => {
                return PrepareStep::Done(Err(error));
            },
        }
    }
    PrepareStep::Done(
        Ok(
            PreparedAction {
                changes: draft.changes,
                prepared: PreparedPatch {
                    batch: FileMutationBatch {
                        mutations: draft.overlay.into_mutations(),
                        follow_symlinks: patch.follow_symlinks,
                    },
                    delta: draft.delta,
                    affected: draft.affected,
                },
            },
        ),
    )
}

/// Starts the preparation of a patch.
pub fn prepare_hunks(patch: Patch) -> (step: PrepareStep)
    ensures
        prepare_agrees(step, patch, prepare_start(patch)),
{
    play(patch, Draft::new(), 0)
}

impl Preparation {
    /// The request whose reply is awaited.
    pub open spec fn request_spec<'a>(&'a self) -> PrepareRequest<'a> {
        let hunk = self@.hunk();
        let follow_symlinks = self.patch.follow_symlinks;
        let source = Location { path: &hunk.source->Ok_0, levels: 0 };
        let destination = Location { path: &hunk.operation->destination->0->Ok_0, levels: 0 };
        match self.stage {
            PrepareStage::Source(LoadStage::Reading) => PrepareRequest::Fs(
                FsRequest::ReadFile { at: source, follow_symlinks },
            ),
            PrepareStage::Source(LoadStage::Inspecting) => PrepareRequest::Fs(
                FsRequest::GetMetadata { at: source, follow_symlinks },
            ),
            PrepareStage::Updating(original) => PrepareRequest::Update {
                hunk: self.index,
                path: source.path,
                original: &original,
            },
            PrepareStage::Destination(LoadStage::Reading, _) => PrepareRequest::Fs(
                FsRequest::ReadFile { at: destination, follow_symlinks },
            ),
            PrepareStage::Destination(LoadStage::Inspecting, _) => PrepareRequest::Fs(
                FsRequest::GetMetadata { at: destination, follow_symlinks },
            ),
        }
    }

    /// The request whose reply is awaited.
    pub fn request<'a>(&'a self) -> (request: PrepareRequest<'a>)
        requires
            self.is_valid(),
        ensures
            request == self.request_spec(),
            request matches PrepareRequest::Fs(request) ==> request.is_read(),
            forall|reply: PrepareReply| #[trigger]
                self@.accepts(reply) == request.is_answered_by(reply),
    {
        let follow_symlinks = self.patch.follow_symlinks;
        let hunk = &self.patch.hunks[self.index];
        let source = hunk.source.as_ref().unwrap();
        match &self.stage {
            PrepareStage::Source(LoadStage::Reading) => PrepareRequest::Fs(
                FsRequest::ReadFile {
                    at: Location { path: source, levels: 0 },
                    follow_symlinks,
                },
            ),
            PrepareStage::Source(LoadStage::Inspecting) => PrepareRequest::Fs(
                FsRequest::GetMetadata {
                    at: Location { path: source, levels: 0 },
                    follow_symlinks,
                },
            ),
            PrepareStage::Updating(original) => PrepareRequest::Update {
                hunk: self.index,
                path: source,
                original,
            },
            PrepareStage::Destination(LoadStage::Reading, _) => PrepareRequest::Fs(
                FsRequest::ReadFile {
                    at: Location { path: hunk.destination().unwrap(), levels: 0 },
                    follow_symlinks,
                },
            ),
            PrepareStage::Destination(LoadStage::Inspecting, _) => PrepareRequest::Fs(
                FsRequest::GetMetadata {
                    at: Location { path: hunk.destination().unwrap(), levels: 0 },
                    follow_symlinks,
                },
            ),
        }
    }

    /// Takes the awaited reply into account.
    pub fn resume(self, reply: PrepareReply) -> (step: PrepareStep)
        requires
            self.is_valid(),
            self@.accepts(reply),
        ensures
            prepare_agrees(step, self.patch, prepare_next(self@, reply)),
    {
        let Preparation { patch, draft, index, stage } = self;
        let progress = resume_hunk(
            patch.follow_symlinks,
            &patch.hunks[index],
            draft,
            stage,
            reply,
        );
        match progress {
            Progress::Advance(draft) => {
                assert(patch.hunks@.len() == patch.hunks.len());
                play(patch, draft, index + 1)
            },
            Progress::Await(draft, stage) => PrepareStep::Pending(
                Preparation { patch, draft, index, stage },
            ),
            Progress::Fail(error) => PrepareStep::Done(Err(error)),
        }
    }
}

impl Hunk {
    /// Where the file moves to, where it moves and the path can be resolved.
    fn destination(&self) -> (destination: Option<&PathUri>)
        ensures
            destination is Some == (self.operation matches HunkOperation::UpdateFile {
                destination: Some(Ok(_)),
            }),
            destination matches Some(destination) ==> *destination
                == self.operation->destination->0->Ok_0,
    {
        match &self.operation {
            HunkOperation::UpdateFile { destination: Some(Ok(destination)) } => Some(destination),
            _ => None,
        }
    }
}

/// Goes on with a hunk after a reply.
fn resume_hunk(
    follow_symlinks: bool,
    hunk: &Hunk,
    draft: Draft,
    stage: PrepareStage,
    reply: PrepareReply,
) -> (progress: Progress)
    requires
        draft.is_valid(),
        fits_stage(*hunk, draft@, stage@),
        stage@.accepts(reply),
    ensures
        progress.agrees(hunk_next(follow_symlinks, *hunk, draft@, stage@, reply)),
{
    let mut draft = draft;
    let path = hunk.source.as_ref().unwrap();
    match (stage, reply) {
        (
            PrepareStage::Source(LoadStage::Reading),
            PrepareReply::Fs(FsReply::Contents(read)),
        ) => match load_path(path, read, &mut draft.overlay) {
            Ok(found) => {
                if found && follow_symlinks {
                    Progress::Await(draft, PrepareStage::Source(LoadStage::Inspecting))
                } else {
                    on_source_loaded(hunk, path, draft)
                }
            },
            Err(error) => Progress::Fail(error),
        },
        (
            PrepareStage::Source(LoadStage::Inspecting),
            PrepareReply::Fs(FsReply::Metadata(found)),
        ) => {
            draft.inspect(found);
            on_source_loaded(hunk, path, draft)
        },
        (PrepareStage::Updating(_), PrepareReply::Updated(result)) => match result {
            Ok(update) => on_updated(hunk, path, draft, update),
            Err(error) => Progress::Fail(error),
        },
        (
            PrepareStage::Destination(LoadStage::Reading, update),
            PrepareReply::Fs(FsReply::Contents(read)),
        ) => {
            let destination = hunk.destination().unwrap();
            match load_path(destination, read, &mut draft.overlay) {
                Ok(found) => {
                    if found && follow_symlinks {
                        Progress::Await(
                            draft,
                            PrepareStage::Destination(LoadStage::Inspecting, update),
                        )
                    } else {
                        draft.update_file(path, &hunk.path, Some(destination), update);
                        Progress::Advance(draft)
                    }
                },
                Err(error) => Progress::Fail(error),
            }
        },
        (
            PrepareStage::Destination(LoadStage::Inspecting, update),
            PrepareReply::Fs(FsReply::Metadata(found)),
        ) => {
            draft.inspect(found);
            draft.update_file(path, &hunk.path, Some(hunk.destination().unwrap()), update);
            Progress::Advance(draft)
        },
        (stage, _) => Progress::Await(draft, stage),
    }
}

} // verus!
