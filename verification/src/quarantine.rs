//! Quarantine: files and directories are moved aside to private names before they are removed or put
//! back, so that nothing is lost that somebody else put in their place.

use vstd::prelude::*;

use crate::error::{ErrorKind, IoError, IoErrorView};
use crate::path::{names, NativePath, NativeView, Place};
use crate::snapshot::Snapshot;

verus! {

/// A file that was moved aside.
#[derive(Debug)]
pub struct QuarantinedFile {
    pub path: NativePath,
    pub snapshot: Option<Snapshot>,
    pub restore_on_rollback: bool,
}

impl QuarantinedFile {
    /// A file that was taken away, and that comes back if the batch is undone.
    pub fn removed(path: NativePath, snapshot: Option<Snapshot>) -> (file: Self)
        ensures
            file.path == path,
            file.snapshot == snapshot,
            file.restore_on_rollback,
    {
        QuarantinedFile { path, snapshot, restore_on_rollback: true }
    }

    /// A file that was prepared aside, and that goes if the batch is undone.
    pub fn staged(path: NativePath, snapshot: Option<Snapshot>) -> (file: Self)
        ensures
            file.path == path,
            file.snapshot == snapshot,
            !file.restore_on_rollback,
    {
        QuarantinedFile { path, snapshot, restore_on_rollback: false }
    }

    pub fn path(&self) -> (path: &NativePath)
        ensures
            *path == self.path,
    {
        &self.path
    }

    pub fn snapshot(&self) -> (snapshot: Option<&Snapshot>)
        ensures
            snapshot is Some == self.snapshot is Some,
            snapshot matches Some(snapshot) ==> *snapshot == self.snapshot->0,
    {
        self.snapshot.as_ref()
    }

    pub fn restore_on_rollback(&self) -> (restore: bool)
        ensures
            restore == self.restore_on_rollback,
    {
        self.restore_on_rollback
    }
}

/// What tells one directory from another, whatever its name.
#[derive(Clone, Copy, Debug, PartialEq, Eq, Structural)]
pub struct FileIdentity {
    pub volume: u64,
    pub index: u64,
}

/// One request to the filesystem.
#[derive(Clone, Copy, Debug)]
pub enum QuarantineRequest<'a> {
    /// Whether the directory above is one that may be worked in.
    ValidateParent { path: &'a NativePath },
    /// Whether there is anything, without following links. What is there does not matter.
    Probe { path: &'a NativePath },
    ReadSnapshot { path: &'a NativePath },
    /// Which directory it is, if there is any.
    Identify { path: &'a NativePath },
    /// The caller's last say before something is moved.
    BeforeRename,
    /// Fails where there is anything at `to`.
    RenameNoReplace { from: &'a NativePath, to: &'a NativePath },
    RemoveFile { path: &'a NativePath },
    RemoveDirectory { path: &'a NativePath },
}

/// The reply to a request.
#[derive(Debug)]
pub enum QuarantineReply {
    /// The reply to [`QuarantineRequest::ReadSnapshot`].
    Snapshot(Result<Snapshot, IoError>),
    /// The reply to [`QuarantineRequest::Identify`].
    Identity(Result<Option<FileIdentity>, IoError>),
    /// The reply to every other request.
    Done(Result<(), IoError>),
}

impl<'a> QuarantineRequest<'a> {
    /// Whether `reply` is the kind of reply that the request gets.
    pub open spec fn is_answered_by(self, reply: QuarantineReply) -> bool {
        match self {
            QuarantineRequest::ReadSnapshot { .. } => reply is Snapshot,
            QuarantineRequest::Identify { .. } => reply is Identity,
            _ => reply is Done,
        }
    }
}

/// What follows a reply: another request at stage `S`, or a result of type `T`.
#[derive(Debug)]
pub enum QuarantineStep<S, T> {
    Continue(S),
    Done(Result<T, IoError>),
}

/// What follows a reply, as it is decided.
pub enum QuarantineNext<S, T> {
    Continue(S),
    Done(T),
    Failed(IoErrorView),
}

impl<S, T> QuarantineStep<S, T> {
    /// Whether this is what was decided.
    pub open spec fn agrees(self, next: QuarantineNext<S, T>) -> bool {
        match next {
            QuarantineNext::Continue(stage) => self is Continue && self->Continue_0 == stage,
            QuarantineNext::Done(result) => {
                &&& self is Done
                &&& self->Done_0 is Ok
                &&& self->Done_0->Ok_0 == result
            },
            QuarantineNext::Failed(failure) => {
                &&& self is Done
                &&& self->Done_0 is Err
                &&& self->Done_0->Err_0@ == failure
            },
        }
    }
}

/// A failure of no particular kind.
pub open spec fn plain_failure(message: Seq<char>) -> IoErrorView {
    IoErrorView { kind: ErrorKind::Other, message }
}

/// Whether `text` is a random UUID in its usual form: hyphens after 8, 12, 16 and 20 of its 32
/// lower-case hexadecimal digits, version 4, variant 1.
pub open spec fn is_uuid_text(text: Seq<char>) -> bool {
    &&& text.len() == 36
    &&& forall|i: int|
        0 <= i < 36 ==> if i == 8 || i == 13 || i == 18 || i == 23 {
            #[trigger] text[i] == '-'
        } else {
            '0' <= text[i] <= '9' || 'a' <= text[i] <= 'f'
        }
    &&& text[14] == '4'
    &&& text[19] == '8' || text[19] == '9' || text[19] == 'a' || text[19] == 'b'
}

/// Calls `uuid::Uuid::new_v4`, and renders the result. It is random; of every outcome the form is
/// known. The call panics where the operating system gives no random bytes.
#[verifier::external_body]
fn random_uuid() -> (text: String)
    ensures
        is_uuid_text(text@),
{
    uuid::Uuid::new_v4().to_string()
}

/// The path beside `path` with another last name.
pub open spec fn sibling(path: NativeView, name: Seq<char>) -> NativeView {
    NativeView {
        place: Place { root: path.place.root, names: path.place.names.drop_last().push(name) },
        separator: path.separator,
    }
}

/// The name under which something is moved aside.
pub open spec fn private_name(uuid: Seq<char>) -> Seq<char> {
    ".codex-quarantine-"@ + uuid
}

/// Whether `candidate` is a private name beside `path`.
pub open spec fn is_private(candidate: NativeView, path: NativeView) -> bool {
    exists|uuid: Seq<char>| #[trigger]
        is_uuid_text(uuid) && candidate == sibling(path, private_name(uuid))
}

/// The private name beside `path` for a UUID.
pub fn private_candidate(path: &NativePath, uuid: &String) -> (candidate: NativePath)
    requires
        path@.place.names.len() > 0,
    ensures
        candidate@ == sibling(path@, private_name(uuid@)),
{
    let mut candidate = path.clone();
    let ghost all = candidate.components@;
    assert(names(all).len() == names(path.components@).len());
    let mut name: String = ".codex-quarantine-".to_owned();
    name.append(uuid.as_str());
    let last: usize = candidate.components.len() - 1;
    candidate.components.set(last, name);
    assert(names(candidate.components@) =~= names(all).drop_last().push(name@));
    candidate
}

fn random_candidate(path: &NativePath) -> (candidate: NativePath)
    requires
        path@.place.names.len() > 0,
    ensures
        is_private(candidate@, path@),
{
    let uuid = random_uuid();
    private_candidate(path, &uuid)
}

/// How often a free private name is looked for.
pub const QUARANTINE_ATTEMPTS: u8 = 16;

/// The search for a free private name.
#[derive(Debug)]
pub struct PrivateSearch {
    /// Which attempt this is, from one on.
    pub attempt: u8,
    /// The name that is being probed.
    pub candidate: NativePath,
}

impl PrivateSearch {
    /// Whether this is a search beside `path`.
    pub open spec fn is_valid(self, path: NativeView) -> bool {
        &&& path.place.names.len() > 0
        &&& 1 <= self.attempt <= QUARANTINE_ATTEMPTS
        &&& is_private(self.candidate@, path)
    }
}

/// Starts the search for a free private name beside `path`.
pub fn private_path(path: &NativePath) -> (search: Result<PrivateSearch, IoError>)
    ensures
        search is Ok <==> path@.place.names.len() > 0,
        search matches Ok(search) ==> search.attempt == 1 && search.is_valid(path@),
        search matches Err(error) ==> error@ == (IoErrorView {
            kind: ErrorKind::InvalidInput,
            message: "path has no parent directory"@,
        }),
{
    if path.parent_count() == 0 {
        return Err(IoError::new(ErrorKind::InvalidInput, "path has no parent directory"));
    }
    Ok(PrivateSearch { attempt: 1, candidate: random_candidate(path) })
}

/// Whether `step` follows the probe of a private name: a free one is found; after a taken one another
/// is tried, up to the last attempt.
pub open spec fn search_follows(
    step: QuarantineStep<PrivateSearch, NativePath>,
    path: NativeView,
    search: PrivateSearch,
    probed: Result<(), IoError>,
) -> bool {
    match probed {
        Err(error) => if error.kind == ErrorKind::NotFound {
            step.agrees(QuarantineNext::Done(search.candidate))
        } else {
            step.agrees(QuarantineNext::Failed(error@))
        },
        Ok(_) => if search.attempt >= QUARANTINE_ATTEMPTS {
            step.agrees(
                QuarantineNext::Failed(
                    IoErrorView {
                        kind: ErrorKind::AlreadyExists,
                        message: "could not allocate a private quarantine path"@,
                    },
                ),
            )
        } else {
            &&& step is Continue
            &&& step->Continue_0.attempt == search.attempt + 1
            &&& step->Continue_0.is_valid(path)
        },
    }
}

/// Takes the probe of a private name into account.
pub fn probe_private_path(
    path: &NativePath,
    search: PrivateSearch,
    probed: Result<(), IoError>,
) -> (step: QuarantineStep<PrivateSearch, NativePath>)
    requires
        search.is_valid(path@),
    ensures
        search_follows(step, path@, search, probed),
{
    match probed {
        Err(error) => {
            if error.kind == ErrorKind::NotFound {
                QuarantineStep::Done(Ok(search.candidate))
            } else {
                QuarantineStep::Done(Err(error))
            }
        },
        Ok(()) => {
            if search.attempt >= QUARANTINE_ATTEMPTS {
                QuarantineStep::Done(
                    Err(
                        IoError::new(
                            ErrorKind::AlreadyExists,
                            "could not allocate a private quarantine path",
                        ),
                    ),
                )
            } else {
                QuarantineStep::Continue(
                    PrivateSearch {
                        attempt: search.attempt + 1,
                        candidate: random_candidate(path),
                    },
                )
            }
        },
    }
}

/// How far a move aside has come: which reply is awaited.
#[derive(Debug)]
pub enum MoveStage {
    /// A free private name is looked for.
    Searching(PrivateSearch),
    /// The move to this name takes place.
    Renaming(NativePath),
}

impl MoveStage {
    /// Whether this is a stage in moving `path` aside.
    pub open spec fn is_valid(self, path: NativeView) -> bool {
        match self {
            MoveStage::Searching(search) => search.is_valid(path),
            MoveStage::Renaming(candidate) => is_private(candidate@, path),
        }
    }

    /// The request whose reply is awaited.
    pub open spec fn request_spec<'a>(&'a self, path: &'a NativePath) -> QuarantineRequest<'a> {
        match self {
            MoveStage::Searching(search) => QuarantineRequest::Probe { path: &search.candidate },
            MoveStage::Renaming(candidate) => QuarantineRequest::RenameNoReplace {
                from: path,
                to: candidate,
            },
        }
    }

    /// The request whose reply is awaited.
    pub fn request<'a>(&'a self, path: &'a NativePath) -> (request: QuarantineRequest<'a>)
        ensures
            request == self.request_spec(path),
    {
        match self {
            MoveStage::Searching(search) => QuarantineRequest::Probe { path: &search.candidate },
            MoveStage::Renaming(candidate) => QuarantineRequest::RenameNoReplace {
                from: path,
                to: candidate,
            },
        }
    }
}

/// Starts to move `path` aside.
pub fn start_quarantine(path: &NativePath) -> (stage: Result<MoveStage, IoError>)
    ensures
        stage is Ok <==> path@.place.names.len() > 0,
        stage matches Ok(stage) ==> {
            &&& stage is Searching
            &&& stage->Searching_0.attempt == 1
            &&& stage.is_valid(path@)
        },
        stage matches Err(error) ==> error@ == (IoErrorView {
            kind: ErrorKind::InvalidInput,
            message: "path has no parent directory"@,
        }),
{
    match private_path(path) {
        Ok(search) => Ok(MoveStage::Searching(search)),
        Err(error) => Err(error),
    }
}

/// Whether `step` follows `done` in moving `path` aside.
pub open spec fn move_follows(
    step: QuarantineStep<MoveStage, NativePath>,
    path: NativeView,
    stage: MoveStage,
    done: Result<(), IoError>,
) -> bool {
    match stage {
        MoveStage::Searching(search) => match done {
            Err(error) => if error.kind == ErrorKind::NotFound {
                step.agrees(QuarantineNext::Continue(MoveStage::Renaming(search.candidate)))
            } else {
                step.agrees(QuarantineNext::Failed(error@))
            },
            Ok(_) => if search.attempt >= QUARANTINE_ATTEMPTS {
                step.agrees(
                    QuarantineNext::Failed(
                        IoErrorView {
                            kind: ErrorKind::AlreadyExists,
                            message: "could not allocate a private quarantine path"@,
                        },
                    ),
                )
            } else {
                &&& step matches QuarantineStep::Continue(MoveStage::Searching(next))
                &&& next.attempt == search.attempt + 1
                &&& next.is_valid(path)
            },
        },
        MoveStage::Renaming(candidate) => match done {
            Ok(_) => step.agrees(QuarantineNext::Done(candidate)),
            Err(error) => step.agrees(QuarantineNext::Failed(error@)),
        },
    }
}

/// Takes a reply into account in moving `path` aside. The result is the private name.
pub fn quarantine_path(
    path: &NativePath,
    stage: MoveStage,
    done: Result<(), IoError>,
) -> (step: QuarantineStep<MoveStage, NativePath>)
    requires
        stage.is_valid(path@),
    ensures
        move_follows(step, path@, stage, done),
        step matches QuarantineStep::Continue(stage) ==> stage.is_valid(path@),
        step matches QuarantineStep::Done(Ok(candidate)) ==> is_private(candidate@, path@),
{
    match stage {
        MoveStage::Searching(search) => match probe_private_path(path, search, done) {
            QuarantineStep::Continue(search) => QuarantineStep::Continue(
                MoveStage::Searching(search),
            ),
            QuarantineStep::Done(Ok(candidate)) => QuarantineStep::Continue(
                MoveStage::Renaming(candidate),
            ),
            QuarantineStep::Done(Err(error)) => QuarantineStep::Done(Err(error)),
        },
        MoveStage::Renaming(candidate) => match done {
            Ok(()) => QuarantineStep::Done(Ok(candidate)),
            Err(error) => QuarantineStep::Done(Err(error)),
        },
    }
}

/// The request that publishes a file that was prepared aside.
pub fn publish_staged_file<'a>(
    staged_path: &'a NativePath,
    path: &'a NativePath,
) -> (request: QuarantineRequest<'a>)
    ensures
        request == (QuarantineRequest::RenameNoReplace { from: staged_path, to: path }),
{
    QuarantineRequest::RenameNoReplace { from: staged_path, to: path }
}

/// How far a file's return has come: which reply is awaited.
#[derive(Clone, Copy, Debug, PartialEq, Eq, Structural)]
pub enum RestoreStage {
    ValidatingParent,
    CheckingQuarantine,
    CheckingPath,
    BeforeRename,
    Renaming,
    VerifyingPath,
    VerifyingQuarantine,
}

impl RestoreStage {
    /// The request whose reply is awaited.
    pub open spec fn request_spec<'a>(
        self,
        path: &'a NativePath,
        quarantine_path: &'a NativePath,
    ) -> QuarantineRequest<'a> {
        match self {
            RestoreStage::ValidatingParent => QuarantineRequest::ValidateParent { path },
            RestoreStage::CheckingQuarantine => QuarantineRequest::ReadSnapshot {
                path: quarantine_path,
            },
            RestoreStage::CheckingPath => QuarantineRequest::ReadSnapshot { path },
            RestoreStage::BeforeRename => QuarantineRequest::BeforeRename,
            RestoreStage::Renaming => QuarantineRequest::RenameNoReplace {
                from: quarantine_path,
                to: path,
            },
            RestoreStage::VerifyingPath => QuarantineRequest::ReadSnapshot { path },
            RestoreStage::VerifyingQuarantine => QuarantineRequest::ReadSnapshot {
                path: quarantine_path,
            },
        }
    }

    /// The request whose reply is awaited.
    pub fn request<'a>(
        self,
        path: &'a NativePath,
        quarantine_path: &'a NativePath,
    ) -> (request: QuarantineRequest<'a>)
        ensures
            request == self.request_spec(path, quarantine_path),
            forall|reply: QuarantineReply| #[trigger]
                self.accepts(reply) == request.is_answered_by(reply),
    {
        match self {
            RestoreStage::ValidatingParent => QuarantineRequest::ValidateParent { path },
            RestoreStage::CheckingQuarantine => QuarantineRequest::ReadSnapshot {
                path: quarantine_path,
            },
            RestoreStage::CheckingPath => QuarantineRequest::ReadSnapshot { path },
            RestoreStage::BeforeRename => QuarantineRequest::BeforeRename,
            RestoreStage::Renaming => QuarantineRequest::RenameNoReplace {
                from: quarantine_path,
                to: path,
            },
            RestoreStage::VerifyingPath => QuarantineRequest::ReadSnapshot { path },
            RestoreStage::VerifyingQuarantine => QuarantineRequest::ReadSnapshot {
                path: quarantine_path,
            },
        }
    }

    /// Whether `reply` is of the awaited kind.
    pub open spec fn accepts(self, reply: QuarantineReply) -> bool {
        match self {
            RestoreStage::ValidatingParent | RestoreStage::BeforeRename | RestoreStage::Renaming =>
                reply is Done,
            _ => reply is Snapshot,
        }
    }
}

/// What follows a request that either succeeds or fails.
pub open spec fn done_next<S, T>(reply: QuarantineReply, next: S) -> QuarantineNext<S, T> {
    match reply->Done_0 {
        Ok(_) => QuarantineNext::Continue(next),
        Err(error) => QuarantineNext::Failed(error@),
    }
}

/// What follows a look at a file that has to show `image`.
pub open spec fn shown_next<S, T>(
    reply: QuarantineReply,
    image: Option<Seq<u8>>,
    next: QuarantineNext<S, T>,
    otherwise: Seq<char>,
) -> QuarantineNext<S, T> {
    match reply->Snapshot_0 {
        Ok(snapshot) => if snapshot@ == image {
            next
        } else {
            QuarantineNext::Failed(plain_failure(otherwise))
        },
        Err(error) => QuarantineNext::Failed(error@),
    }
}

/// What follows `reply` in putting a file back that is expected to be `expected`.
pub open spec fn restore_next(
    expected: Option<Seq<u8>>,
    stage: RestoreStage,
    reply: QuarantineReply,
) -> QuarantineNext<RestoreStage, ()> {
    match stage {
        RestoreStage::ValidatingParent => done_next(reply, RestoreStage::CheckingQuarantine),
        RestoreStage::CheckingQuarantine => shown_next(
            reply,
            expected,
            QuarantineNext::Continue(RestoreStage::CheckingPath),
            "quarantined file changed before restore"@,
        ),
        RestoreStage::CheckingPath => shown_next(
            reply,
            None,
            QuarantineNext::Continue(RestoreStage::BeforeRename),
            "quarantined file changed before restore"@,
        ),
        RestoreStage::BeforeRename => done_next(reply, RestoreStage::Renaming),
        RestoreStage::Renaming => done_next(reply, RestoreStage::VerifyingPath),
        RestoreStage::VerifyingPath => shown_next(
            reply,
            expected,
            QuarantineNext::Continue(RestoreStage::VerifyingQuarantine),
            "path changed during quarantine restore"@,
        ),
        RestoreStage::VerifyingQuarantine => shown_next(
            reply,
            None,
            QuarantineNext::Done(()),
            "path changed during quarantine restore"@,
        ),
    }
}

/// Goes on where a request succeeded.
fn when_done<S, T>(reply: QuarantineReply, next: S) -> (step: QuarantineStep<S, T>)
    requires
        reply is Done,
    ensures
        step.agrees(done_next(reply, next)),
{
    match reply {
        QuarantineReply::Done(Err(error)) => QuarantineStep::Done(Err(error)),
        _ => QuarantineStep::Continue(next),
    }
}

/// Why a look at a file does not show `image`, if it does not.
fn unlike(reply: QuarantineReply, image: &Snapshot, otherwise: &str) -> (error: Option<IoError>)
    requires
        reply is Snapshot,
    ensures
        match reply->Snapshot_0 {
            Ok(snapshot) => if snapshot@ == image@ {
                error is None
            } else {
                error is Some && error->0@ == plain_failure(otherwise@)
            },
            Err(failure) => error is Some && error->0 == failure,
        },
{
    match reply {
        QuarantineReply::Snapshot(Ok(snapshot)) => {
            if snapshot.same_image(image) {
                None
            } else {
                Some(IoError::other(otherwise))
            }
        },
        QuarantineReply::Snapshot(Err(error)) => Some(error),
        _ => None,
    }
}

/// Takes the awaited reply into account in putting a file back. The first stage is
/// [`RestoreStage::ValidatingParent`].
pub fn restore_quarantined_file(
    expected: &Snapshot,
    stage: RestoreStage,
    reply: QuarantineReply,
) -> (step: QuarantineStep<RestoreStage, ()>)
    requires
        stage.accepts(reply),
    ensures
        step.agrees(restore_next(expected@, stage, reply)),
{
    let missing = Snapshot::Missing;
    match stage {
        RestoreStage::ValidatingParent => when_done(reply, RestoreStage::CheckingQuarantine),
        RestoreStage::CheckingQuarantine => match unlike(
            reply,
            expected,
            "quarantined file changed before restore",
        ) {
            None => QuarantineStep::Continue(RestoreStage::CheckingPath),
            Some(error) => QuarantineStep::Done(Err(error)),
        },
        RestoreStage::CheckingPath => match unlike(
            reply,
            &missing,
            "quarantined file changed before restore",
        ) {
            None => QuarantineStep::Continue(RestoreStage::BeforeRename),
            Some(error) => QuarantineStep::Done(Err(error)),
        },
        RestoreStage::BeforeRename => when_done(reply, RestoreStage::Renaming),
        RestoreStage::Renaming => when_done(reply, RestoreStage::VerifyingPath),
        RestoreStage::VerifyingPath => match unlike(
            reply,
            expected,
            "path changed during quarantine restore",
        ) {
            None => QuarantineStep::Continue(RestoreStage::VerifyingQuarantine),
            Some(error) => QuarantineStep::Done(Err(error)),
        },
        RestoreStage::VerifyingQuarantine => match unlike(
            reply,
            &missing,
            "path changed during quarantine restore",
        ) {
            None => QuarantineStep::Done(Ok(())),
            Some(error) => QuarantineStep::Done(Err(error)),
        },
    }
}

/// How far a file's removal has come: which reply is awaited.
#[derive(Debug)]
pub enum DiscardStage {
    ValidatingParent,
    Checking,
    /// The file is moved aside.
    Quarantining(MoveStage),
    /// The file has this private name.
    CheckingPrivate(NativePath),
    Removing(NativePath),
    Verifying(NativePath),
}

impl DiscardStage {
    /// Whether this is a stage in removing `path`.
    pub open spec fn is_valid(self, path: NativeView) -> bool {
        match self {
            DiscardStage::ValidatingParent | DiscardStage::Checking => true,
            DiscardStage::Quarantining(stage) => stage.is_valid(path),
            DiscardStage::CheckingPrivate(private_path) => is_private(private_path@, path),
            DiscardStage::Removing(private_path) => is_private(private_path@, path),
            DiscardStage::Verifying(private_path) => is_private(private_path@, path),
        }
    }

    /// The request whose reply is awaited.
    pub open spec fn request_spec<'a>(&'a self, path: &'a NativePath) -> QuarantineRequest<'a> {
        match self {
            DiscardStage::ValidatingParent => QuarantineRequest::ValidateParent { path },
            DiscardStage::Checking => QuarantineRequest::ReadSnapshot { path },
            DiscardStage::Quarantining(stage) => stage.request_spec(path),
            DiscardStage::CheckingPrivate(private_path) => QuarantineRequest::ReadSnapshot {
                path: private_path,
            },
            DiscardStage::Removing(private_path) => QuarantineRequest::RemoveFile {
                path: private_path,
            },
            DiscardStage::Verifying(private_path) => QuarantineRequest::ReadSnapshot {
                path: private_path,
            },
        }
    }

    /// The request whose reply is awaited.
    pub fn request<'a>(&'a self, path: &'a NativePath) -> (request: QuarantineRequest<'a>)
        ensures
            request == self.request_spec(path),
            forall|reply: QuarantineReply| #[trigger]
                self.accepts(reply) == request.is_answered_by(reply),
    {
        match self {
            DiscardStage::ValidatingParent => QuarantineRequest::ValidateParent { path },
            DiscardStage::Checking => QuarantineRequest::ReadSnapshot { path },
            DiscardStage::Quarantining(stage) => stage.request(path),
            DiscardStage::CheckingPrivate(private_path) => QuarantineRequest::ReadSnapshot {
                path: private_path,
            },
            DiscardStage::Removing(private_path) => QuarantineRequest::RemoveFile {
                path: private_path,
            },
            DiscardStage::Verifying(private_path) => QuarantineRequest::ReadSnapshot {
                path: private_path,
            },
        }
    }

    /// Whether `reply` is of the awaited kind.
    pub open spec fn accepts(self, reply: QuarantineReply) -> bool {
        match self {
            DiscardStage::Checking
            | DiscardStage::CheckingPrivate(_)
            | DiscardStage::Verifying(_) => reply is Snapshot,
            _ => reply is Done,
        }
    }
}

/// Whether `step` follows a look that shows the file to be removed at `path`: it starts to be moved
/// aside, which needs a directory above.
pub open spec fn discard_started(
    step: QuarantineStep<DiscardStage, ()>,
    path: NativeView,
) -> bool {
    if path.place.names.len() == 0 {
        step.agrees(
            QuarantineNext::Failed(
                IoErrorView {
                    kind: ErrorKind::InvalidInput,
                    message: "path has no parent directory"@,
                },
            ),
        )
    } else {
        &&& step matches QuarantineStep::Continue(
            DiscardStage::Quarantining(MoveStage::Searching(search)),
        )
        &&& search.attempt == 1
        &&& search.is_valid(path)
    }
}

/// Whether `step` follows `moved` in moving aside what is to be removed.
pub open spec fn discard_moved(
    step: QuarantineStep<DiscardStage, ()>,
    moved: QuarantineStep<MoveStage, NativePath>,
) -> bool {
    match moved {
        QuarantineStep::Continue(stage) => step.agrees(
            QuarantineNext::Continue(DiscardStage::Quarantining(stage)),
        ),
        QuarantineStep::Done(Ok(private_path)) => step.agrees(
            QuarantineNext::Continue(DiscardStage::CheckingPrivate(private_path)),
        ),
        QuarantineStep::Done(Err(error)) => step.agrees(QuarantineNext::Failed(error@)),
    }
}

/// Whether `step` follows `reply` in removing the file at `path`, which is expected to be `expected`.
pub open spec fn discard_follows(
    step: QuarantineStep<DiscardStage, ()>,
    path: NativeView,
    expected: Option<Seq<u8>>,
    stage: DiscardStage,
    reply: QuarantineReply,
) -> bool {
    match stage {
        DiscardStage::ValidatingParent => step.agrees(done_next(reply, DiscardStage::Checking)),
        DiscardStage::Checking => match reply->Snapshot_0 {
            Ok(snapshot) => if snapshot@ == expected {
                discard_started(step, path)
            } else {
                step.agrees(
                    QuarantineNext::Failed(
                        plain_failure("quarantined file changed before cleanup"@),
                    ),
                )
            },
            Err(error) => step.agrees(QuarantineNext::Failed(error@)),
        },
        DiscardStage::Quarantining(stage) => exists|
            moved: QuarantineStep<MoveStage, NativePath>,
        | #[trigger]
            move_follows(moved, path, stage, reply->Done_0) && discard_moved(step, moved),
        DiscardStage::CheckingPrivate(private_path) => step.agrees(
            shown_next(
                reply,
                expected,
                QuarantineNext::Continue(DiscardStage::Removing(private_path)),
                "quarantined file changed during cleanup"@,
            ),
        ),
        DiscardStage::Removing(private_path) => step.agrees(
            done_next(reply, DiscardStage::Verifying(private_path)),
        ),
        DiscardStage::Verifying(_) => step.agrees(
            shown_next(
                reply,
                None,
                QuarantineNext::Done(()),
                "quarantined file remained after cleanup"@,
            ),
        ),
    }
}

/// Takes the awaited reply into account in removing the file at `path`. The first stage is
/// [`DiscardStage::ValidatingParent`].
pub fn discard_quarantined_file(
    path: &NativePath,
    expected: &Snapshot,
    stage: DiscardStage,
    reply: QuarantineReply,
) -> (step: QuarantineStep<DiscardStage, ()>)
    requires
        stage.is_valid(path@),
        stage.accepts(reply),
    ensures
        discard_follows(step, path@, expected@, stage, reply),
        step matches QuarantineStep::Continue(stage) ==> stage.is_valid(path@),
{
    match stage {
        DiscardStage::ValidatingParent => when_done(reply, DiscardStage::Checking),
        DiscardStage::Checking => match unlike(
            reply,
            expected,
            "quarantined file changed before cleanup",
        ) {
            None => match start_quarantine(path) {
                Ok(stage) => QuarantineStep::Continue(DiscardStage::Quarantining(stage)),
                Err(error) => QuarantineStep::Done(Err(error)),
            },
            Some(error) => QuarantineStep::Done(Err(error)),
        },
        DiscardStage::Quarantining(stage) => match reply {
            QuarantineReply::Done(done) => {
                let moved = quarantine_path(path, stage, done);
                assert(move_follows(moved, path@, stage, done));
                match moved {
                    QuarantineStep::Continue(stage) => QuarantineStep::Continue(
                        DiscardStage::Quarantining(stage),
                    ),
                    QuarantineStep::Done(Ok(private_path)) => QuarantineStep::Continue(
                        DiscardStage::CheckingPrivate(private_path),
                    ),
                    QuarantineStep::Done(Err(error)) => QuarantineStep::Done(Err(error)),
                }
            },
            _ => QuarantineStep::Continue(DiscardStage::Quarantining(stage)),
        },
        DiscardStage::CheckingPrivate(private_path) => match unlike(
            reply,
            expected,
            "quarantined file changed during cleanup",
        ) {
            None => QuarantineStep::Continue(DiscardStage::Removing(private_path)),
            Some(error) => QuarantineStep::Done(Err(error)),
        },
        DiscardStage::Removing(private_path) => when_done(
            reply,
            DiscardStage::Verifying(private_path),
        ),
        DiscardStage::Verifying(_) => match unlike(
            reply,
            &Snapshot::Missing,
            "quarantined file remained after cleanup",
        ) {
            None => QuarantineStep::Done(Ok(())),
            Some(error) => QuarantineStep::Done(Err(error)),
        },
    }
}

/// `bytes` as a C string, where they hold no zero.
fn c_string(bytes: &Vec<u8>) -> (string: Option<Vec<u8>>)
    ensures
        string is Some <==> !bytes@.contains(0u8),
        string matches Some(string) ==> string@ == bytes@.push(0u8),
{
    let mut string: Vec<u8> = Vec::new();
    let mut index: usize = 0;
    while index < bytes.len()
        invariant
            index <= bytes.len(),
            string@ =~= bytes@.take(index as int),
            forall|k: int| 0 <= k < index ==> bytes@[k] != 0u8,
        decreases bytes.len() - index,
    {
        if bytes[index] == 0 {
            assert(bytes@[index as int] == 0u8);
            return None;
        }
        string.push(bytes[index]);
        index = index + 1;
    }
    string.push(0);
    assert(string@ =~= bytes@.push(0u8));
    Some(string)
}

/// The two paths of a move as C strings, the source first.
pub fn rename_no_replace(from: &Vec<u8>, to: &Vec<u8>) -> (strings: Result<
    (Vec<u8>, Vec<u8>),
    IoError,
>)
    ensures
        strings is Ok <==> !from@.contains(0u8) && !to@.contains(0u8),
        strings matches Ok(strings) ==> strings.0@ == from@.push(0u8) && strings.1@ == to@.push(
            0u8,
        ),
        strings matches Err(error) ==> error@ == (IoErrorView {
            kind: ErrorKind::InvalidInput,
            message: if from@.contains(0u8) {
                "source path contains NUL"@
            } else {
                "destination path contains NUL"@
            },
        }),
{
    match c_string(from) {
        None => Err(IoError::new(ErrorKind::InvalidInput, "source path contains NUL")),
        Some(from) => match c_string(to) {
            None => Err(IoError::new(ErrorKind::InvalidInput, "destination path contains NUL")),
            Some(to) => Ok((from, to)),
        },
    }
}

} // verus!
