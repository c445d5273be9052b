//! One helper process for all the requests of one patch: which requests it serves, and how it is
//! talked to.

use vstd::prelude::*;

use crate::error::{ErrorKind, IoError, IoErrorView};
use crate::fs_helper::{
    kind_of_code, map_sandbox_error, FileSystemSandboxContext, FsHelperPayload, JSONRPCErrorError,
};

verus! {

/// What a helper is started for: a filesystem and the sandbox that it runs in.
#[derive(Debug)]
pub struct ScopedFsHelperKey {
    pub runner_id: usize,
    pub sandbox: FileSystemSandboxContext,
}

impl ScopedFsHelperKey {
    /// Whether a helper for one serves the other.
    pub open spec fn is_same(self, other: ScopedFsHelperKey) -> bool {
        self.runner_id == other.runner_id && self.sandbox.is_same(other.sandbox)
    }

    /// Whether a helper for one serves the other.
    pub fn same_key(&self, other: &ScopedFsHelperKey) -> (same: bool)
        ensures
            same == self.is_same(*other),
    {
        self.runner_id == other.runner_id && self.sandbox.same_context(&other.sandbox)
    }
}

/// The span of one patch, with the helper that was started in it.
#[derive(Debug)]
pub struct HelperScope {
    pub installed: Option<ScopedFsHelperKey>,
}

/// Who serves a request.
#[derive(Clone, Copy, Debug, PartialEq, Eq, Structural)]
pub enum HelperRoute {
    /// The helper of the scope.
    Installed,
    /// A helper that is to be started, and that stays for the scope.
    Start,
    /// A helper for this request alone.
    OneShot,
}

/// Who serves a request for `key` in a scope with the helper `installed`: the first request has a
/// helper started, and later ones share it where it fits.
pub open spec fn route_in_scope(
    installed: Option<ScopedFsHelperKey>,
    key: ScopedFsHelperKey,
) -> HelperRoute {
    match installed {
        Some(helper) => if helper.is_same(key) {
            HelperRoute::Installed
        } else {
            HelperRoute::OneShot
        },
        None => HelperRoute::Start,
    }
}

/// Who serves a request for `key`. Outside a scope each request has a helper of its own.
pub fn run_sandboxed(scope: Option<&HelperScope>, key: &ScopedFsHelperKey) -> (route: HelperRoute)
    ensures
        route == match scope {
            Some(scope) => route_in_scope(scope.installed, *key),
            None => HelperRoute::OneShot,
        },
{
    match scope {
        Some(scope) => match &scope.installed {
            Some(helper) => {
                if helper.same_key(key) {
                    HelperRoute::Installed
                } else {
                    HelperRoute::OneShot
                }
            },
            None => HelperRoute::Start,
        },
        None => HelperRoute::OneShot,
    }
}

/// What became of the start of a helper process.
#[derive(Clone, Copy, Debug, PartialEq, Eq, Structural)]
pub struct HelperPipes {
    pub has_stdin: bool,
    pub has_stdout: bool,
}

/// Why a helper that was to be started cannot be used, if it cannot.
pub open spec fn start_failure(spawned: Result<HelperPipes, JSONRPCErrorError>) -> Option<
    IoErrorView,
> {
    match spawned {
        Err(error) => Some(
            IoErrorView { kind: kind_of_code(error.code), message: error.message@ },
        ),
        Ok(pipes) => if !pipes.has_stdin {
            Some(
                IoErrorView {
                    kind: ErrorKind::Other,
                    message: "failed to open apply_patch fs helper stdin"@,
                },
            )
        } else if !pipes.has_stdout {
            Some(
                IoErrorView {
                    kind: ErrorKind::Other,
                    message: "failed to open apply_patch fs helper stdout"@,
                },
            )
        } else {
            None
        },
    }
}

/// What a scope holds after the start of a helper for `key`.
pub open spec fn scope_started(
    installed: Option<ScopedFsHelperKey>,
    key: ScopedFsHelperKey,
    spawned: Result<HelperPipes, JSONRPCErrorError>,
) -> Option<ScopedFsHelperKey> {
    if start_failure(spawned) is None {
        Some(key)
    } else {
        installed
    }
}

impl HelperScope {
    /// A scope without a helper.
    pub fn new() -> (scope: Self)
        ensures
            scope.installed is None,
    {
        HelperScope { installed: None }
    }

    /// Takes the start of a helper for `key` into account: the helper stays for the scope if it can
    /// be talked to.
    pub fn start(
        &mut self,
        key: ScopedFsHelperKey,
        spawned: Result<HelperPipes, JSONRPCErrorError>,
    ) -> (started: Result<(), IoError>)
        ensures
            started is Ok <==> start_failure(spawned) is None,
            started matches Err(error) ==> error@ == start_failure(spawned)->0,
            final(self).installed == scope_started(old(self).installed, key, spawned),
    {
        match spawned {
            Err(error) => Err(map_sandbox_error(error)),
            Ok(pipes) => {
                if !pipes.has_stdin {
                    return Err(IoError::other("failed to open apply_patch fs helper stdin"));
                }
                if !pipes.has_stdout {
                    return Err(IoError::other("failed to open apply_patch fs helper stdout"));
                }
                self.installed = Some(key);
                Ok(())
            },
        }
    }

    /// Ends the scope. Returns what its helper was for, which is to be shut down.
    pub fn close(&mut self) -> (helper: Option<ScopedFsHelperKey>)
        ensures
            helper == old(self).installed,
            final(self).installed is None,
    {
        self.installed.take()
    }
}

/// A request in a scope, and what became of the start of a helper, if one was to be started for it.
pub struct ScopeEvent {
    pub key: ScopedFsHelperKey,
    pub spawned: Result<HelperPipes, JSONRPCErrorError>,
}

/// Whether the event starts a helper that stays for the scope.
pub open spec fn installs(installed: Option<ScopedFsHelperKey>, event: ScopeEvent) -> bool {
    route_in_scope(installed, event.key) is Start && start_failure(event.spawned) is None
}

/// The helper of a scope after `events`.
pub open spec fn installed_after(events: Seq<ScopeEvent>) -> Option<ScopedFsHelperKey>
    decreases events.len(),
{
    if events.len() == 0 {
        None
    } else {
        let installed = installed_after(events.drop_last());
        let event = events.last();
        if route_in_scope(installed, event.key) is Start {
            scope_started(installed, event.key, event.spawned)
        } else {
            installed
        }
    }
}

/// How many helpers were started for the scope in `events`.
pub open spec fn installations(events: Seq<ScopeEvent>) -> nat
    decreases events.len(),
{
    if events.len() == 0 {
        0
    } else {
        let earlier = events.drop_last();
        installations(earlier) + if installs(installed_after(earlier), events.last()) {
            1nat
        } else {
            0nat
        }
    }
}

/// A scope has at most one helper, however many requests there are.
pub proof fn law_scope_has_at_most_one_helper(events: Seq<ScopeEvent>)
    ensures
        installations(events) <= 1,
        installations(events) == 1 <==> installed_after(events) is Some,
    decreases events.len(),
{
    if events.len() > 0 {
        law_scope_has_at_most_one_helper(events.drop_last());
    }
}

/// Once a scope has a helper, it keeps that one, and every request that it fits is served by it.
pub proof fn law_scope_keeps_its_helper(events: Seq<ScopeEvent>, event: ScopeEvent)
    requires
        installed_after(events) is Some,
    ensures
        installed_after(events.push(event)) == installed_after(events),
        route_in_scope(installed_after(events), event.key) is Installed <==> installed_after(
            events,
        )->0.is_same(event.key),
        !(route_in_scope(installed_after(events), event.key) is Start),
{
    assert(events.push(event).drop_last() =~= events);
}

/// The byte that ends a line.
pub const LINE_END: u8 = 10;

/// The line that carries a request, where `encoded` is the request as text, or why there is none.
pub fn frame_request(encoded: Result<Vec<u8>, String>) -> (line: Result<Vec<u8>, IoError>)
    ensures
        match encoded {
            Ok(bytes) => line is Ok && line->Ok_0@ == bytes@.push(LINE_END),
            Err(problem) => line is Err && line->Err_0@ == (IoErrorView {
                kind: ErrorKind::Other,
                message: "failed to encode fs sandbox helper message: "@ + problem@,
            }),
        },
{
    match encoded {
        Ok(bytes) => {
            let mut line = bytes;
            line.push(LINE_END);
            Ok(line)
        },
        Err(problem) => {
            let mut message: String = "failed to encode fs sandbox helper message: ".to_owned();
            message.append(problem.as_str());
            Err(IoError { kind: ErrorKind::Other, message })
        },
    }
}

/// What an exchange with a helper does next.
#[derive(Clone, Copy, Debug, PartialEq, Eq, Structural)]
pub enum ExchangeStage {
    /// The line that was written is flushed.
    Flushing,
    /// A line is read from the helper.
    Reading,
}

/// What became of one part of an exchange: the line is written first.
#[derive(Debug)]
pub enum ExchangeReply {
    Written(Result<(), IoError>),
    Flushed(Result<(), IoError>),
    /// What was read up to the end of the line; nothing where the helper has closed its output.
    Line(Result<Vec<u8>, IoError>),
    /// The answer in the line, or why there is none.
    Decoded(Result<Result<FsHelperPayload, JSONRPCErrorError>, String>),
}

/// What follows a reply.
#[derive(Debug)]
pub enum ExchangeStep {
    Continue(ExchangeStage),
    /// These bytes are to be decoded next.
    Decode(Vec<u8>),
    Done(Result<FsHelperPayload, IoError>),
}

/// Whether `step` is a failure that says `failure`.
pub open spec fn fails_with(step: ExchangeStep, failure: IoErrorView) -> bool {
    step is Done && step->Done_0 is Err && step->Done_0->Err_0@ == failure
}

/// Whether `step` is what follows `reply`.
pub open spec fn follows(step: ExchangeStep, reply: ExchangeReply) -> bool {
    match reply {
        ExchangeReply::Written(Ok(_)) => step == ExchangeStep::Continue(ExchangeStage::Flushing),
        ExchangeReply::Flushed(Ok(_)) => step == ExchangeStep::Continue(ExchangeStage::Reading),
        ExchangeReply::Line(Ok(line)) => if line@.len() == 0 {
            fails_with(
                step,
                IoErrorView {
                    kind: ErrorKind::Other,
                    message: "fs sandbox helper closed stdout without responding"@,
                },
            )
        } else {
            step == ExchangeStep::Decode(line)
        },
        ExchangeReply::Decoded(Ok(Ok(payload))) => step is Done && step->Done_0 is Ok
            && step->Done_0->Ok_0 == payload,
        ExchangeReply::Decoded(Ok(Err(error))) => fails_with(
            step,
            IoErrorView { kind: kind_of_code(error.code), message: error.message@ },
        ),
        ExchangeReply::Decoded(Err(problem)) => fails_with(
            step,
            IoErrorView {
                kind: ErrorKind::Other,
                message: "failed to decode fs sandbox helper message: "@ + problem@,
            },
        ),
        ExchangeReply::Written(Err(error)) => fails_with(step, error@),
        ExchangeReply::Flushed(Err(error)) => fails_with(step, error@),
        ExchangeReply::Line(Err(error)) => fails_with(step, error@),
    }
}

/// Takes a reply into account.
pub fn run_exchange(reply: ExchangeReply) -> (step: ExchangeStep)
    ensures
        follows(step, reply),
{
    match reply {
        ExchangeReply::Written(Ok(())) => ExchangeStep::Continue(ExchangeStage::Flushing),
        ExchangeReply::Flushed(Ok(())) => ExchangeStep::Continue(ExchangeStage::Reading),
        ExchangeReply::Line(Ok(line)) => {
            if line.len() == 0 {
                ExchangeStep::Done(
                    Err(IoError::other("fs sandbox helper closed stdout without responding")),
                )
            } else {
                ExchangeStep::Decode(line)
            }
        },
        ExchangeReply::Decoded(Ok(Ok(payload))) => ExchangeStep::Done(Ok(payload)),
        ExchangeReply::Decoded(Ok(Err(error))) => ExchangeStep::Done(
            Err(map_sandbox_error(error)),
        ),
        ExchangeReply::Decoded(Err(problem)) => {
            let mut message: String = "failed to decode fs sandbox helper message: ".to_owned();
            message.append(problem.as_str());
            ExchangeStep::Done(Err(IoError { kind: ErrorKind::Other, message }))
        },
        ExchangeReply::Written(Err(error)) => ExchangeStep::Done(Err(error)),
        ExchangeReply::Flushed(Err(error)) => ExchangeStep::Done(Err(error)),
        ExchangeReply::Line(Err(error)) => ExchangeStep::Done(Err(error)),
    }
}

/// Whether a helper was started that can be talked to.
pub open spec fn is_usable(spawned: Result<HelperPipes, JSONRPCErrorError>) -> bool {
    spawned matches Ok(pipes) && pipes.has_stdin && pipes.has_stdout
}

/// Whether the event is the first one whose helper can be used.
pub open spec fn is_first_usable(events: Seq<ScopeEvent>, index: int) -> bool {
    &&& 0 <= index < events.len()
    &&& is_usable(events[index].spawned)
    &&& forall|i: int| 0 <= i < index ==> !is_usable((#[trigger] events[i]).spawned)
}

/// The helper of a scope is the first that can be used: every request before it has one started, and
/// without such a helper the scope has none.
pub proof fn law_scope_has_the_first_usable_helper(events: Seq<ScopeEvent>)
    ensures
        match installed_after(events) {
            Some(key) => exists|index: int| #[trigger]
                is_first_usable(events, index) && events[index].key == key,
            None => forall|i: int| 0 <= i < events.len() ==> !is_usable((#[trigger] events[i]).spawned),
        },
    decreases events.len(),
{
    if events.len() > 0 {
        let earlier = events.drop_last();
        law_scope_has_the_first_usable_helper(earlier);
        let last = events.len() - 1;
        match installed_after(earlier) {
            Some(key) => {
                let index = choose|index: int| #[trigger]
                    is_first_usable(earlier, index) && earlier[index].key == key;
                assert forall|i: int| 0 <= i < index implies !is_usable(
                    (#[trigger] events[i]).spawned,
                ) by {
                    assert(earlier[i] == events[i]);
                }
                assert(is_first_usable(events, index));
            },
            None => {
                assert forall|i: int| 0 <= i < last implies !is_usable(
                    (#[trigger] events[i]).spawned,
                ) by {
                    assert(earlier[i] == events[i]);
                }
                if is_usable(events[last].spawned) {
                    assert(is_first_usable(events, last));
                }
            },
        }
    }
}

/// A helper serves only requests of its own filesystem, in a sandbox with the same settings, and
/// those it does serve.
pub proof fn law_helper_serves_its_own_sandbox(helper: ScopedFsHelperKey, key: ScopedFsHelperKey)
    ensures
        route_in_scope(Some(helper), key) is Installed <==> {
            &&& helper.runner_id == key.runner_id
            &&& helper.sandbox.should_run_in_sandbox == key.sandbox.should_run_in_sandbox
            &&& helper.sandbox.settings@ == key.sandbox.settings@
        },
{
}

/// An exchange ends well only with the answer that was decoded, which is handed out as it is. A line
/// is decoded as it was read, and only where there is one. Whatever fails ends the exchange with its
/// own error.
pub proof fn law_exchange_hands_out_what_was_decoded(step: ExchangeStep, reply: ExchangeReply)
    requires
        follows(step, reply),
    ensures
        forall|payload: FsHelperPayload|
            step == ExchangeStep::Done(Ok::<FsHelperPayload, IoError>(payload)) <==> reply
                == ExchangeReply::Decoded(Ok(Ok(payload))),
        step matches ExchangeStep::Decode(bytes) ==> reply == ExchangeReply::Line(Ok(bytes))
            && bytes@.len() > 0,
        step matches ExchangeStep::Continue(stage) ==> match stage {
            ExchangeStage::Flushing => reply matches ExchangeReply::Written(Ok(_)),
            ExchangeStage::Reading => reply matches ExchangeReply::Flushed(Ok(_)),
        },
        match reply {
            ExchangeReply::Written(Ok(_)) => !(step is Done),
            ExchangeReply::Flushed(Ok(_)) => !(step is Done),
            ExchangeReply::Line(Ok(line)) => step is Done <==> line@.len() == 0,
            ExchangeReply::Written(Err(error)) => fails_with(step, error@),
            ExchangeReply::Flushed(Err(error)) => fails_with(step, error@),
            ExchangeReply::Line(Err(error)) => fails_with(step, error@),
            ExchangeReply::Decoded(Ok(Err(error))) => step matches ExchangeStep::Done(Err(failure))
                && failure.message@ == error.message@,
            ExchangeReply::Decoded(_) => step is Done,
        },
{
}

} // verus!
