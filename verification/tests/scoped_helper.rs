use patch_batch::error::{ErrorKind, IoError};
use patch_batch::fs_helper::{FileSystemSandboxContext, FsHelperPayload, JSONRPCErrorError};
use patch_batch::scoped_helper::{
    frame_request, run_exchange, run_sandboxed, ExchangeReply, ExchangeStage, ExchangeStep,
    HelperPipes, HelperRoute, HelperScope, ScopedFsHelperKey,
};

const PIPES: HelperPipes = HelperPipes { has_stdin: true, has_stdout: true };

fn key(runner_id: usize, settings: &str) -> ScopedFsHelperKey {
    ScopedFsHelperKey {
        runner_id,
        sandbox: FileSystemSandboxContext {
            should_run_in_sandbox: true,
            settings: settings.to_string(),
        },
    }
}

#[test]
fn one_apply_patch_reuses_one_filesystem_helper() {
    let mut scope = HelperScope::new();
    let mut helper_starts = 0;
    for _ in 0..5 {
        match run_sandboxed(Some(&scope), &key(1, "workspace-write")) {
            HelperRoute::Start => {
                scope.start(key(1, "workspace-write"), Ok(PIPES)).unwrap();
                helper_starts += 1;
            }
            HelperRoute::Installed => {}
            HelperRoute::OneShot => panic!("the helper is not used"),
        }
    }
    assert_eq!(helper_starts, 1);
    assert!(scope.close().is_some());
    assert!(scope.close().is_none());
}

#[test]
fn another_sandbox_or_filesystem_gets_a_helper_of_its_own() {
    let mut scope = HelperScope::new();
    scope.start(key(1, "a"), Ok(PIPES)).unwrap();
    assert_eq!(run_sandboxed(Some(&scope), &key(1, "a")), HelperRoute::Installed);
    assert_eq!(run_sandboxed(Some(&scope), &key(1, "b")), HelperRoute::OneShot);
    assert_eq!(run_sandboxed(Some(&scope), &key(2, "a")), HelperRoute::OneShot);
    assert_eq!(run_sandboxed(None, &key(1, "a")), HelperRoute::OneShot);
}

#[test]
fn a_helper_that_cannot_be_talked_to_does_not_stay() {
    let mut scope = HelperScope::new();
    let spawn_error = JSONRPCErrorError { code: -32004, message: "no program".to_string() };
    let error = scope.start(key(1, "a"), Err(spawn_error)).unwrap_err();
    assert_eq!((error.kind, error.message.as_str()), (ErrorKind::NotFound, "no program"));
    let error = scope
        .start(key(1, "a"), Ok(HelperPipes { has_stdin: false, has_stdout: false }))
        .unwrap_err();
    assert_eq!(error.message, "failed to open apply_patch fs helper stdin");
    let error = scope
        .start(key(1, "a"), Ok(HelperPipes { has_stdin: true, has_stdout: false }))
        .unwrap_err();
    assert_eq!(error.message, "failed to open apply_patch fs helper stdout");
    assert_eq!(run_sandboxed(Some(&scope), &key(1, "a")), HelperRoute::Start);
}

#[test]
fn a_request_is_one_line() {
    assert_eq!(frame_request(Ok(b"{}".to_vec())).unwrap(), b"{}\n");
    let error = frame_request(Err("too deep".to_string())).unwrap_err();
    assert_eq!(error.kind, ErrorKind::Other);
    assert_eq!(error.message, "failed to encode fs sandbox helper message: too deep");
}

fn failure(step: ExchangeStep) -> (ErrorKind, String) {
    match step {
        ExchangeStep::Done(Err(error)) => (error.kind, error.message),
        other => panic!("expected a failure, got {other:?}"),
    }
}

#[test]
fn an_exchange_goes_through_its_parts() {
    assert!(matches!(
        run_exchange(ExchangeReply::Written(Ok(()))),
        ExchangeStep::Continue(ExchangeStage::Flushing)
    ));
    assert!(matches!(
        run_exchange(ExchangeReply::Flushed(Ok(()))),
        ExchangeStep::Continue(ExchangeStage::Reading)
    ));
    match run_exchange(ExchangeReply::Line(Ok(b"{}\n".to_vec()))) {
        ExchangeStep::Decode(line) => assert_eq!(line, b"{}\n"),
        other => panic!("unexpected step {other:?}"),
    }
    assert!(matches!(
        run_exchange(ExchangeReply::Decoded(Ok(Ok(FsHelperPayload::Remove)))),
        ExchangeStep::Done(Ok(FsHelperPayload::Remove))
    ));
}

#[test]
fn each_part_of_an_exchange_can_fail() {
    let broken = || IoError::other("broken pipe");
    for reply in [
        ExchangeReply::Written(Err(broken())),
        ExchangeReply::Flushed(Err(broken())),
        ExchangeReply::Line(Err(broken())),
    ] {
        assert_eq!(failure(run_exchange(reply)).1, "broken pipe");
    }
    assert_eq!(
        failure(run_exchange(ExchangeReply::Line(Ok(Vec::new())))).1,
        "fs sandbox helper closed stdout without responding"
    );
    assert_eq!(
        failure(run_exchange(ExchangeReply::Decoded(Err("not JSON".to_string())))).1,
        "failed to decode fs sandbox helper message: not JSON"
    );
    let reported = JSONRPCErrorError { code: -32600, message: "bad path".to_string() };
    assert_eq!(
        failure(run_exchange(ExchangeReply::Decoded(Ok(Err(reported))))),
        (ErrorKind::InvalidInput, "bad path".to_string())
    );
}
