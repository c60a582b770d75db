use nanocld::exec::{ExecEvent, ExecInspect, ExecSession};
use nanocld::key::{gen_key, resolve_nsp};

#[test]
fn exec() {
    // a command in the cargo `nstore` of the namespace `system`
    let namespace = resolve_nsp(&Some("system".to_owned()));
    assert_eq!(gen_key(&namespace, "nstore"), "nstore.system");
    // created, started, streamed to its end, then inspected
    let session = ExecSession::new();
    assert_eq!(session.inspect(), ExecInspect { running: false, exit_code: None });
    let session = session.on(ExecEvent::Start);
    assert_eq!(session.inspect(), ExecInspect { running: true, exit_code: None });
    let session = session.on(ExecEvent::Exit { exit_code: 0 }).on(ExecEvent::StreamClosed);
    assert_eq!(session.inspect().exit_code, Some(0), "Expect exit code to be 0");
}

#[test]
fn exec_session_ends_when_its_stream_is_closed() {
    let session = ExecSession::new().on(ExecEvent::Start).on(ExecEvent::StreamClosed);
    assert_eq!(session, ExecSession::Finished { exit_code: None });
    assert_eq!(session.inspect(), ExecInspect { running: false, exit_code: None });
}

#[test]
fn exec_session_that_is_finished_stays_as_it_is() {
    let finished = ExecSession::new().on(ExecEvent::Start).on(ExecEvent::Exit { exit_code: 3 });
    for event in [ExecEvent::Start, ExecEvent::Exit { exit_code: 0 }, ExecEvent::StreamClosed] {
        assert_eq!(finished.on(event), ExecSession::Finished { exit_code: Some(3) });
    }
}

#[test]
fn exec_session_that_was_not_started_cannot_end() {
    assert_eq!(ExecSession::new().on(ExecEvent::Exit { exit_code: 0 }), ExecSession::Created);
    assert_eq!(ExecSession::new().on(ExecEvent::StreamClosed), ExecSession::Created);
    assert_eq!(ExecSession::Running.on(ExecEvent::Start), ExecSession::Running);
}
