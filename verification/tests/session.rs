use tokio_chat::session::{Phase, ReadResult, Request, Session, SessionAction, SessionEvent};

fn s(x: &str) -> String {
    x.to_string()
}

fn joined(name: &str) -> Session {
    let (mut sess, first) = Session::start();
    assert!(matches!(first, SessionAction::Write(ref p) if p == "Username: "));
    assert!(matches!(sess.step(SessionEvent::Written { ok: true }), SessionAction::ReadLine));
    match sess.step(SessionEvent::Read(ReadResult::Line(format!("  {}\n", name)))) {
        SessionAction::Submit(Request::Join { name: n }) => assert_eq!(n, name),
        _ => panic!("expected a join"),
    }
    assert!(matches!(sess.step(SessionEvent::Submitted { ok: true }), SessionAction::Wait));
    assert!(matches!(sess.phase, Phase::Active { .. }));
    sess
}

#[test]
fn handshake_joins_with_trimmed_name() {
    let _ = joined("alice");
}

#[test]
fn end_of_stream_before_name_joins_with_empty_name() {
    let (mut sess, _) = Session::start();
    sess.step(SessionEvent::Written { ok: true });
    match sess.step(SessionEvent::Read(ReadResult::EndOfStream)) {
        SessionAction::Submit(Request::Join { name }) => assert_eq!(name, ""),
        _ => panic!("expected a join"),
    }
}

#[test]
fn failures_before_joining_stop() {
    let (mut sess, _) = Session::start();
    assert!(matches!(sess.step(SessionEvent::Written { ok: false }), SessionAction::Stop));
    assert!(matches!(sess.phase, Phase::Closed));
    let (mut sess, _) = Session::start();
    sess.step(SessionEvent::Written { ok: true });
    assert!(matches!(sess.step(SessionEvent::Read(ReadResult::Failed)), SessionAction::Stop));
    let (mut sess, _) = Session::start();
    sess.step(SessionEvent::Written { ok: true });
    sess.step(SessionEvent::Read(ReadResult::Line(s("bob\n"))));
    assert!(matches!(sess.step(SessionEvent::Submitted { ok: false }), SessionAction::Stop));
}

#[test]
fn quit_sends_leave_then_stops() {
    let mut sess = joined("alice");
    match sess.step(SessionEvent::Read(ReadResult::Line(s(" /quit \n")))) {
        SessionAction::Submit(Request::Leave { name }) => assert_eq!(name, "alice"),
        _ => panic!("expected a leave"),
    }
    assert!(matches!(sess.step(SessionEvent::Submitted { ok: false }), SessionAction::Stop));
    assert!(matches!(sess.phase, Phase::Closed));
    assert!(matches!(sess.step(SessionEvent::Mail(Some(s("x")))), SessionAction::Stop));
}

#[test]
fn said_lines_go_out_whole_and_failure_stops() {
    let mut sess = joined("alice");
    match sess.step(SessionEvent::Read(ReadResult::Line(s("hi all\n")))) {
        SessionAction::Submit(Request::Broadcast { from, line }) => {
            assert_eq!(from, "alice");
            assert_eq!(line, "hi all\n");
        }
        _ => panic!("expected a broadcast"),
    }
    assert!(matches!(sess.step(SessionEvent::Submitted { ok: false }), SessionAction::Stop));
}

#[test]
fn direct_failure_keeps_going() {
    let mut sess = joined("alice");
    match sess.step(SessionEvent::Read(ReadResult::Line(s("/dm bob hey you\n")))) {
        SessionAction::Submit(Request::Direct { from, to, line }) => {
            assert_eq!(from, "alice");
            assert_eq!(to, "bob");
            assert_eq!(line, "hey you");
        }
        _ => panic!("expected a direct message"),
    }
    assert!(matches!(sess.step(SessionEvent::Submitted { ok: false }), SessionAction::Wait));
    assert!(matches!(sess.step(SessionEvent::Read(ReadResult::Line(s("/dm bob\n")))), SessionAction::Wait));
}

#[test]
fn mail_is_written_and_hangups_leave() {
    let mut sess = joined("alice");
    match sess.step(SessionEvent::Mail(Some(s("bob: hi\n")))) {
        SessionAction::Write(t) => assert_eq!(t, "bob: hi\n"),
        _ => panic!("expected a write"),
    }
    assert!(matches!(sess.step(SessionEvent::Written { ok: true }), SessionAction::Wait));
    assert!(matches!(
        sess.step(SessionEvent::Read(ReadResult::EndOfStream)),
        SessionAction::Submit(Request::Leave { .. })
    ));
    let mut sess = joined("bob");
    assert!(matches!(sess.step(SessionEvent::Mail(None)), SessionAction::Submit(Request::Leave { .. })));
    let mut sess = joined("carol");
    assert!(matches!(sess.step(SessionEvent::Read(ReadResult::Failed)), SessionAction::Submit(Request::Leave { .. })));
    let mut sess = joined("dave");
    sess.step(SessionEvent::Mail(Some(s("x"))));
    assert!(matches!(sess.step(SessionEvent::Written { ok: false }), SessionAction::Stop));
}
