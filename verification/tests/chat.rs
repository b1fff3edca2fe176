use tokio::sync::mpsc;
use tokio_chat::command::{classify_line, ChatLine};
use tokio_chat::mailbox::{Mailbox, SendOutcome};
use tokio_chat::router::{render, Delivery, Router, RouterCommand};

fn s(x: &str) -> String {
    x.to_string()
}

fn names(report: &[Delivery]) -> Vec<String> {
    let mut v: Vec<String> = report.iter().map(|d| d.to.clone()).collect();
    v.sort();
    v
}

#[test]
fn classifies_lines() {
    assert!(matches!(classify_line("/quit\n"), ChatLine::Quit));
    assert!(matches!(classify_line("   /quit  \r\n"), ChatLine::Quit));
    assert!(matches!(classify_line("/quit now\n"), ChatLine::Say));
    match classify_line("/dm bob hello there\n") {
        ChatLine::Direct { to, text } => {
            assert_eq!(to, "bob");
            assert_eq!(text, "hello there");
        }
        _ => panic!("expected a direct message"),
    }
    match classify_line("/dm  x\n") {
        ChatLine::Direct { to, text } => {
            assert_eq!(to, "");
            assert_eq!(text, "x");
        }
        _ => panic!("expected a direct message"),
    }
    assert!(matches!(classify_line("/dm bob\n"), ChatLine::Malformed));
    assert!(matches!(classify_line("/dm\n"), ChatLine::Say));
    assert!(matches!(classify_line("hello\n"), ChatLine::Say));
    assert!(matches!(classify_line(""), ChatLine::Say));
}

#[test]
fn renders_chat_text() {
    assert_eq!(render(&s("alice"), &s("hi\n")), "alice: hi\n\n");
    assert_eq!(render(&s("bob"), &s("yo")), "bob: yo\n");
}

#[test]
fn broadcast_reaches_everyone_but_the_sender() {
    let mut r = Router::new();
    let (ta, mut ra) = mpsc::channel::<String>(4);
    let (tb, mut rb) = mpsc::channel::<String>(4);
    let (tc, mut rc) = mpsc::channel::<String>(4);
    r.handle(RouterCommand::Join { name: s("alice"), mailbox: Mailbox::new(ta) });
    r.handle(RouterCommand::Join { name: s("bob"), mailbox: Mailbox::new(tb) });
    r.handle(RouterCommand::Join { name: s("carol"), mailbox: Mailbox::new(tc) });
    assert_eq!(r.len(), 3);
    let report = r.handle(RouterCommand::Broadcast { from: s("alice"), line: s("hi\n") });
    assert_eq!(names(&report), vec![s("bob"), s("carol")]);
    for d in &report {
        assert!(matches!(d.outcome, SendOutcome::Delivered));
    }
    assert!(ra.try_recv().is_err());
    assert_eq!(rb.try_recv().unwrap(), "alice: hi\n\n");
    assert_eq!(rc.try_recv().unwrap(), "alice: hi\n\n");
}

#[test]
fn direct_reaches_only_the_addressee() {
    let mut r = Router::new();
    let (ta, mut ra) = mpsc::channel::<String>(4);
    let (tb, mut rb) = mpsc::channel::<String>(4);
    r.handle(RouterCommand::Join { name: s("alice"), mailbox: Mailbox::new(ta) });
    r.handle(RouterCommand::Join { name: s("bob"), mailbox: Mailbox::new(tb) });
    let report = r.handle(RouterCommand::Direct { from: s("alice"), to: s("bob"), line: s("psst") });
    assert_eq!(names(&report), vec![s("bob")]);
    assert_eq!(rb.try_recv().unwrap(), "alice: psst\n");
    assert!(ra.try_recv().is_err());
    let none = r.handle(RouterCommand::Direct { from: s("alice"), to: s("zed"), line: s("x") });
    assert!(none.is_empty());
    let own = r.handle(RouterCommand::Direct { from: s("alice"), to: s("alice"), line: s("me") });
    assert_eq!(names(&own), vec![s("alice")]);
    assert_eq!(ra.try_recv().unwrap(), "alice: me\n");
}

#[test]
fn join_then_leave_restores_membership() {
    let mut r = Router::new();
    let (ta, _ra) = mpsc::channel::<String>(4);
    let (tb, mut rb) = mpsc::channel::<String>(4);
    r.handle(RouterCommand::Join { name: s("alice"), mailbox: Mailbox::new(ta) });
    r.handle(RouterCommand::Join { name: s("bob"), mailbox: Mailbox::new(tb) });
    r.handle(RouterCommand::Leave { name: s("bob") });
    assert_eq!(r.len(), 1);
    assert!(r.contains(&s("alice")));
    assert!(!r.contains(&s("bob")));
    let report = r.handle(RouterCommand::Broadcast { from: s("alice"), line: s("x") });
    assert!(report.is_empty());
    assert!(rb.try_recv().is_err());
    r.handle(RouterCommand::Leave { name: s("nobody") });
    assert_eq!(r.len(), 1);
}

#[test]
fn rejoin_replaces_mailbox() {
    let mut r = Router::new();
    let (t1, mut r1) = mpsc::channel::<String>(4);
    let (t2, mut r2) = mpsc::channel::<String>(4);
    let (tz, _rz) = mpsc::channel::<String>(4);
    r.handle(RouterCommand::Join { name: s("bob"), mailbox: Mailbox::new(t1) });
    r.handle(RouterCommand::Join { name: s("bob"), mailbox: Mailbox::new(t2) });
    r.handle(RouterCommand::Join { name: s("zed"), mailbox: Mailbox::new(tz) });
    assert_eq!(r.len(), 2);
    r.handle(RouterCommand::Broadcast { from: s("zed"), line: s("hey") });
    assert!(r1.try_recv().is_err());
    assert_eq!(r2.try_recv().unwrap(), "zed: hey\n");
}

#[test]
fn full_and_closed_mailboxes_are_reported() {
    let mut r = Router::new();
    let (tf, _rf) = mpsc::channel::<String>(1);
    let (tc, rc) = mpsc::channel::<String>(1);
    let (tz, _rz) = mpsc::channel::<String>(1);
    drop(rc);
    r.handle(RouterCommand::Join { name: s("full"), mailbox: Mailbox::new(tf) });
    r.handle(RouterCommand::Join { name: s("closed"), mailbox: Mailbox::new(tc) });
    r.handle(RouterCommand::Join { name: s("zed"), mailbox: Mailbox::new(tz) });
    r.handle(RouterCommand::Direct { from: s("zed"), to: s("full"), line: s("1") });
    let report = r.handle(RouterCommand::Broadcast { from: s("zed"), line: s("2") });
    for d in &report {
        match d.to.as_str() {
            "full" => assert!(matches!(d.outcome, SendOutcome::Full)),
            "closed" => assert!(matches!(d.outcome, SendOutcome::Closed)),
            other => panic!("unexpected recipient {}", other),
        }
    }
    assert_eq!(report.len(), 2);
}

#[test]
fn a_full_mailbox_does_not_stop_the_others() {
    let mut r = Router::new();
    let (tf, mut rf) = mpsc::channel::<String>(1);
    let (tb, mut rb) = mpsc::channel::<String>(4);
    let (tz, _rz) = mpsc::channel::<String>(4);
    r.handle(RouterCommand::Join { name: s("full"), mailbox: Mailbox::new(tf) });
    r.handle(RouterCommand::Join { name: s("bob"), mailbox: Mailbox::new(tb) });
    r.handle(RouterCommand::Join { name: s("zed"), mailbox: Mailbox::new(tz) });
    r.handle(RouterCommand::Direct { from: s("zed"), to: s("full"), line: s("1") });
    r.handle(RouterCommand::Broadcast { from: s("zed"), line: s("2") });
    assert_eq!(rf.try_recv().unwrap(), "zed: 1\n");
    assert!(rf.try_recv().is_err());
    assert_eq!(rb.try_recv().unwrap(), "zed: 2\n");
    assert!(rb.try_recv().is_err());
}

#[test]
fn nothing_reaches_a_member_after_it_leaves() {
    let mut r = Router::new();
    let (ta, mut ra) = mpsc::channel::<String>(4);
    let (tb, mut rb) = mpsc::channel::<String>(4);
    r.handle(RouterCommand::Join { name: s("a"), mailbox: Mailbox::new(ta) });
    r.handle(RouterCommand::Join { name: s("b"), mailbox: Mailbox::new(tb) });
    r.handle(RouterCommand::Leave { name: s("b") });
    let all = r.handle(RouterCommand::Broadcast { from: s("a"), line: s("hi") });
    let one = r.handle(RouterCommand::Direct { from: s("a"), to: s("b"), line: s("x") });
    assert!(all.is_empty());
    assert!(one.is_empty());
    assert!(ra.try_recv().is_err());
    assert!(rb.try_recv().is_err());
}

#[test]
fn mailbox_send_reports_its_outcome() {
    let (tx, mut rx) = mpsc::channel::<String>(1);
    let mut m = Mailbox::new(tx);
    assert!(matches!(m.try_send(s("one")), SendOutcome::Delivered));
    assert!(matches!(m.try_send(s("two")), SendOutcome::Full));
    assert_eq!(rx.try_recv().unwrap(), "one");
    drop(rx);
    assert!(matches!(m.try_send(s("three")), SendOutcome::Closed));
}
