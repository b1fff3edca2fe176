use tokio_chat::bench::{scaling_schedule, variants_to_run, Primitive};
use tokio_chat::client::{client_step, ClientAction, ClientEvent};
use tokio_chat::relay::{relay_step, BusReceive, RelayAction, RelayEvent};
use tokio_chat::session::ReadResult;
use tokio_chat::slots::SlotTable;

#[test]
fn primitive_names() {
    assert_eq!(Primitive::Mutex.name(), "mutex");
    assert_eq!(Primitive::RwLock.name(), "rwlock");
    assert_eq!(Primitive::Atomic.name(), "atomic");
}

#[test]
fn schedule_order() {
    let runs = scaling_schedule(2);
    assert_eq!(runs.len(), 42);
    let counts = [1usize, 2, 3, 4, 6, 8, 10];
    let mut k = 0;
    for p in ["mutex", "rwlock", "atomic"] {
        for &n in &counts {
            for t in 0..2 {
                assert_eq!(runs[k].primitive.name(), p);
                assert_eq!(runs[k].threads, n);
                assert_eq!(runs[k].trial, t);
                k += 1;
            }
        }
    }
    assert!(scaling_schedule(0).is_empty());
}

#[test]
fn variant_selection() {
    assert_eq!(variants_to_run(&"both".to_string()), (true, true));
    assert_eq!(variants_to_run(&"mutex".to_string()), (true, false));
    assert_eq!(variants_to_run(&"broadcast".to_string()), (false, true));
    assert_eq!(variants_to_run(&"other".to_string()), (false, false));
}

#[test]
fn slot_table_lifecycle() {
    let mut t: SlotTable<u32> = SlotTable::new();
    assert_eq!(t.register(10), 0);
    assert_eq!(t.register(11), 1);
    assert_eq!(t.register(12), 2);
    assert_eq!(t.live(), vec![0, 1, 2]);
    t.vacate(1);
    t.vacate(99);
    assert_eq!(t.live(), vec![0, 2]);
    assert_eq!(t.len(), 3);
    let w = t.take(2).unwrap();
    assert_eq!(w, 12);
    assert_eq!(t.live(), vec![0]);
    t.put_back(2, w);
    assert_eq!(t.live(), vec![0, 2]);
    assert_eq!(t.take(1), None);
    assert_eq!(t.take(7), None);
    assert_eq!(t.register(13), 3);
    let w = t.take(0).unwrap();
    t.finish_write(0, w, false);
    assert_eq!(t.live(), vec![2, 3]);
    let w = t.take(3).unwrap();
    t.finish_write(3, w, true);
    assert_eq!(t.live(), vec![2, 3]);
}

#[test]
fn relay_decisions() {
    assert!(matches!(relay_step(RelayEvent::Read(ReadResult::Line("hi\n".into()))), RelayAction::Publish(ref l) if l == "hi\n"));
    assert!(matches!(relay_step(RelayEvent::Read(ReadResult::EndOfStream)), RelayAction::Stop));
    assert!(matches!(relay_step(RelayEvent::Read(ReadResult::Failed)), RelayAction::Stop));
    assert!(matches!(relay_step(RelayEvent::Bus(BusReceive::Message("m".into()))), RelayAction::Write(ref l) if l == "m"));
    assert!(matches!(relay_step(RelayEvent::Bus(BusReceive::Lagged)), RelayAction::Wait));
    assert!(matches!(relay_step(RelayEvent::Bus(BusReceive::Closed)), RelayAction::Stop));
    assert!(matches!(relay_step(RelayEvent::Written { ok: true }), RelayAction::Wait));
    assert!(matches!(relay_step(RelayEvent::Written { ok: false }), RelayAction::Stop));
}

#[test]
fn client_decisions() {
    assert!(matches!(client_step(ClientEvent::Typed("hey\n".into())), ClientAction::Send(ref t) if t == "hey\n"));
    assert!(matches!(client_step(ClientEvent::FromServer(ReadResult::Line("x\n".into()))), ClientAction::Show(ref t) if t == "x\n"));
    assert!(matches!(client_step(ClientEvent::FromServer(ReadResult::EndOfStream)), ClientAction::Stop));
    assert!(matches!(client_step(ClientEvent::FromServer(ReadResult::Failed)), ClientAction::Stop));
    assert!(matches!(client_step(ClientEvent::Sent { ok: false }), ClientAction::Stop));
    assert!(matches!(client_step(ClientEvent::Sent { ok: true }), ClientAction::Wait));
}
