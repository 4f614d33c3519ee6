use std::sync::{Arc, Mutex};

use tokio::sync::broadcast::{self, error::TryRecvError};
use visit_counter::bus::{Bus, clique_handler, home_handler, publish_increment};
use visit_counter::counter::{CounterName, Counters, ServerSideEvent};
use visit_counter::stream::{Action, StreamEvent, StreamPhase, StreamState};

/// Feeds a stream everything waiting on its subscription, and returns what it
/// pushed.
fn drain(stream: &mut StreamState, rx: &mut broadcast::Receiver<ServerSideEvent>) -> Vec<u32> {
    let mut out = Vec::new();
    loop {
        let ev = match rx.try_recv() {
            Ok(note) => StreamEvent::Notified(note),
            Err(TryRecvError::Lagged(_)) => StreamEvent::Lagged,
            Err(TryRecvError::Empty) => break,
            Err(TryRecvError::Closed) => StreamEvent::BusClosed,
        };
        match stream.step(ev) {
            Action::Push(v) => out.push(v),
            Action::Wait => {}
            Action::Close => break,
        }
    }
    out
}

fn connect(
    counters: &Counters,
    name: CounterName,
    bus: &Bus,
) -> (StreamState, broadcast::Receiver<ServerSideEvent>, Action) {
    let rx = bus.sender().subscribe();
    let mut stream = StreamState::open(name);
    let first = stream.step(StreamEvent::Baseline(counters.read(name)));
    (stream, rx, first)
}

#[test]
fn new_store_starts_at_zero() {
    let c = Counters::new();
    assert_eq!(c.read(CounterName::Visita), 0);
    assert_eq!(c.read(CounterName::Clique), 0);
}

#[test]
fn increment_returns_new_value_note() {
    let mut c = Counters::new();
    assert_eq!(c.increment(CounterName::Visita), ServerSideEvent::Visita(1));
    assert_eq!(c.increment(CounterName::Visita), ServerSideEvent::Visita(2));
    assert_eq!(c.increment(CounterName::Clique), ServerSideEvent::Clique(1));
    assert_eq!(c.read(CounterName::Visita), 2);
    assert_eq!(c.read(CounterName::Clique), 1);
}

#[test]
fn increment_holds_at_top_of_range() {
    let mut c = Counters { visitas: u32::MAX, cliques: 7 };
    assert_eq!(c.increment(CounterName::Visita), ServerSideEvent::Visita(u32::MAX));
    assert_eq!(c.read(CounterName::Visita), u32::MAX);
    assert_eq!(c.read(CounterName::Clique), 7);
}

#[test]
fn publish_reaches_subscriber() {
    let (tx, mut rx) = broadcast::channel(1);
    let mut bus = Bus::new(tx);
    let mut c = Counters::new();
    let note = home_handler(&mut c, &mut bus);
    assert_eq!(note, ServerSideEvent::Visita(1));
    assert_eq!(rx.try_recv().unwrap(), ServerSideEvent::Visita(1));
    let note = clique_handler(&mut c, &mut bus);
    assert_eq!(note, ServerSideEvent::Clique(1));
    assert_eq!(rx.try_recv().unwrap(), ServerSideEvent::Clique(1));
}

#[test]
fn publish_without_subscribers_still_increments() {
    let (tx, rx) = broadcast::channel::<ServerSideEvent>(1);
    drop(rx);
    let mut bus = Bus::new(tx);
    let mut c = Counters::new();
    assert_eq!(publish_increment(&mut c, &mut bus, CounterName::Clique), ServerSideEvent::Clique(1));
    assert_eq!(c.read(CounterName::Clique), 1);
}

#[test]
fn sequential_increments_end_at_count() {
    let (tx, _keep) = broadcast::channel(1);
    let mut bus = Bus::new(tx);
    let mut c = Counters::new();
    let (mut stream, mut rx, first) = connect(&c, CounterName::Visita, &bus);
    assert_eq!(first, Action::Push(0));
    let mut seen = vec![0];
    for _ in 0..25 {
        home_handler(&mut c, &mut bus);
        seen.extend(drain(&mut stream, &mut rx));
    }
    assert_eq!(seen.len(), 26);
    assert_eq!(*seen.last().unwrap(), 25);
    assert_eq!(stream.last, 25);
}

#[test]
fn fresh_stream_pushes_zero_first() {
    let c = Counters::new();
    let mut s = StreamState::open(CounterName::Clique);
    assert_eq!(s.phase, StreamPhase::AwaitingBaseline);
    assert_eq!(s.step(StreamEvent::Baseline(c.read(CounterName::Clique))), Action::Push(0));
    assert_eq!(s.phase, StreamPhase::Live);
}

#[test]
fn reconnect_pushes_current_value() {
    let (tx, _keep) = broadcast::channel(1);
    let mut bus = Bus::new(tx);
    let mut c = Counters::new();
    let (mut old, mut old_rx, _) = connect(&c, CounterName::Visita, &bus);
    home_handler(&mut c, &mut bus);
    assert_eq!(drain(&mut old, &mut old_rx), vec![1]);
    assert_eq!(old.step(StreamEvent::Disconnected), Action::Close);
    drop(old_rx);
    home_handler(&mut c, &mut bus);
    home_handler(&mut c, &mut bus);
    let (again, _rx, first) = connect(&c, CounterName::Visita, &bus);
    assert_eq!(first, Action::Push(3));
    assert_eq!(again.last, 3);
}

#[test]
fn counters_do_not_cross() {
    let (tx, _keep) = broadcast::channel(1);
    let mut bus = Bus::new(tx);
    let mut c = Counters::new();
    let (mut visits, mut vrx, _) = connect(&c, CounterName::Visita, &bus);
    let (mut clicks, mut crx, _) = connect(&c, CounterName::Clique, &bus);
    clique_handler(&mut c, &mut bus);
    assert_eq!(c.read(CounterName::Visita), 0);
    assert_eq!(drain(&mut visits, &mut vrx), Vec::<u32>::new());
    assert_eq!(drain(&mut clicks, &mut crx), vec![1]);
    home_handler(&mut c, &mut bus);
    assert_eq!(c.read(CounterName::Clique), 1);
    assert_eq!(drain(&mut clicks, &mut crx), Vec::<u32>::new());
    assert_eq!(drain(&mut visits, &mut vrx), vec![1]);
}

#[test]
fn concurrent_increments_lose_nothing() {
    let rt = tokio::runtime::Builder::new_multi_thread().worker_threads(4).build().unwrap();
    let (tx, _keep) = broadcast::channel(1);
    let store = Arc::new(Mutex::new((Counters::new(), Bus::new(tx))));
    let mut handles = Vec::new();
    for _ in 0..100 {
        let store = store.clone();
        handles.push(rt.spawn(async move {
            let mut guard = store.lock().unwrap();
            let (counters, bus) = &mut *guard;
            home_handler(counters, bus).carried()
        }));
    }
    let mut values = Vec::new();
    for h in handles {
        values.push(rt.block_on(h).unwrap());
    }
    values.sort();
    assert_eq!(values, (1..=100).collect::<Vec<u32>>());
    let guard = store.lock().unwrap();
    assert_eq!(guard.0.read(CounterName::Visita), 100);
    assert_eq!(guard.0.read(CounterName::Clique), 0);
}

#[test]
fn slow_consumer_ends_at_latest() {
    let (tx, _keep) = broadcast::channel(1);
    let mut bus = Bus::new(tx);
    let mut c = Counters::new();
    let (mut stream, mut rx, first) = connect(&c, CounterName::Visita, &bus);
    assert_eq!(first, Action::Push(0));
    for _ in 0..50 {
        home_handler(&mut c, &mut bus);
    }
    let seen = drain(&mut stream, &mut rx);
    assert_eq!(seen, vec![50]);
    for _ in 0..3 {
        home_handler(&mut c, &mut bus);
    }
    let more = drain(&mut stream, &mut rx);
    assert_eq!(more, vec![53]);
}

#[test]
fn stale_notification_is_not_pushed() {
    let mut s = StreamState::open(CounterName::Visita);
    assert_eq!(s.step(StreamEvent::Baseline(5)), Action::Push(5));
    assert_eq!(s.step(StreamEvent::Notified(ServerSideEvent::Visita(4))), Action::Wait);
    assert_eq!(s.step(StreamEvent::Notified(ServerSideEvent::Visita(5))), Action::Wait);
    assert_eq!(s.step(StreamEvent::Lagged), Action::Wait);
    assert_eq!(s.step(StreamEvent::Notified(ServerSideEvent::Visita(6))), Action::Push(6));
    assert_eq!(s.last, 6);
}

#[test]
fn waiting_stream_ignores_notifications() {
    let mut s = StreamState::open(CounterName::Visita);
    assert_eq!(s.step(StreamEvent::Notified(ServerSideEvent::Visita(3))), Action::Wait);
    assert_eq!(s.phase, StreamPhase::AwaitingBaseline);
    assert_eq!(s.step(StreamEvent::Baseline(3)), Action::Push(3));
}

#[test]
fn closed_stream_stays_closed() {
    let mut s = StreamState::open(CounterName::Clique);
    assert_eq!(s.step(StreamEvent::Baseline(1)), Action::Push(1));
    assert_eq!(s.step(StreamEvent::BusClosed), Action::Close);
    assert_eq!(s.phase, StreamPhase::Closed);
    assert_eq!(s.step(StreamEvent::Notified(ServerSideEvent::Clique(9))), Action::Close);
    assert_eq!(s.step(StreamEvent::Baseline(9)), Action::Close);
    assert_eq!(s.last, 1);
}

#[test]
fn two_visits_then_stream_then_one_more() {
    let (tx, _keep) = broadcast::channel(1);
    let mut bus = Bus::new(tx);
    let mut c = Counters::new();
    home_handler(&mut c, &mut bus);
    home_handler(&mut c, &mut bus);
    let (mut stream, mut rx, first) = connect(&c, CounterName::Visita, &bus);
    assert_eq!(first, Action::Push(2));
    home_handler(&mut c, &mut bus);
    assert_eq!(drain(&mut stream, &mut rx), vec![3]);
}

#[test]
fn visit_notes_leave_click_stream_alone() {
    let clicks = [
        StreamEvent::Baseline(0),
        StreamEvent::Notified(ServerSideEvent::Clique(1)),
        StreamEvent::Notified(ServerSideEvent::Clique(2)),
    ];
    let mixed = [
        StreamEvent::Baseline(0),
        StreamEvent::Notified(ServerSideEvent::Visita(1)),
        StreamEvent::Notified(ServerSideEvent::Clique(1)),
        StreamEvent::Notified(ServerSideEvent::Visita(2)),
        StreamEvent::Notified(ServerSideEvent::Visita(3)),
        StreamEvent::Notified(ServerSideEvent::Clique(2)),
    ];
    let mut a = StreamState::open(CounterName::Clique);
    let mut b = StreamState::open(CounterName::Clique);
    let pa: Vec<Action> = clicks.iter().map(|e| a.step(*e)).filter(|x| *x != Action::Wait).collect();
    let pb: Vec<Action> = mixed.iter().map(|e| b.step(*e)).filter(|x| *x != Action::Wait).collect();
    assert_eq!(pa, vec![Action::Push(0), Action::Push(1), Action::Push(2)]);
    assert_eq!(pa, pb);
    assert_eq!(a, b);
}
