use vstd::prelude::*;
use crate::counter::{CounterName, ServerSideEvent, note_of};

verus! {

/// Where a streaming connection stands: it waits for its first reading of
/// the counter, then relays notifications until it is closed.
#[derive(Clone, Copy, Debug, PartialEq, Eq, Structural)]
pub enum StreamPhase {
    AwaitingBaseline,
    Live,
    Closed,
}

/// The state of one streaming connection: the counter it follows, its phase,
/// and the last value it pushed to its client.
#[derive(Clone, Copy, Debug, PartialEq, Eq, Structural)]
pub struct StreamState {
    pub counter: CounterName,
    pub phase: StreamPhase,
    pub last: u32,
}

/// What happens to a streaming connection.
#[derive(Clone, Copy, Debug, PartialEq, Eq, Structural)]
pub enum StreamEvent {
    /// The counter was read when the connection opened.
    Baseline(u32),
    /// A notification arrived on the connection's subscription.
    Notified(ServerSideEvent),
    /// The subscription fell behind and older notifications were dropped.
    Lagged,
    /// The bus will deliver nothing more.
    BusClosed,
    /// The client went away.
    Disconnected,
}

/// What the connection does next.
#[derive(Clone, Copy, Debug, PartialEq, Eq, Structural)]
pub enum Action {
    /// Send this value to the client as the next event.
    Push(u32),
    /// Send nothing and wait for the next event.
    Wait,
    /// End the stream and release the subscription.
    Close,
}

/// A connection just opened on the counter `counter`.
pub open spec fn opened(counter: CounterName) -> StreamState {
    StreamState { counter, phase: StreamPhase::AwaitingBaseline, last: 0 }
}

/// One step of the stream protocol. The first reading of the counter is
/// pushed as it is. After that a notification is pushed only when it is about
/// this connection's counter and carries a value above the last one pushed,
/// so a stale value never follows a newer one. A lag changes nothing: the
/// next notification received is the newest. A disconnect or a closed bus
/// ends the stream for good.
pub open spec fn transition(s: StreamState, ev: StreamEvent) -> (StreamState, Action) {
    match s.phase {
        StreamPhase::Closed => (s, Action::Close),
        StreamPhase::AwaitingBaseline => match ev {
            StreamEvent::Baseline(v) => (StreamState { phase: StreamPhase::Live, last: v, ..s }, Action::Push(v)),
            StreamEvent::BusClosed | StreamEvent::Disconnected => (
                StreamState { phase: StreamPhase::Closed, ..s },
                Action::Close,
            ),
            _ => (s, Action::Wait),
        },
        StreamPhase::Live => match ev {
            StreamEvent::Notified(note) => if note.name() == s.counter && note.value() > s.last {
                (StreamState { last: note.value(), ..s }, Action::Push(note.value()))
            } else {
                (s, Action::Wait)
            },
            StreamEvent::BusClosed | StreamEvent::Disconnected => (
                StreamState { phase: StreamPhase::Closed, ..s },
                Action::Close,
            ),
            _ => (s, Action::Wait),
        },
    }
}

/// The state reached from `s` after the events `evs`, in order.
pub open spec fn run(s: StreamState, evs: Seq<StreamEvent>) -> StreamState
    decreases evs.len(),
{
    if evs.len() == 0 {
        s
    } else {
        transition(run(s, evs.drop_last()), evs.last()).0
    }
}

/// The values pushed to the client from `s` on the events `evs`, in order.
pub open spec fn pushed(s: StreamState, evs: Seq<StreamEvent>) -> Seq<u32>
    decreases evs.len(),
{
    if evs.len() == 0 {
        Seq::empty()
    } else {
        let before = pushed(s, evs.drop_last());
        match transition(run(s, evs.drop_last()), evs.last()).1 {
            Action::Push(v) => before.push(v),
            _ => before,
        }
    }
}

impl StreamState {
    /// Opens a stream on the counter `counter`; it waits for its baseline.
    pub fn open(counter: CounterName) -> (r: StreamState)
        ensures
            r == opened(counter),
    {
        StreamState { counter, phase: StreamPhase::AwaitingBaseline, last: 0 }
    }

    /// Takes one event and says what to send.
    pub fn step(&mut self, ev: StreamEvent) -> (a: Action)
        ensures
            (*final(self), a) == transition(*old(self), ev),
    {
        match self.phase {
            StreamPhase::Closed => Action::Close,
            StreamPhase::AwaitingBaseline => match ev {
                StreamEvent::Baseline(v) => {
                    self.phase = StreamPhase::Live;
                    self.last = v;
                    Action::Push(v)
                },
                StreamEvent::BusClosed | StreamEvent::Disconnected => {
                    self.phase = StreamPhase::Closed;
                    Action::Close
                },
                _ => Action::Wait,
            },
            StreamPhase::Live => match ev {
                StreamEvent::Notified(note) => {
                    let v = note.carried();
                    if note.counter() == self.counter && v > self.last {
                        self.last = v;
                        Action::Push(v)
                    } else {
                        Action::Wait
                    }
                },
                StreamEvent::BusClosed | StreamEvent::Disconnected => {
                    self.phase = StreamPhase::Closed;
                    Action::Close
                },
                _ => Action::Wait,
            },
        }
    }
}

/// Whatever events a stream takes, the values it pushes strictly increase: a
/// stale value never follows a newer one and no value is pushed twice. Every
/// value pushed is at most the state's last value, and the last one pushed is
/// that value; with nothing pushed the last value is unchanged. Once live, a stream pushes only values above the one it held.
pub proof fn lemma_pushes_increase(s: StreamState, evs: Seq<StreamEvent>)
    ensures
        forall|i: int, j: int| 0 <= i < j < pushed(s, evs).len() ==> pushed(s, evs)[i] < pushed(s, evs)[j],
        forall|i: int| 0 <= i < pushed(s, evs).len() ==> pushed(s, evs)[i] <= run(s, evs).last,
        pushed(s, evs).len() > 0 ==> pushed(s, evs).last() == run(s, evs).last,
        pushed(s, evs).len() == 0 ==> run(s, evs).last == s.last,
        pushed(s, evs).len() > 0 ==> run(s, evs).phase != StreamPhase::AwaitingBaseline,
        s.phase != StreamPhase::AwaitingBaseline ==> run(s, evs).phase != StreamPhase::AwaitingBaseline,
        s.phase != StreamPhase::AwaitingBaseline ==> run(s, evs).last >= s.last,
        s.phase != StreamPhase::AwaitingBaseline ==> forall|i: int|
            0 <= i < pushed(s, evs).len() ==> pushed(s, evs)[i] > s.last,
    decreases evs.len(),
{
    if evs.len() > 0 {
        let prev = evs.drop_last();
        lemma_pushes_increase(s, prev);
        let mid = run(s, prev);
        let before = pushed(s, prev);
        let after = pushed(s, evs);
        match transition(mid, evs.last()).1 {
            Action::Push(v) => {
                assert(after == before.push(v));
                assert(forall|i: int| 0 <= i < before.len() ==> after[i] == before[i]);
                if mid.phase == StreamPhase::AwaitingBaseline {
                    assert(before.len() == 0);
                }
            },
            _ => {
                assert(after == before);
            },
        }
    }
}

/// A live stream that stays open, and whose notifications for its counter
/// carry no value above `t`, keeps a last value between the one it had and
/// `t`.
pub proof fn lemma_live_bounded(s: StreamState, evs: Seq<StreamEvent>, t: u32)
    requires
        s.phase == StreamPhase::Live,
        s.last <= t,
        forall|i: int| 0 <= i < evs.len() ==> !(evs[i] is BusClosed) && !(evs[i] is Disconnected),
        forall|i: int|
            0 <= i < evs.len() && evs[i] is Notified && (#[trigger] evs[i])->Notified_0.name() == s.counter
                ==> evs[i]->Notified_0.value() <= t,
    ensures
        run(s, evs).phase == StreamPhase::Live,
        run(s, evs).counter == s.counter,
        s.last <= run(s, evs).last <= t,
    decreases evs.len(),
{
    if evs.len() > 0 {
        let prev = evs.drop_last();
        assert(forall|i: int| 0 <= i < prev.len() ==> prev[i] == evs[i]);
        lemma_live_bounded(s, prev, t);
        assert(evs.last() == evs[evs.len() - 1]);
    }
}

/// A live stream that stays open, sees no notification for its counter above
/// `t`, and last receives the notification of `t` itself, ends holding `t`:
/// dropped intermediate values do not keep it from the latest one. When it
/// held less than `t`, `t` is the last value it pushed.
pub proof fn lemma_ends_at_latest(s: StreamState, evs: Seq<StreamEvent>, t: u32)
    requires
        s.phase == StreamPhase::Live,
        s.last <= t,
        evs.len() > 0,
        evs.last() == StreamEvent::Notified(note_of(s.counter, t)),
        forall|i: int| 0 <= i < evs.len() ==> !(evs[i] is BusClosed) && !(evs[i] is Disconnected),
        forall|i: int|
            0 <= i < evs.len() && evs[i] is Notified && (#[trigger] evs[i])->Notified_0.name() == s.counter
                ==> evs[i]->Notified_0.value() <= t,
    ensures
        run(s, evs).phase == StreamPhase::Live,
        run(s, evs).last == t,
        s.last < t ==> pushed(s, evs).len() > 0 && pushed(s, evs).last() == t,
{
    let prev = evs.drop_last();
    assert(forall|i: int| 0 <= i < prev.len() ==> prev[i] == evs[i]);
    lemma_live_bounded(s, prev, t);
    lemma_pushes_increase(s, evs);
    let mid = run(s, prev);
    let note = note_of(s.counter, t);
    assert(note.name() == s.counter && note.value() == t);
    if mid.last < t {
        assert(transition(mid, evs.last()).1 == Action::Push(t));
    }
}

/// The events `evs` without the notifications about counters other than
/// `counter`.
pub open spec fn own_events(evs: Seq<StreamEvent>, counter: CounterName) -> Seq<StreamEvent>
    decreases evs.len(),
{
    if evs.len() == 0 {
        evs
    } else if evs.last() is Notified && evs.last()->Notified_0.name() != counter {
        own_events(evs.drop_last(), counter)
    } else {
        own_events(evs.drop_last(), counter).push(evs.last())
    }
}

/// Notifications about another counter play no part in a stream: two runs
/// whose events differ only in them reach the same state and push the same
/// values.
pub proof fn lemma_other_counter_ignored(s: StreamState, evs: Seq<StreamEvent>)
    ensures
        run(s, own_events(evs, s.counter)) == run(s, evs),
        pushed(s, own_events(evs, s.counter)) == pushed(s, evs),
    decreases evs.len(),
{
    if evs.len() > 0 {
        let prev = evs.drop_last();
        lemma_other_counter_ignored(s, prev);
        lemma_run_keeps_counter(s, prev);
        let own = own_events(evs, s.counter);
        if !(evs.last() is Notified && evs.last()->Notified_0.name() != s.counter) {
            assert(own.drop_last() == own_events(prev, s.counter));
            assert(own.last() == evs.last());
        }
    }
}

/// A stream follows the same counter whatever happens to it.
pub proof fn lemma_run_keeps_counter(s: StreamState, evs: Seq<StreamEvent>)
    ensures
        run(s, evs).counter == s.counter,
    decreases evs.len(),
{
    if evs.len() > 0 {
        lemma_run_keeps_counter(s, evs.drop_last());
    }
}

} // verus!
