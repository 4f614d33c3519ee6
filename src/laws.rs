use vstd::prelude::*;
use crate::counter::{CounterName, Counters, ServerSideEvent, note_of};
use crate::stream::{
    Action, StreamEvent, StreamPhase, StreamState, lemma_ends_at_latest, lemma_live_bounded, opened, pushed, run,
    transition,
};

verus! {

/// The store after `n` increments of `name`, one after the other.
pub open spec fn repeat_increment(c: Counters, name: CounterName, n: nat) -> Counters
    decreases n,
{
    if n == 0 {
        c
    } else {
        repeat_increment(c, name, (n - 1) as nat).incremented(name)
    }
}

/// The store after one increment for each name of `names`, in order.
pub open spec fn apply_increments(c: Counters, names: Seq<CounterName>) -> Counters
    decreases names.len(),
{
    if names.len() == 0 {
        c
    } else {
        apply_increments(c, names.drop_last()).incremented(names.last())
    }
}

/// How many times `k` occurs in `names`.
pub open spec fn occurrences(names: Seq<CounterName>, k: CounterName) -> nat
    decreases names.len(),
{
    if names.len() == 0 {
        0
    } else {
        occurrences(names.drop_last(), k) + if names.last() == k { 1nat } else { 0nat }
    }
}

/// No update is lost: however increments of the two counters are ordered
/// (and the store serialises them, so concurrent requests amount to some
/// order), each counter ends at the number of increments it received.
pub proof fn lemma_no_lost_updates(names: Seq<CounterName>)
    requires
        names.len() <= u32::MAX,
    ensures
        forall|k: CounterName| apply_increments(Counters::fresh(), names).value(k) == occurrences(names, k),
    decreases names.len(),
{
    if names.len() > 0 {
        let prev = names.drop_last();
        lemma_no_lost_updates(prev);
        let before = apply_increments(Counters::fresh(), prev);
        assert forall|k: CounterName| apply_increments(Counters::fresh(), names).value(k) == occurrences(names, k) by {
            lemma_occurrences_bounded(prev, k);
            assert(apply_increments(Counters::fresh(), names) == before.incremented(names.last()));
            if names.last() == k {
                assert(before.value(k) < u32::MAX);
            }
        }
    }
}

proof fn lemma_occurrences_bounded(names: Seq<CounterName>, k: CounterName)
    ensures
        occurrences(names, k) <= names.len(),
    decreases names.len(),
{
    if names.len() > 0 {
        lemma_occurrences_bounded(names.drop_last(), k);
    }
}

/// `n` increments of one counter, from a fresh store, take it to `n`.
pub proof fn lemma_repeat_increment_value(name: CounterName, n: nat)
    requires
        n <= u32::MAX,
    ensures
        repeat_increment(Counters::fresh(), name, n).value(name) == n,
{
    lemma_repeat_increment_from(Counters::fresh(), name, n);
}

/// `k` increments of one counter add `k` to it, below the top of the range,
/// and leave the other counter as it was.
pub proof fn lemma_repeat_increment_from(c: Counters, name: CounterName, k: nat)
    requires
        c.value(name) + k <= u32::MAX,
    ensures
        repeat_increment(c, name, k).value(name) == c.value(name) + k,
        forall|other: CounterName| other != name ==> #[trigger] repeat_increment(c, name, k).value(other) == c.value(other),
    decreases k,
{
    if k > 0 {
        lemma_repeat_increment_from(c, name, (k - 1) as nat);
        let before = repeat_increment(c, name, (k - 1) as nat);
        assert forall|other: CounterName| other != name implies #[trigger] repeat_increment(c, name, k).value(other)
            == c.value(other) by {
            assert(before.value(other) == c.value(other));
        }
    }
}

/// The notifications published by `k` increments of `name` from the store
/// `c`, one per increment, in order.
pub open spec fn notes_of_increments(c: Counters, name: CounterName, k: nat) -> Seq<ServerSideEvent>
    decreases k,
{
    if k == 0 {
        Seq::empty()
    } else {
        notes_of_increments(c, name, (k - 1) as nat).push(
            note_of(name, repeat_increment(c, name, k).value(name)),
        )
    }
}

/// `k` increments of a counter that holds `c0`, serialised by the store
/// whatever order the requests came in, publish exactly the values `c0 + 1`
/// to `c0 + k`, one each: no two of them read the same value.
pub proof fn lemma_increments_publish_distinct(c: Counters, name: CounterName, k: nat)
    requires
        c.value(name) + k <= u32::MAX,
    ensures
        notes_of_increments(c, name, k).len() == k,
        forall|i: int| 0 <= i < k ==> #[trigger] notes_of_increments(c, name, k)[i] == note_of(name, (c.value(name) + i + 1) as u32),
    decreases k,
{
    if k > 0 {
        lemma_increments_publish_distinct(c, name, (k - 1) as nat);
        lemma_repeat_increment_from(c, name, k);
        let prev = notes_of_increments(c, name, (k - 1) as nat);
        assert forall|i: int| 0 <= i < k implies #[trigger] notes_of_increments(c, name, k)[i] == note_of(name, (c.value(name) + i + 1) as u32) by {
            if i < k - 1 {
                assert(notes_of_increments(c, name, k)[i] == prev[i]);
            }
        }
    }
}

/// A stream opened on a fresh store, before any increment, pushes zero at
/// once.
pub proof fn lemma_fresh_stream_baseline(name: CounterName)
    ensures
        Counters::fresh().value(name) == 0,
        transition(opened(name), StreamEvent::Baseline(Counters::fresh().value(name))).1 == Action::Push(0),
{
}

/// A stream opened again after an earlier one closed starts from a reading of
/// the store at that moment: its first push is the counter's current value,
/// and nothing of the earlier connection enters it.
pub proof fn lemma_reconnect_baseline(c: Counters, name: CounterName)
    ensures
        transition(opened(name), StreamEvent::Baseline(c.value(name))).1 == Action::Push(c.value(name)),
        transition(opened(name), StreamEvent::Baseline(c.value(name))).0.last == c.value(name),
        transition(opened(name), StreamEvent::Baseline(c.value(name))).0.phase == StreamPhase::Live,
{
}

/// The counters do not touch each other: incrementing `name` leaves `other`
/// as it was, and a stream that follows `other` neither changes nor pushes
/// anything on the notification that the increment publishes.
pub proof fn lemma_counters_independent(
    c: Counters,
    name: CounterName,
    other: CounterName,
    s: StreamState,
)
    requires
        other != name,
        s.counter == other,
    ensures
        c.incremented(name).value(other) == c.value(other),
        transition(s, StreamEvent::Notified(note_of(name, c.incremented(name).value(name)))) == (
        s,
        if s.phase == StreamPhase::Closed { Action::Close } else { Action::Wait },
        ),
{
}

/// `n` increments of a counter, one after another, seen by a stream opened at
/// start: they publish the values one to `n` in order, the stream first
/// pushes zero, and when it stays open and receives
/// any of the published notifications (its own carry the values one to `n`;
/// those in between may have been dropped) ending with the newest, it holds
/// `n` and the last value it pushed is `n`.
pub proof fn lemma_sequential_increments_observed(name: CounterName, n: nat, evs: Seq<StreamEvent>)
    requires
        n <= u32::MAX,
        forall|i: int| 0 <= i < evs.len() ==> !(evs[i] is BusClosed) && !(evs[i] is Disconnected),
        forall|i: int|
            0 <= i < evs.len() && evs[i] is Notified && (#[trigger] evs[i])->Notified_0.name() == name
                ==> evs[i]->Notified_0.value() <= n,
        n > 0 ==> evs.len() > 0 && evs.last() == StreamEvent::Notified(note_of(name, n as u32)),
    ensures
        repeat_increment(Counters::fresh(), name, n).value(name) == n,
        notes_of_increments(Counters::fresh(), name, n).len() == n,
        forall|i: int| 0 <= i < n ==> #[trigger] notes_of_increments(Counters::fresh(), name, n)[i]
            == note_of(name, (i + 1) as u32),
        transition(opened(name), StreamEvent::Baseline(Counters::fresh().value(name))).1 == Action::Push(0),
        run(transition(opened(name), StreamEvent::Baseline(0)).0, evs).last == n,
        n > 0 ==> pushed(transition(opened(name), StreamEvent::Baseline(0)).0, evs).last() == n,
{
    lemma_repeat_increment_value(name, n);
    lemma_increments_publish_distinct(Counters::fresh(), name, n);
    let s0 = transition(opened(name), StreamEvent::Baseline(0)).0;
    if n > 0 {
        lemma_ends_at_latest(s0, evs, n as u32);
    } else {
        lemma_live_bounded(s0, evs, 0);
    }
}

} // verus!
