use vstd::prelude::*;
use tokio::sync::broadcast::Sender;
use crate::counter::{CounterName, Counters, ServerSideEvent, next_value, note_of};

verus! {

/// The sending side of tokio's broadcast channel, which carries notifications
/// to every open stream.
#[verifier::external_type_specification]
#[verifier::external_body]
#[verifier::reject_recursive_types(T)]
pub struct ExSender<T>(Sender<T>);

/// The event bus: the channel's sending side, and the notifications published
/// on it so far, in order.
pub struct Bus {
    tx: Sender<ServerSideEvent>,
    sent: Ghost<Seq<ServerSideEvent>>,
}

impl Bus {
    /// The notifications published on this bus, oldest first.
    pub closed spec fn published(&self) -> Seq<ServerSideEvent> {
        self.sent@
    }

    /// A bus over the channel `tx`, on which nothing has been published yet.
    pub fn new(tx: Sender<ServerSideEvent>) -> (r: Bus)
        ensures
            r.published() == Seq::<ServerSideEvent>::empty(),
    {
        Bus { tx, sent: Ghost(Seq::empty()) }
    }

    /// The channel's sending side, from which streams subscribe.
    pub fn sender(&self) -> &Sender<ServerSideEvent> {
        &self.tx
    }
}

/// Relies on tokio's `broadcast::Sender::send`: the notification goes to every
/// receiver subscribed at this moment, and the call reports how many there
/// were. With none subscribed tokio hands the value back; here that counts as
/// zero receivers, and the notification is dropped. Either way it has been
/// published once.
#[verifier::external_body]
fn send_on(bus: &mut Bus, note: ServerSideEvent) -> (receivers: usize)
    ensures
        final(bus).published() == old(bus).published().push(note),
{
    match bus.tx.send(note) {
        Ok(n) => n,
        Err(_) => 0,
    }
}

/// Increments the counter `name` and publishes the notification of its new
/// value on `bus`: one increment, then one publish. Publishing never fails: a
/// notification that finds no subscriber is dropped. Returns the notification
/// that was published.
pub fn publish_increment(counters: &mut Counters, bus: &mut Bus, name: CounterName) -> (note: ServerSideEvent)
    ensures
        *final(counters) == old(counters).incremented(name),
        final(counters).value(name) == next_value(old(counters).value(name)),
        note == note_of(name, final(counters).value(name)),
        final(bus).published() == old(bus).published().push(note),
{
    let note = counters.increment(name);
    let _ = send_on(bus, note);
    note
}

/// A visit: one increment of the visit counter and one notification of it.
pub fn home_handler(counters: &mut Counters, bus: &mut Bus) -> (note: ServerSideEvent)
    ensures
        *final(counters) == old(counters).incremented(CounterName::Visita),
        final(counters).visitas == next_value(old(counters).visitas),
        final(counters).cliques == old(counters).cliques,
        note == ServerSideEvent::Visita(final(counters).visitas),
        final(bus).published() == old(bus).published().push(note),
{
    publish_increment(counters, bus, CounterName::Visita)
}

/// A click: one increment of the click counter and one notification of it.
pub fn clique_handler(counters: &mut Counters, bus: &mut Bus) -> (note: ServerSideEvent)
    ensures
        *final(counters) == old(counters).incremented(CounterName::Clique),
        final(counters).cliques == next_value(old(counters).cliques),
        final(counters).visitas == old(counters).visitas,
        note == ServerSideEvent::Clique(final(counters).cliques),
        final(bus).published() == old(bus).published().push(note),
{
    publish_increment(counters, bus, CounterName::Clique)
}

} // verus!
