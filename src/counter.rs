use vstd::prelude::*;

verus! {

/// The two counters that the service keeps.
#[derive(Clone, Copy, Debug, PartialEq, Eq, Structural)]
pub enum CounterName {
    Visita,
    Clique,
}

/// A notification that a counter changed, with the value it reached.
#[derive(Clone, Copy, Debug, PartialEq, Eq, Structural)]
pub enum ServerSideEvent {
    Visita(u32),
    Clique(u32),
}

/// The value that follows `v`: one more, held at the top of the range.
pub open spec fn next_value(v: u32) -> u32 {
    if v < u32::MAX {
        (v + 1) as u32
    } else {
        v
    }
}

/// The notification that announces `value` for the counter `name`.
pub open spec fn note_of(name: CounterName, value: u32) -> ServerSideEvent {
    match name {
        CounterName::Visita => ServerSideEvent::Visita(value),
        CounterName::Clique => ServerSideEvent::Clique(value),
    }
}

impl ServerSideEvent {
    /// The counter this notification is about.
    pub open spec fn name(self) -> CounterName {
        match self {
            ServerSideEvent::Visita(_) => CounterName::Visita,
            ServerSideEvent::Clique(_) => CounterName::Clique,
        }
    }

    /// The value carried by this notification.
    pub open spec fn value(self) -> u32 {
        match self {
            ServerSideEvent::Visita(v) => v,
            ServerSideEvent::Clique(v) => v,
        }
    }

    /// The counter this notification is about.
    pub fn counter(&self) -> (r: CounterName)
        ensures
            r == self.name(),
    {
        match self {
            ServerSideEvent::Visita(_) => CounterName::Visita,
            ServerSideEvent::Clique(_) => CounterName::Clique,
        }
    }

    /// The value carried by this notification.
    pub fn carried(&self) -> (r: u32)
        ensures
            r == self.value(),
    {
        match self {
            ServerSideEvent::Visita(v) => *v,
            ServerSideEvent::Clique(v) => *v,
        }
    }
}

/// The counter store: one unsigned value per counter, starting at zero.
/// Values only grow; an increment at the top of the range leaves the value
/// where it is.
#[derive(Clone, Copy, Debug, PartialEq, Eq, Structural)]
pub struct Counters {
    pub visitas: u32,
    pub cliques: u32,
}

impl Counters {
    /// A store in which every counter is zero.
    pub open spec fn fresh() -> Counters {
        Counters { visitas: 0, cliques: 0 }
    }

    /// The value of the counter `name`.
    pub open spec fn value(self, name: CounterName) -> u32 {
        match name {
            CounterName::Visita => self.visitas,
            CounterName::Clique => self.cliques,
        }
    }

    /// The store after one increment of `name`: that counter moves to its
    /// next value, the other is left as it was.
    pub open spec fn incremented(self, name: CounterName) -> Counters {
        match name {
            CounterName::Visita => Counters { visitas: next_value(self.visitas), ..self },
            CounterName::Clique => Counters { cliques: next_value(self.cliques), ..self },
        }
    }

    /// Creates the store, every counter at zero.
    pub fn new() -> (r: Counters)
        ensures
            r == Counters::fresh(),
            r.value(CounterName::Visita) == 0,
            r.value(CounterName::Clique) == 0,
    {
        Counters { visitas: 0, cliques: 0 }
    }

    /// The current value of the counter `name`.
    pub fn read(&self, name: CounterName) -> (r: u32)
        ensures
            r == self.value(name),
    {
        match name {
            CounterName::Visita => self.visitas,
            CounterName::Clique => self.cliques,
        }
    }

    /// Adds one to the counter `name` and returns the notification that
    /// announces its new value. The other counter is not touched.
    pub fn increment(&mut self, name: CounterName) -> (note: ServerSideEvent)
        ensures
            *final(self) == old(self).incremented(name),
            final(self).value(name) == next_value(old(self).value(name)),
            forall|other: CounterName| other != name ==> final(self).value(other) == old(self).value(other),
            old(self).value(name) < u32::MAX ==> final(self).value(name) == old(self).value(name) + 1,
            final(self).value(name) >= old(self).value(name),
            note == note_of(name, final(self).value(name)),
    {
        match name {
            CounterName::Visita => {
                if self.visitas < u32::MAX {
                    self.visitas = self.visitas + 1;
                }
                ServerSideEvent::Visita(self.visitas)
            },
            CounterName::Clique => {
                if self.cliques < u32::MAX {
                    self.cliques = self.cliques + 1;
                }
                ServerSideEvent::Clique(self.cliques)
            },
        }
    }
}

} // verus!
