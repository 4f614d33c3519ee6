//! A visit counter with live updates: named counters guarded by their owner,
//! notifications fanned out over a broadcast bus, and the per-connection
//! stream protocol that pushes a baseline value and then tails changes.

pub mod counter;
pub mod bus;
pub mod stream;
pub mod laws;
