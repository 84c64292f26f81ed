//! A verified discrete-event core for a single-server queue: one arrival stream, one
//! first-come-first-served queue, one server.
//!
//! Simulated time is counted in whole ticks, so every quantity here is an integer and
//! every contract is exact. The core draws no random numbers: its caller hands each
//! handler the durations it may need.
//!
//! - [`event`]: an instant and a kind, arrival or departure.
//! - [`engine`]: the scheduler, one slot per kind of event, with the clock.
//! - [`entities`]: the server with its queue, and the client that generates arrivals.
//! - [`statistics`]: the accumulator of time-weighted areas and per-customer totals.
//! - [`curves`]: the step curves of a script of reports, and the proof that the
//!   accumulator's areas are their integrals.
//! - [`system`]: scheduler, server and accumulator as one value, the steps of the entities
//!   on it, and the invariants of a run with their proofs.
//! - [`driver`]: what the loop around the core decides, turn by turn.
//! - [`time_series`]: periodic samples of the live statistics.
//!
//! A turn of a run is `SimulationEngine::run_step` followed by `driver::dispatch` of the
//! event that it returned.

pub mod curves;
pub mod driver;
pub mod engine;
pub mod entities;
pub mod event;
pub mod statistics;
pub mod system;
pub mod time_series;
