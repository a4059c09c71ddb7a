//! Deterministic models of three thread choreographies that exercise a
//! runtime's synchronisation primitives: a baton relay over a mutual-exclusion
//! lock, an increment-and-poll protocol over a shared/exclusive lock, and a
//! spurious-wakeup protocol over a condition variable.
//!
//! Every decision a worker or the orchestrator takes while it holds a lock is a
//! function here, and every choreography is also given as a transition system
//! over schedules, so that its guarantees are stated for every interleaving.

pub mod cell;
pub mod error;
pub mod relay;
pub mod threshold;
pub mod timing;
pub mod unwind;
pub mod wakeup;
