//! Coordinator side of a two-phase-commit protocol: per-transaction
//! Transaction Manager (coordinator) and Resource Manager (participant)
//! state machines, and the per-node hub that routes inbound protocol
//! messages to those actors, creates them on first reference, and retires
//! them when they report completion.
//!
//! Each actor's behaviour is specified by a pure transition function and
//! every executable entry point is proved to implement it; the protocol
//! laws — agreement and validity of the decision, stability of a fixed
//! decision across restarts, one actor per transaction id, idempotent
//! discard of stray messages — are proved in [`laws`].

pub mod hub;
pub mod laws;
pub mod msg;
pub mod rm;
pub mod tm;
