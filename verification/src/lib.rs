//! Deterministic rollback synchronisation for a two-player fixed-step
//! simulation.
//!
//! Two peers run the same simulation and exchange nothing but per-frame input
//! symbols. Each side steps ahead on a prediction of the other's input and,
//! when a late input contradicts the prediction, restores an earlier snapshot
//! and simulates the frames again.
//!
//! The parts, leaves first:
//!
//! - `input`: the codec between a player's intent and a one-byte symbol;
//! - `arena`, `state`: the simulation state, a plain value;
//! - `checksum`: the fold by which peers compare states;
//! - `step`: the step function, one frame of the simulation;
//! - `snapshot`: copies of the state by frame;
//! - `scheduler`: stepping, prediction and rollback;
//! - `session`: the way from matchmaking to an active session;
//! - `wire`: the bytes of an input message;
//! - `error`: the failures reported to the host.

pub mod arena;
pub mod checksum;
pub mod error;
pub mod input;
pub mod scheduler;
pub mod session;
pub mod snapshot;
pub mod state;
pub mod step;
pub mod wire;
