//! An asynchronous lazy-initialization cell, described as a verified state machine.
//!
//! The cell holds either a pending initializer or the value that the initializer
//! produced. Any number of requesters may ask for the value at once; at most one of
//! them at a time holds the right to advance the initializer (the driver), the
//! others are parked and woken when the value is published. Once the value is
//! published every later request is served from it without arbitration.
//!
//! [`state::OnceState`] decides, for each event, what the cell does next;
//! [`slot::ValueSlot`] holds the published value, readable without a lock. The
//! executor glue that polls the initializer and wakes tasks only carries those
//! decisions out. [`laws`] states the properties that hold of every run.
//!
//! Known limitation: the driver advances the initializer on its own task. An
//! initializer that, directly or through a task that it waits for, awaits its own
//! cell never completes: the inner request is parked until the very initializer
//! that waits for it finishes.
pub mod laws;
pub mod slot;
pub mod state;

pub use slot::ValueSlot;
pub use state::{Action, CellModel, OnceState, Phase};
