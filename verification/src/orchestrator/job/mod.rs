//! Durable job state, token budgeting, checkpoints, stores and phase gates.
pub mod budget;
pub mod checkpoint;
pub mod gates;
pub mod keyed;
pub mod state;
pub mod store;

use vstd::prelude::*;

verus! {

/// Errors produced by job stores.
#[derive(Debug)]
pub enum StoreError {
    Lock,
    Backend(String),
}

} // verus!
