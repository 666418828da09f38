//! Orchestration: model invocations and their event streams, job state,
//! budgets, checkpoints and stores, and the decision logic of the pipeline
//! phases.
pub mod claude;
pub mod job;
pub mod pipeline;

use vstd::prelude::*;

verus! {

/// Errors produced by the orchestrator.
#[derive(Debug)]
pub enum OrchestratorError {
    SessionFailed(String),
    SchemaViolation(String),
}

} // verus!
