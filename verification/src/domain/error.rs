//! Error values of the domain layer.
use vstd::prelude::*;

verus! {

/// Returned when `ScoreWeights` field values violate invariants.
#[derive(Debug, Clone)]
pub struct WeightError(pub String);

/// Returned when structured model output fails schema validation.
#[derive(Debug, Clone)]
pub struct SchemaViolationError(pub String);

/// Returned on persistence failures.
#[derive(Debug, Clone)]
pub struct StoreError(pub String);

/// Returned on orchestrator failures.
#[derive(Debug, Clone)]
pub struct OrchestratorError(pub String);

} // verus!
