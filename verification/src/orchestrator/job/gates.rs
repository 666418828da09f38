//! Phase-gate preconditions enforced between pipeline phases.
use vstd::prelude::*;

use super::state::{all_assessed, AssessmentJob, PhaseKind};

verus! {

/// Error raised when a phase-gate precondition is not met.
#[derive(Debug)]
pub enum PhaseGateError {
    Precondition(String),
}

/// Whether the job may leave `from_phase`: leaving `Ingestion` needs a
/// manifest with at least one file, leaving `FeatureDiscovery` needs every
/// expected module assessed; the other phases have no gate.
pub open spec fn gate_open(from_phase: PhaseKind, state: AssessmentJob) -> bool {
    match from_phase {
        PhaseKind::Ingestion => state.manifest matches Some(m) && m.total_files > 0,
        PhaseKind::FeatureDiscovery => all_assessed(state),
        _ => true,
    }
}

/// Validate that the job may advance out of `from_phase`.
pub fn validate_gate(from_phase: PhaseKind, state: &AssessmentJob) -> (r: Result<(), PhaseGateError>)
    ensures
        r is Ok <==> gate_open(from_phase, *state),
        r matches Err(PhaseGateError::Precondition(m)) ==> m@ == (if from_phase == PhaseKind::Ingestion {
            "manifest is empty or missing"@
        } else {
            "not all modules have a stored assessment"@
        }),
{
    match from_phase {
        PhaseKind::Ingestion => {
            let has_files = match &state.manifest {
                Some(m) => m.total_files > 0,
                None => false,
            };
            if has_files {
                Ok(())
            } else {
                Err(PhaseGateError::Precondition("manifest is empty or missing".to_owned()))
            }
        },
        PhaseKind::FeatureDiscovery => {
            if state.all_modules_assessed() {
                Ok(())
            } else {
                Err(
                    PhaseGateError::Precondition(
                        "not all modules have a stored assessment".to_owned(),
                    ),
                )
            }
        },
        _ => Ok(()),
    }
}

} // verus!
