//! Decision logic of the analysis-pipeline phases: what each phase asks a
//! model session, and what it makes of the replies.
pub mod arch_mapping;
pub mod feature_discovery;
pub mod llm_adapter;
pub mod offline;
pub mod risk_analysis;
pub mod synthesis;
