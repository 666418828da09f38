//! Repository assessment for open-core gating: licensing, ingestion rules,
//! job orchestration and report naming, with their contracts.
pub mod text;
pub mod domain;
pub mod ingestion;
pub mod licensing;
pub mod orchestrator;
pub mod order;
pub mod ids;
pub mod report;
pub mod scoring;
pub mod cli;
