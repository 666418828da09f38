//! Core domain types, schemas and errors shared by every part of the library.
pub mod claude_schemas;
pub mod error;
pub mod model;
pub mod types;
