//! Report naming and the facts a report is assembled from.
pub mod naming;
pub mod pdf;
