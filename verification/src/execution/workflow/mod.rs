//! Workflows.

pub mod reusable;
pub mod trigger;
pub mod types;
