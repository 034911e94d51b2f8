//! Reusable workflows.

pub mod types;
