//! Reporting a job's progress.

pub mod feature_detection;
pub mod results_service;
