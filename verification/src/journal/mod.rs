//! The job journal: one JSON line per event, one file per job.

pub mod writer;
