//! The terminal interface over the job journal.

pub mod input;
