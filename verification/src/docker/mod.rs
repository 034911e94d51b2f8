//! Docker.

pub mod client;
