//! The services the runner talks to.

pub mod run_service;
