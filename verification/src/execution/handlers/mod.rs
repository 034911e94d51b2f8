//! How the kinds of steps are run.

pub mod composite;
