//! The job cache.

pub mod scope;
pub mod tier;
pub mod trust;
pub mod twirp;
