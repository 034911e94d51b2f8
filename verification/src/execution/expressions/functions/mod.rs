//! Functions of the expression language that look at the workspace.

pub mod glob_walk;
pub mod hash;
