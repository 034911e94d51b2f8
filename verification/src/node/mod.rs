//! Node.js.

pub mod runtime;
