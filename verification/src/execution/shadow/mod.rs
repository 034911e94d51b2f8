//! Observing steps without changing what they do.

pub mod fingerprint;
pub mod observer;
