//! The `${{ }}` expression language.

pub mod evaluator;
pub mod functions;
pub mod number_bits;
pub mod types;
