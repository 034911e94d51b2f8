//! Calls into other crates and into parts of `std` without specifications.
//!
//! Each function here makes one outside call. Its contract is taken on
//! trust; everything else in this crate is proved.

pub mod archive;
pub mod clock;
pub mod debug;
pub mod digest;
pub mod http;
pub mod machine;
pub mod numeral;
pub mod pattern;
pub mod random;
pub mod utf8;
pub mod web_address;
pub mod yaml;
