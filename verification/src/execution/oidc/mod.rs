//! OpenID Connect tokens.

pub mod claims;
