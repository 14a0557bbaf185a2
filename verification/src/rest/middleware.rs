//! Built-in middleware, one file per concern.
pub mod cors;
pub mod jwt;
pub mod max_bytes;
pub mod not_found;
pub mod timeout;
