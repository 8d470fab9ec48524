//! Single-use, time-bounded credential tokens for a web authentication
//! backend.
//!
//! The heart of the crate is the token service in [`tokens`]: it issues
//! opaque, authenticated-encrypted tokens that carry a subject identifier,
//! a random nonce and an expiry, and verifies such tokens at most once by
//! coordinating with a key-value store of nonces with time-to-live.
//! The remaining modules hold the data carried around the service by the
//! web layer: settings, request schemas and response shapes.

pub mod accounts;
pub mod infra;
pub mod oauth;
pub mod ping;
pub mod processor;
pub mod registration;
pub mod sessions;
pub mod settings;
pub mod tokens;
