//! The token service: issuance and verification of single-use,
//! time-bounded credentials.

pub mod cache;
pub mod codec;
pub mod crypto;
pub mod entities;
pub mod errors;
pub mod laws;
pub mod managers;
pub mod purpose;
