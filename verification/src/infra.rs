//! Shared infrastructure data: deployment settings and the response
//! shapes handed back to clients.

pub mod response;
pub mod settings;
