//! The response shapes the web layer hands back to clients.

use vstd::prelude::*;

verus! {

/// A failed request: the message shown to the caller.
pub struct ErrorResponse {
    pub error: String,
}

/// A successful request: the message shown to the caller.
pub struct SuccessResponse {
    pub message: String,
}

/// A failed request answered with a redirect.
pub struct RedirectErrorResponse {
    pub error: String,
    pub location: String,
}

/// A successful request answered with a redirect.
pub struct RedirectSuccessResponse {
    pub message: String,
    pub location: String,
}

} // verus!
