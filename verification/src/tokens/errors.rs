//! The error taxonomy of the token service.

use vstd::prelude::*;

verus! {

/// Why issuance or verification of a token failed.
///
/// Lifecycle errors deliberately collapse: a verifier cannot tell a token
/// that was never issued from one already consumed or one whose cache
/// record expired; all three surface as [`TokenError::TokenConsumedOrExpired`].
#[derive(Clone, Copy, Debug, PartialEq, Eq, Structural)]
pub enum TokenError {
    /// The string is not a token of the expected shape.
    MalformedToken,
    /// The token has the right shape but fails authentication: wrong key,
    /// wrong implicit assertion, or tampered bytes.
    InvalidSignature,
    /// The expiry embedded in the token lies at or before the present time.
    TokenExpired,
    /// No live cache record exists for the token's nonce under the purpose
    /// checked: never issued, already consumed, expired on the cache side,
    /// or issued for a different purpose.
    TokenConsumedOrExpired,
    /// Infrastructure failed: the store or a cryptographic primitive was
    /// unavailable. Retrying later may succeed.
    CacheUnavailable,
}

impl TokenError {
    /// A short stable description of the error, for logs and responses.
    ///
    /// Expired and consumed tokens are described by one and the same
    /// sentence, so the caller cannot tell the two lifecycle ends apart.
    pub fn describe(self) -> (r: &'static str)
        ensures
            self is TokenConsumedOrExpired || self is TokenExpired
                ==> r@ == "the token is no longer valid"@,
    {
        match self {
            TokenError::MalformedToken => "the token could not be read",
            TokenError::InvalidSignature => "the token failed authentication",
            TokenError::TokenExpired => "the token is no longer valid",
            TokenError::TokenConsumedOrExpired => "the token is no longer valid",
            TokenError::CacheUnavailable => "the request cannot be processed at the moment",
        }
    }
}

} // verus!
