//! Data of the third-party login flow.

use vstd::prelude::*;

verus! {

/// The claims carried by the session web token minted after a third-party
/// login.
pub struct TokenClaims {
    pub sub: String,
    pub iat: usize,
    pub exp: usize,
}

/// The query parameters the provider redirects back with.
pub struct QueryCode {
    pub code: String,
    pub state: String,
}

/// A registration request body.
pub struct RegisterUserSchema {
    pub name: String,
    pub email: String,
    pub password: String,
}

/// A login request body.
pub struct LoginUserScema {
    pub email: String,
    pub password: String,
}

/// The provider's answer to the code exchange.
pub struct OAuthResponse {
    pub access_token: String,
    pub id_token: String,
}

/// The profile the provider reports for the logged-in user.
pub struct GoogleUserResult {
    pub id: String,
    pub email: String,
    pub verified_email: bool,
    pub name: String,
    pub given_name: String,
    pub family_name: String,
    pub picture: String,
    pub locale: String,
}

} // verus!
