//! Data of the registration flow.

use vstd::prelude::*;

verus! {

/// What a new account is created from.
pub struct CreateUser {
    pub email: String,
    pub password: String,
    pub name: String,
}

/// An address to send a fresh confirmation link to.
pub struct UserEmail {
    pub email: String,
}

} // verus!
