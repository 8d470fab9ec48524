//! Data of the session flow.

use vstd::prelude::*;

verus! {

/// A login request: the credentials presented.
pub struct LoginUser {
    pub email: String,
    pub password: String,
}

} // verus!
