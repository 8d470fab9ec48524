//! Data carried alongside tokens by the web layer.

use vstd::prelude::*;

verus! {

/// The query parameter a confirmation link arrives with.
pub struct RegistrationConfirmation {
    pub token: String,
}

} // verus!
