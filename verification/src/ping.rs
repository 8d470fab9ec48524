//! Data of the health check.

use vstd::prelude::*;

verus! {

/// What the database answers to a connectivity probe.
pub struct DBResponse {
    pub con_exists: Option<i32>,
}

} // verus!
