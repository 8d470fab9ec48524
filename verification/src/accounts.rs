//! Data for updating an account's profile.

use vstd::prelude::*;

verus! {

/// A partial update of a user: only the fields that are present change.
/// The thumbnail is the name the stored avatar is filed under.
pub struct UpdateUser {
    pub email: Option<String>,
    pub name: Option<String>,
    pub password: Option<String>,
    pub is_active: Option<bool>,
    pub is_staff: Option<bool>,
    pub is_superuser: Option<bool>,
    pub thumbnail: Option<String>,
}

/// The avatar a user currently has, if any.
pub struct Thumbnail {
    pub thumbnail: Option<String>,
}

} // verus!
