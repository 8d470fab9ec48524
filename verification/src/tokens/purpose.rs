//! The workflows a token can be scoped to.

use vstd::prelude::*;

verus! {

/// The workflow a token is issued for. A token issued for one purpose is
/// rejected when presented for another: the purpose is embedded in the
/// encrypted claims and prefixes the key under which the token's nonce is
/// recorded.
#[derive(Clone, Copy, Debug, PartialEq, Eq, Structural)]
pub enum Purpose {
    /// Confirming the e-mail address of a freshly registered account.
    EmailConfirmation,
    /// Confirming a password-reset request.
    PasswordReset,
}

impl Purpose {
    /// The single byte that stands for this purpose in the encoded claims
    /// payload and at the head of the cache key.
    pub open spec fn spec_tag(self) -> u8 {
        match self {
            Purpose::EmailConfirmation => 101u8,  // 'e'
            Purpose::PasswordReset => 112u8,  // 'p'
        }
    }

    /// Executable counterpart of [`Purpose::spec_tag`].
    pub fn tag(self) -> (r: u8)
        ensures
            r == self.spec_tag(),
    {
        match self {
            Purpose::EmailConfirmation => 101u8,
            Purpose::PasswordReset => 112u8,
        }
    }

    /// The purpose encoded by a tag byte, if any.
    pub open spec fn spec_of_tag(t: u8) -> Option<Purpose> {
        if t == 101u8 {
            Some(Purpose::EmailConfirmation)
        } else if t == 112u8 {
            Some(Purpose::PasswordReset)
        } else {
            None
        }
    }

    /// Executable counterpart of [`Purpose::spec_of_tag`].
    pub fn of_tag(t: u8) -> (r: Option<Purpose>)
        ensures
            r == Purpose::spec_of_tag(t),
    {
        if t == 101u8 {
            Some(Purpose::EmailConfirmation)
        } else if t == 112u8 {
            Some(Purpose::PasswordReset)
        } else {
            None
        }
    }

    /// Tags are a faithful code for purposes: decoding the tag of a purpose
    /// gives that purpose back, so distinct purposes never share a tag.
    pub proof fn lemma_tag_injective(a: Purpose, b: Purpose)
        ensures
            Purpose::spec_of_tag(a.spec_tag()) == Some(a),
            a.spec_tag() == b.spec_tag() ==> a == b,
    {
    }
}

} // verus!
