//! The laws of the token service, proved from the contracts of
//! [`crate::tokens::managers`].
//!
//! Each proof function here states a property of every issuance and
//! verification, over the same specification functions the executable
//! contracts use, so what is proved here holds of every run of the
//! service.

use vstd::prelude::*;

use crate::tokens::codec::{lemma_decode_encode, ClaimsView};
use crate::tokens::errors::TokenError;
use crate::tokens::managers::{
    issued_token, lemma_cache_key_injective, spec_cache_key, spec_token_claims,
    spec_verify_outcome, spec_verify_transition, TokenManager,
};
use crate::tokens::purpose::Purpose;

verus! {

/// Law: a freshly issued token verifies for its own purpose at any moment
/// before its expiry, and yields exactly the subject it was issued for.
pub proof fn lemma_issue_then_verify(
    pre: TokenManager,
    post: TokenManager,
    token: Seq<char>,
    nonce: Seq<u8>,
    subject: Seq<u8>,
    p: Purpose,
    exp: u64,
    now: u64,
)
    requires
        subject.len() <= 0xFFFF,
        issued_token(pre, post, token, nonce, subject, p, exp),
        post.sk() == pre.sk(),
        post.implicit() == pre.implicit(),
        now < exp,
    ensures
        spec_verify_outcome(post, token, p, now) == Ok::<Seq<u8>, TokenError>(subject),
{
    let c = ClaimsView { subject_id: subject, nonce, purpose: p, expires_at: exp };
    lemma_decode_encode(c);
}

/// Law: a token verifies successfully at most once. Once a verification
/// has succeeded and consumed the token's record, any later verification
/// of the same token against the same purpose fails — with an expiry
/// error or a consumed error, never the subject.
pub proof fn lemma_single_use(
    pre: TokenManager,
    mid: TokenManager,
    token: Seq<char>,
    p: Purpose,
    now1: u64,
    now2: u64,
)
    requires
        spec_verify_outcome(pre, token, p, now1) is Ok,
        spec_verify_transition(pre, mid, token, p, now1),
    ensures
        spec_verify_outcome(mid, token, p, now2) == Err::<Seq<u8>, TokenError>(
            TokenError::TokenExpired,
        ) || spec_verify_outcome(mid, token, p, now2) == Err::<Seq<u8>, TokenError>(
            TokenError::TokenConsumedOrExpired,
        ),
{
    let c = spec_token_claims(pre, token)->Some_0;
    assert(spec_token_claims(mid, token) == spec_token_claims(pre, token));
    assert(mid.store().deadline(spec_cache_key(p, c.nonce)) == None::<u64>);
}

/// Law: once the time-to-live a token was issued with has passed, the
/// token is rejected as expired, and its cache record — whose deadline was
/// set from the same computation as the embedded expiry — is no longer
/// live either.
pub proof fn lemma_expiry_enforced(
    pre: TokenManager,
    post: TokenManager,
    token: Seq<char>,
    nonce: Seq<u8>,
    subject: Seq<u8>,
    p: Purpose,
    exp: u64,
    now: u64,
)
    requires
        subject.len() <= 0xFFFF,
        issued_token(pre, post, token, nonce, subject, p, exp),
        post.sk() == pre.sk(),
        post.implicit() == pre.implicit(),
        now >= exp,
    ensures
        spec_verify_outcome(post, token, p, now) == Err::<Seq<u8>, TokenError>(
            TokenError::TokenExpired,
        ),
        !post.store().live(spec_cache_key(p, nonce), now),
{
    let c = ClaimsView { subject_id: subject, nonce, purpose: p, expires_at: exp };
    lemma_decode_encode(c);
}

/// Law: a token issued for one purpose fails verification against any
/// other purpose, at every moment — even before its expiry — and the
/// failure does not reveal that the token exists.
pub proof fn lemma_purpose_scoping(
    pre: TokenManager,
    post: TokenManager,
    token: Seq<char>,
    nonce: Seq<u8>,
    subject: Seq<u8>,
    p: Purpose,
    other: Purpose,
    exp: u64,
    now: u64,
)
    requires
        subject.len() <= 0xFFFF,
        issued_token(pre, post, token, nonce, subject, p, exp),
        post.sk() == pre.sk(),
        post.implicit() == pre.implicit(),
        other != p,
    ensures
        spec_verify_outcome(post, token, other, now) == Err::<Seq<u8>, TokenError>(
            TokenError::TokenConsumedOrExpired,
        ),
{
    let c = ClaimsView { subject_id: subject, nonce, purpose: p, expires_at: exp };
    lemma_decode_encode(c);
}

/// Law: the cache record of a fresh token counts exactly as long as the
/// expiry embedded in the token itself: both were set from the one
/// issuance-time computation, so the record can never outlive the
/// embedded expiry.
pub proof fn lemma_record_never_outlives_expiry(
    pre: TokenManager,
    post: TokenManager,
    token: Seq<char>,
    nonce: Seq<u8>,
    subject: Seq<u8>,
    p: Purpose,
    exp: u64,
    now: u64,
)
    requires
        issued_token(pre, post, token, nonce, subject, p, exp),
    ensures
        post.store().live(spec_cache_key(p, nonce), now) <==> now < exp,
{
}

/// Law: verifications of independent tokens do not interfere. Consuming
/// one token leaves a token that carries a different nonce or a different
/// purpose exactly as verifiable as before: concurrent flows over
/// independent tokens cannot disturb one another.
pub proof fn lemma_independent_tokens(
    pre: TokenManager,
    mid: TokenManager,
    consumed: Seq<char>,
    other: Seq<char>,
    p1: Purpose,
    p2: Purpose,
    now1: u64,
    now2: u64,
)
    requires
        spec_verify_transition(pre, mid, consumed, p1, now1),
        match (spec_token_claims(pre, consumed), spec_token_claims(pre, other)) {
            (Some(c1), Some(c2)) => c1.nonce != c2.nonce || c1.purpose != c2.purpose,
            _ => true,
        },
    ensures
        spec_verify_outcome(mid, other, p2, now2) == spec_verify_outcome(pre, other, p2, now2),
{
    let oc1 = spec_token_claims(pre, consumed);
    let oc2 = spec_token_claims(pre, other);
    if oc1 is Some && oc2 is Some {
        let c1 = oc1->Some_0;
        let c2 = oc2->Some_0;
        if c1.purpose == p1 && now1 < c1.expires_at && c2.purpose == p2 {
            lemma_cache_key_injective(p1, c1.nonce, p2, c2.nonce);
            assert(spec_cache_key(p1, c1.nonce) != spec_cache_key(p2, c2.nonce));
        }
    }
}

/// Law: of two verifications of one token against one purpose, run one
/// after the other in either order and at any two times, at most one can
/// succeed. The store's check-and-delete is a single atomic step, so any
/// interleaving of two verifiers orders their steps like this.
pub proof fn lemma_no_double_success(
    first: TokenManager,
    second: TokenManager,
    token: Seq<char>,
    p: Purpose,
    now1: u64,
    now2: u64,
)
    requires
        spec_verify_transition(first, second, token, p, now1),
    ensures
        !(spec_verify_outcome(first, token, p, now1) is Ok && spec_verify_outcome(
            second,
            token,
            p,
            now2,
        ) is Ok),
{
    if spec_verify_outcome(first, token, p, now1) is Ok {
        lemma_single_use(first, second, token, p, now1, now2);
    }
}

/// Law: two verifications of one fresh token decide exactly one winner.
/// Whichever of the two the store orders first succeeds with the issued
/// subject; the other fails, whenever it runs.
pub proof fn lemma_exactly_one_success(
    pre: TokenManager,
    post: TokenManager,
    mid: TokenManager,
    token: Seq<char>,
    nonce: Seq<u8>,
    subject: Seq<u8>,
    p: Purpose,
    exp: u64,
    now1: u64,
    now2: u64,
)
    requires
        subject.len() <= 0xFFFF,
        issued_token(pre, post, token, nonce, subject, p, exp),
        post.sk() == pre.sk(),
        post.implicit() == pre.implicit(),
        now1 < exp,
        spec_verify_transition(post, mid, token, p, now1),
    ensures
        spec_verify_outcome(post, token, p, now1) == Ok::<Seq<u8>, TokenError>(subject),
        spec_verify_outcome(mid, token, p, now2) is Err,
{
    lemma_issue_then_verify(pre, post, token, nonce, subject, p, exp, now1);
    lemma_single_use(post, mid, token, p, now1, now2);
}

} // verus!
