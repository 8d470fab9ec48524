//! The token service itself: issuing and verifying single-use,
//! time-bounded credentials.
//!
//! [`TokenManager`] owns the symmetric key and implicit assertion fixed at
//! start-up, and the store of unconsumed nonces. [`TokenManager::issue_at`]
//! encrypts a claims payload and records the nonce with the token's expiry;
//! [`TokenManager::verify_at`] decrypts, decodes, checks purpose and
//! expiry, and consumes the nonce's record in one atomic step, so each
//! token verifies successfully at most once.

use vstd::prelude::*;

use crate::tokens::cache::TokenCache;
use crate::tokens::codec::{
    decode_claims, encode_claims, lemma_encode_ascii, lemma_hex_of_bytes_digits, spec_decode,
    spec_encode, spec_is_hex_digit, Claims, ClaimsView,
};
use crate::tokens::crypto::{
    current_unix_time, decryption_of, hex_encode_bytes, paseto_decrypt, paseto_encrypt,
    random_bytes_128, token_wire_ok,
};
use crate::settings::Secret;
use crate::tokens::errors::TokenError;
use crate::tokens::purpose::Purpose;
use vstd::slice::slice_to_vec;
use vstd::string::StringSliceAdditionalSpecFns;
use vstd::utf8::encode_utf8;

verus! {

/// The key under which a token's nonce is recorded: the purpose tag, a
/// colon, and the nonce. Scoping the key by the purpose keeps the two
/// workflows' records apart.
pub open spec fn spec_cache_key(p: Purpose, nonce: Seq<u8>) -> Seq<u8> {
    seq![p.spec_tag(), 58u8] + nonce
}

/// Distinct purposes or distinct nonces give distinct cache keys.
pub proof fn lemma_cache_key_injective(p1: Purpose, n1: Seq<u8>, p2: Purpose, n2: Seq<u8>)
    ensures
        (spec_cache_key(p1, n1) == spec_cache_key(p2, n2)) <==> (p1 == p2 && n1 =~= n2),
{
    let k1 = spec_cache_key(p1, n1);
    let k2 = spec_cache_key(p2, n2);
    assert(k1.len() == 2 + n1.len());
    assert(k2.len() == 2 + n2.len());
    if k1 == k2 {
        assert(n1.len() == n2.len());
        assert(k1[0] == p1.spec_tag());
        assert(k2[0] == p2.spec_tag());
        Purpose::lemma_tag_injective(p1, p2);
        assert forall|i: int| 0 <= i < n1.len() implies n1[i] == n2[i] by {
            assert(k1[i + 2] == n1[i]);
            assert(k2[i + 2] == n2[i]);
        }
        assert(n1 =~= n2);
    } else {
        if p1 == p2 && n1 =~= n2 {
            assert(spec_cache_key(p1, n1) =~= spec_cache_key(p2, n2));
        }
    }
}

/// Build the cache key of a purpose and nonce.
fn cache_key(p: Purpose, nonce: &Vec<u8>) -> (r: Vec<u8>)
    ensures
        r@ == spec_cache_key(p, nonce@),
{
    let mut out: Vec<u8> = Vec::new();
    out.push(p.tag());
    out.push(58u8);
    let mut i: usize = 0;
    while i < nonce.len()
        invariant
            i <= nonce@.len(),
            out@ == seq![p.spec_tag(), 58u8] + nonce@.subrange(0, i as int),
        decreases nonce@.len() - i,
    {
        out.push(nonce[i]);
        proof {
            assert(out@ =~= seq![p.spec_tag(), 58u8] + nonce@.subrange(0, i + 1 as int));
        }
        i = i + 1;
    }
    proof {
        assert(out@ =~= spec_cache_key(p, nonce@));
    }
    out
}

/// Copy a byte string.
fn copy_bytes(v: &Vec<u8>) -> (r: Vec<u8>)
    ensures
        r@ == v@,
{
    let mut out: Vec<u8> = Vec::new();
    let mut i: usize = 0;
    while i < v.len()
        invariant
            i <= v@.len(),
            out@ == v@.subrange(0, i as int),
        decreases v@.len() - i,
    {
        out.push(v[i]);
        proof {
            assert(out@ =~= v@.subrange(0, i + 1 as int));
        }
        i = i + 1;
    }
    proof {
        assert(out@ =~= v@);
    }
    out
}

/// The token service: the secrets fixed at start-up and the store of
/// unconsumed nonces.
pub struct TokenManager {
    secret_key: Vec<u8>,
    hmac_secret: Vec<u8>,
    cache: TokenCache,
}

impl TokenManager {
    /// The symmetric key tokens are encrypted under.
    pub closed spec fn sk(self) -> Seq<u8> {
        self.secret_key@
    }

    /// The implicit assertion bound into every token's authentication tag.
    pub closed spec fn implicit(self) -> Seq<u8> {
        self.hmac_secret@
    }

    /// The store of unconsumed nonces.
    pub closed spec fn store(self) -> TokenCache {
        self.cache
    }

    /// A usable service: a key of the cipher's length and a well-formed
    /// store.
    pub open spec fn wf(self) -> bool {
        self.sk().len() == 32 && self.store().wf()
    }

    /// A service over fresh state: no nonce is recorded.
    pub fn new(secret_key: Vec<u8>, hmac_secret: Vec<u8>) -> (r: TokenManager)
        requires
            secret_key@.len() == 32,
        ensures
            r.wf(),
            r.sk() == secret_key@,
            r.implicit() == hmac_secret@,
            forall|k: Seq<u8>| r.store().deadline(k) == None::<u64>,
    {
        TokenManager { secret_key, hmac_secret, cache: TokenCache::new() }
    }

    /// A service configured from secret material: the key and the implicit
    /// assertion are the UTF-8 bytes of the configured strings. A key whose
    /// bytes do not have the cipher's length is rejected.
    pub fn from_secret(secret: &Secret) -> (r: Option<TokenManager>)
        ensures
            match r {
                Some(m) => {
                    &&& m.wf()
                    &&& m.sk() == encode_utf8(secret.secret_key@)
                    &&& m.implicit() == encode_utf8(secret.hmac_secret@)
                    &&& (forall|k: Seq<u8>| m.store().deadline(k) == None::<u64>)
                },
                None => encode_utf8(secret.secret_key@).len() != 32,
            },
    {
        let kb = secret.secret_key.as_str().as_bytes();
        if kb.len() != 32 {
            return None;
        }
        let hb = secret.hmac_secret.as_str().as_bytes();
        Some(TokenManager::new(slice_to_vec(kb), slice_to_vec(hb)))
    }

    /// Generate a fresh session key: the hexadecimal expansion of
    /// one hundred twenty-eight random bytes.
    pub fn create_token(&self) -> (r: Result<Vec<u8>, TokenError>)
        ensures
            r matches Ok(v) ==> v@.len() == 256 && (forall|i: int|
                0 <= i < v@.len() ==> spec_is_hex_digit(#[trigger] v@[i])),
            r matches Err(e) ==> e == TokenError::CacheUnavailable,
    {
        let raw = match random_bytes_128() {
            Ok(v) => v,
            Err(e) => {
                return Err(e);
            },
        };
        let nonce = hex_encode_bytes(&raw);
        proof {
            lemma_hex_of_bytes_digits(raw@);
        }
        Ok(nonce)
    }
}

/// What holds after a successful issuance with a given nonce: the token
/// decrypts to exactly the claims issued, the nonce's record carries the
/// token's own expiry, and no other record was touched.
pub open spec fn issued_token(
    pre: TokenManager,
    post: TokenManager,
    token: Seq<char>,
    nonce: Seq<u8>,
    subject: Seq<u8>,
    p: Purpose,
    exp: u64,
) -> bool {
    &&& nonce.len() == 256
    &&& token_wire_ok(token)
    &&& decryption_of(pre.sk(), pre.implicit(), token) == Some(
        spec_encode(ClaimsView { subject_id: subject, nonce, purpose: p, expires_at: exp }),
    )
    &&& post.store().deadline(spec_cache_key(p, nonce)) == Some(exp)
    &&& (forall|k: Seq<u8>|
        k != spec_cache_key(p, nonce) ==> post.store().deadline(k) == pre.store().deadline(k))
}

/// The claims a token carries for a service, if it decrypts and decodes.
pub open spec fn spec_token_claims(m: TokenManager, token: Seq<char>) -> Option<ClaimsView> {
    match decryption_of(m.sk(), m.implicit(), token) {
        None => None,
        Some(payload) => spec_decode(payload),
    }
}

/// The one verdict verification can reach on a token, a purpose and a
/// time, given the service's secrets and store.
pub open spec fn spec_verify_outcome(
    m: TokenManager,
    token: Seq<char>,
    p: Purpose,
    now: u64,
) -> Result<Seq<u8>, TokenError> {
    match decryption_of(m.sk(), m.implicit(), token) {
        None => if !token_wire_ok(token) {
            Err(TokenError::MalformedToken)
        } else {
            Err(TokenError::InvalidSignature)
        },
        Some(payload) => match spec_decode(payload) {
            None => Err(TokenError::MalformedToken),
            Some(c) => if c.purpose != p {
                Err(TokenError::TokenConsumedOrExpired)
            } else if now >= c.expires_at {
                Err(TokenError::TokenExpired)
            } else if m.store().live(spec_cache_key(p, c.nonce), now) {
                Ok(c.subject_id)
            } else {
                Err(TokenError::TokenConsumedOrExpired)
            },
        },
    }
}

/// How verification changes the store: when the token carries claims for
/// the purpose checked and is not yet expired, the record under the
/// claims' nonce is consumed and nothing else moves; otherwise the store
/// is left as it was. The secrets never change.
pub open spec fn spec_verify_transition(
    pre: TokenManager,
    post: TokenManager,
    token: Seq<char>,
    p: Purpose,
    now: u64,
) -> bool {
    &&& post.sk() == pre.sk()
    &&& post.implicit() == pre.implicit()
    &&& (match spec_token_claims(pre, token) {
        Some(c) => if c.purpose == p && now < c.expires_at {
            &&& post.store().deadline(spec_cache_key(p, c.nonce)) == None::<u64>
            &&& (forall|k: Seq<u8>|
                k != spec_cache_key(p, c.nonce) ==> post.store().deadline(k)
                    == pre.store().deadline(k))
        } else {
            post.store() == pre.store()
        },
        None => post.store() == pre.store(),
    })
}

impl TokenManager {
    /// Issue a token for a subject, scoped to a purpose, valid for
    /// `ttl` seconds from `now`.
    ///
    /// On success the returned string decrypts to the claims issued, and
    /// the nonce drawn for it is recorded until `now + ttl`; the record is
    /// what later lets the token verify exactly once. On failure of the
    /// random source or the cipher nothing is recorded and no token
    /// exists.
    pub fn issue_at(
        &mut self,
        subject_id: &Vec<u8>,
        purpose: Purpose,
        ttl: u64,
        now: u64,
    ) -> (r: Result<String, TokenError>)
        requires
            old(self).wf(),
            1 <= subject_id@.len() <= 0xFFFF,
            ttl >= 1,
            now + ttl <= u64::MAX,
        ensures
            final(self).wf(),
            final(self).sk() == old(self).sk(),
            final(self).implicit() == old(self).implicit(),
            match r {
                Ok(t) => exists|nonce: Seq<u8>|
                    #[trigger] issued_token(
                        *old(self),
                        *final(self),
                        t@,
                        nonce,
                        subject_id@,
                        purpose,
                        (now + ttl) as u64,
                    ),
                Err(e) => e == TokenError::CacheUnavailable && final(self).store() == old(
                    self,
                ).store(),
            },
    {
        let raw = match random_bytes_128() {
            Ok(v) => v,
            Err(e) => {
                return Err(e);
            },
        };
        let nonce = hex_encode_bytes(&raw);
        let key = cache_key(purpose, &nonce);
        let expires_at = now + ttl;
        let claims = Claims {
            subject_id: copy_bytes(subject_id),
            nonce,
            purpose,
            expires_at,
        };
        let payload = encode_claims(&claims);
        proof {
            lemma_encode_ascii(claims@);
        }
        let token = match paseto_encrypt(&self.secret_key, &self.hmac_secret, &payload) {
            Ok(t) => t,
            Err(e) => {
                return Err(e);
            },
        };
        self.cache.set(key, expires_at);
        proof {
            assert(issued_token(
                *old(self),
                *self,
                token@,
                claims.nonce@,
                subject_id@,
                purpose,
                expires_at,
            ));
        }
        Ok(token)
    }

    /// Verify a token against a purpose at time `now`, consuming it on
    /// success.
    ///
    /// The verdict is exactly [`spec_verify_outcome`]: a string that does
    /// not parse is malformed; one that fails authentication is rejected;
    /// decoded claims must carry the purpose checked and an expiry after
    /// `now`; and the nonce's record must still be live, in which case it
    /// is consumed in the same step that observes it. The store moves
    /// exactly as [`spec_verify_transition`] says.
    pub fn verify_at(&mut self, token: &str, purpose: Purpose, now: u64) -> (r: Result<
        Vec<u8>,
        TokenError,
    >)
        requires
            old(self).wf(),
        ensures
            final(self).wf(),
            spec_verify_transition(*old(self), *final(self), token@, purpose, now),
            match r {
                Ok(s) => spec_verify_outcome(*old(self), token@, purpose, now) == Ok::<
                    Seq<u8>,
                    TokenError,
                >(s@),
                Err(e) => spec_verify_outcome(*old(self), token@, purpose, now) == Err::<
                    Seq<u8>,
                    TokenError,
                >(e),
            },
    {
        let payload = match paseto_decrypt(&self.secret_key, &self.hmac_secret, token) {
            Ok(m) => m,
            Err(e) => {
                return Err(e);
            },
        };
        let claims = match decode_claims(&payload) {
            Some(c) => c,
            None => {
                return Err(TokenError::MalformedToken);
            },
        };
        if claims.purpose != purpose {
            return Err(TokenError::TokenConsumedOrExpired);
        }
        if now >= claims.expires_at {
            return Err(TokenError::TokenExpired);
        }
        let key = cache_key(purpose, &claims.nonce);
        if self.cache.check_and_delete(&key, now) {
            Ok(claims.subject_id)
        } else {
            Err(TokenError::TokenConsumedOrExpired)
        }
    }

    /// Issue a token valid for `ttl` seconds from the present wall-clock
    /// time. Everything [`TokenManager::issue_at`] guarantees holds for
    /// the moment the clock reported.
    pub fn issue(&mut self, subject_id: &Vec<u8>, purpose: Purpose, ttl: u64) -> (r: Result<
        String,
        TokenError,
    >)
        requires
            old(self).wf(),
            1 <= subject_id@.len() <= 0xFFFF,
            1 <= ttl <= 0x7fff_ffff_ffff_ffff,
        ensures
            final(self).wf(),
            final(self).sk() == old(self).sk(),
            final(self).implicit() == old(self).implicit(),
            match r {
                Ok(t) => exists|nonce: Seq<u8>, exp: u64|
                    #[trigger] issued_token(*old(self), *final(self), t@, nonce, subject_id@, purpose, exp),
                Err(e) => e == TokenError::CacheUnavailable && final(self).store() == old(
                    self,
                ).store(),
            },
    {
        let now = current_unix_time();
        self.issue_at(subject_id, purpose, ttl, now)
    }

    /// Verify a token against a purpose at the present wall-clock time,
    /// consuming it on success. Everything [`TokenManager::verify_at`]
    /// guarantees holds for the moment the clock reported.
    pub fn verify(&mut self, token: &str, purpose: Purpose) -> (r: Result<Vec<u8>, TokenError>)
        requires
            old(self).wf(),
        ensures
            final(self).wf(),
            exists|now: u64|
                {
                    &&& spec_verify_transition(*old(self), *final(self), token@, purpose, now)
                    &&& (match r {
                        Ok(s) => spec_verify_outcome(*old(self), token@, purpose, now) == Ok::<
                            Seq<u8>,
                            TokenError,
                        >(s@),
                        Err(e) => spec_verify_outcome(*old(self), token@, purpose, now) == Err::<
                            Seq<u8>,
                            TokenError,
                        >(e),
                    })
                },
    {
        let now = current_unix_time();
        let r = self.verify_at(token, purpose, now);
        proof {
            let pnow = now;
            assert(spec_verify_transition(*old(self), *self, token@, purpose, pnow));
        }
        r
    }
}

} // verus!
