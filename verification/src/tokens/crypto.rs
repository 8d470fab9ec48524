//! The outside primitives the token service leans on: authenticated
//! encryption, randomness, hexadecimal text and the wall clock.
//!
//! Each function here is trusted: its body makes the outside call and its
//! contract states what the outside crate's source shows, no more. What a
//! decryption returns is deterministic in the key, the implicit assertion
//! and the token, so it is given a name, [`decryption_of`]; what an
//! encryption returns contains a random nonce, so only its relation to
//! decryption is stated.

use vstd::prelude::*;

use crate::tokens::codec::{spec_hex_of_bytes};
use crate::tokens::errors::TokenError;

verus! {

/// Whether a string parses as a version-four local token: the outcome of
/// `pasetors::token::UntrustedToken::<Local, V4>::try_from`, which depends
/// on the string alone.
pub uninterp spec fn token_wire_ok(token: Seq<char>) -> bool;

/// The payload that authenticated decryption recovers from a token under a
/// key and an implicit assertion, if parsing, authentication and the text
/// check all succeed: the composed outcome of
/// `pasetors::token::UntrustedToken::<Local, V4>::try_from` and
/// `pasetors::version4::LocalToken::decrypt`, which depends on the three
/// arguments alone.
pub uninterp spec fn decryption_of(key: Seq<u8>, implicit: Seq<u8>, token: Seq<char>) -> Option<
    Seq<u8>,
>;

/// Relies on `pasetors::keys::SymmetricKey::<V4>::from` and
/// `pasetors::version4::LocalToken::encrypt`: encryption of an ASCII,
/// non-empty message under a thirty-two byte key yields a parseable token
/// that `LocalToken::decrypt` takes back to the same message under the same
/// key and implicit assertion (the cipher is a keystream XOR, the tag is
/// recomputed over the same inputs, and an ASCII payload passes the UTF-8
/// check unchanged). Encryption draws a fresh nonce, so nothing relates two
/// encryptions of one message.
#[verifier::external_body]
pub(crate) fn paseto_encrypt(key: &Vec<u8>, implicit: &Vec<u8>, message: &Vec<u8>) -> (r: Result<
    String,
    TokenError,
>)
    requires
        key@.len() == 32,
        message@.len() >= 1,
        forall|i: int| 0 <= i < message@.len() ==> message@[i] < 128,
    ensures
        r matches Ok(t) ==> token_wire_ok(t@) && decryption_of(key@, implicit@, t@) == Some(
            message@,
        ),
        r matches Err(e) ==> e == TokenError::CacheUnavailable,
{
    let sk = match pasetors::keys::SymmetricKey::<pasetors::version4::V4>::from(key.as_slice()) {
        Ok(sk) => sk,
        Err(_) => return Err(TokenError::CacheUnavailable),
    };
    match pasetors::version4::LocalToken::encrypt(
        &sk,
        message.as_slice(),
        None,
        Some(implicit.as_slice()),
    ) {
        Ok(t) => Ok(t),
        Err(_) => Err(TokenError::CacheUnavailable),
    }
}

/// Relies on `pasetors::keys::SymmetricKey::<V4>::from`,
/// `pasetors::token::UntrustedToken::<Local, V4>::try_from` and
/// `pasetors::version4::LocalToken::decrypt`: a string that does not parse
/// is malformed; a parsed token that fails authentication or the UTF-8
/// check decrypts to nothing; otherwise the recovered payload is exactly
/// what [`decryption_of`] names.
#[verifier::external_body]
pub(crate) fn paseto_decrypt(key: &Vec<u8>, implicit: &Vec<u8>, token: &str) -> (r: Result<
    Vec<u8>,
    TokenError,
>)
    requires
        key@.len() == 32,
    ensures
        r matches Ok(m) ==> decryption_of(key@, implicit@, token@) == Some(m@),
        r matches Err(e) ==> e == TokenError::MalformedToken || e == TokenError::InvalidSignature,
        r matches Err(TokenError::MalformedToken) ==> !token_wire_ok(token@) && decryption_of(
            key@,
            implicit@,
            token@,
        ) == None::<Seq<u8>>,
        r matches Err(TokenError::InvalidSignature) ==> token_wire_ok(token@) && decryption_of(
            key@,
            implicit@,
            token@,
        ) == None::<Seq<u8>>,
{
    let sk = match pasetors::keys::SymmetricKey::<pasetors::version4::V4>::from(key.as_slice()) {
        Ok(sk) => sk,
        Err(_) => return Err(TokenError::InvalidSignature),
    };
    let ut = match pasetors::token::UntrustedToken::<pasetors::Local, pasetors::version4::V4>::try_from(
        token,
    ) {
        Ok(ut) => ut,
        Err(_) => return Err(TokenError::MalformedToken),
    };
    match pasetors::version4::LocalToken::decrypt(&sk, &ut, None, Some(implicit.as_slice())) {
        Ok(t) => Ok(t.payload().as_bytes().to_vec()),
        Err(_) => Err(TokenError::InvalidSignature),
    }
}

/// Relies on `getrandom::fill`: on success the buffer holds fresh
/// cryptographically secure random bytes. Nothing is assumed about their
/// values.
#[verifier::external_body]
pub(crate) fn random_bytes_128() -> (r: Result<Vec<u8>, TokenError>)
    ensures
        r matches Ok(v) ==> v@.len() == 128,
        r matches Err(e) ==> e == TokenError::CacheUnavailable,
{
    let mut buf = vec![0u8; 128];
    match getrandom::fill(&mut buf) {
        Ok(()) => Ok(buf),
        Err(_) => Err(TokenError::CacheUnavailable),
    }
}

/// Relies on `hex::encode`: each byte becomes two lowercase hexadecimal
/// digits, high nibble first, which is exactly [`spec_hex_of_bytes`].
#[verifier::external_body]
pub(crate) fn hex_encode_bytes(b: &Vec<u8>) -> (r: Vec<u8>)
    ensures
        r@ == spec_hex_of_bytes(b@),
{
    hex::encode(b.as_slice()).into_bytes()
}

/// Relies on `chrono::Utc::now`: the present wall-clock time as seconds
/// since the epoch. The clock is outside the model, so nothing is assumed
/// beyond the value fitting in sixty-three bits.
#[verifier::external_body]
pub(crate) fn current_unix_time() -> (r: u64)
    ensures
        r <= 0x7fff_ffff_ffff_ffff,
{
    u64::try_from(chrono::Utc::now().timestamp()).unwrap_or(0)
}

} // verus!
