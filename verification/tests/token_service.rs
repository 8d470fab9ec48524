//! End-to-end behaviour of the token service: issue and verify, single
//! use, expiry, purpose scoping and tampering.

use authenticator::settings::Secret;
use authenticator::tokens::errors::TokenError;
use authenticator::tokens::managers::TokenManager;
use authenticator::tokens::purpose::Purpose;

fn manager() -> TokenManager {
    let key: Vec<u8> = (0u8..32u8).collect();
    let hmac: Vec<u8> = b"extra authentication secret".to_vec();
    TokenManager::new(key, hmac)
}

fn other_key_manager() -> TokenManager {
    let key: Vec<u8> = (100u8..132u8).collect();
    let hmac: Vec<u8> = b"extra authentication secret".to_vec();
    TokenManager::new(key, hmac)
}

fn other_hmac_manager() -> TokenManager {
    let key: Vec<u8> = (0u8..32u8).collect();
    let hmac: Vec<u8> = b"a different assertion".to_vec();
    TokenManager::new(key, hmac)
}

#[test]
fn issue_then_verify_returns_subject() {
    let mut m = manager();
    let subject = b"user-17".to_vec();
    let token = m
        .issue_at(&subject, Purpose::EmailConfirmation, 600, 50_000)
        .expect("issuance must succeed");
    let got = m
        .verify_at(&token, Purpose::EmailConfirmation, 50_000)
        .expect("a fresh token must verify");
    assert_eq!(got, subject);
}

#[test]
fn second_verification_is_rejected_as_consumed() {
    let mut m = manager();
    let subject = b"user-17".to_vec();
    let token = m
        .issue_at(&subject, Purpose::EmailConfirmation, 600, 50_000)
        .expect("issuance must succeed");
    let first = m.verify_at(&token, Purpose::EmailConfirmation, 50_100);
    assert_eq!(first.unwrap(), subject);
    let second = m.verify_at(&token, Purpose::EmailConfirmation, 50_200);
    assert_eq!(second.unwrap_err(), TokenError::TokenConsumedOrExpired);
}

#[test]
fn verification_after_ttl_is_rejected_as_expired() {
    let mut m = manager();
    let subject = b"user-17".to_vec();
    let ttl = 600u64;
    let issued_at = 50_000u64;
    let token = m
        .issue_at(&subject, Purpose::EmailConfirmation, ttl, issued_at)
        .expect("issuance must succeed");
    // One second past the deadline.
    let late = issued_at + ttl + 1;
    let r = m.verify_at(&token, Purpose::EmailConfirmation, late);
    assert_eq!(r.unwrap_err(), TokenError::TokenExpired);
    // Exactly at the deadline the token is already expired.
    let mut m2 = manager();
    let token2 = m2
        .issue_at(&subject, Purpose::EmailConfirmation, ttl, issued_at)
        .expect("issuance must succeed");
    let r2 = m2.verify_at(&token2, Purpose::EmailConfirmation, issued_at + ttl);
    assert_eq!(r2.unwrap_err(), TokenError::TokenExpired);
}

#[test]
fn purpose_is_scoped() {
    let mut m = manager();
    let subject = b"user-17".to_vec();
    let token = m
        .issue_at(&subject, Purpose::EmailConfirmation, 600, 50_000)
        .expect("issuance must succeed");
    // Checked against the wrong purpose, well before expiry.
    let r = m.verify_at(&token, Purpose::PasswordReset, 50_001);
    assert_eq!(r.unwrap_err(), TokenError::TokenConsumedOrExpired);
    // The failure consumed nothing: the right purpose still verifies.
    let ok = m.verify_at(&token, Purpose::EmailConfirmation, 50_002);
    assert_eq!(ok.unwrap(), subject);
}

#[test]
fn tampering_with_any_byte_fails() {
    let mut m = manager();
    let subject = b"user-17".to_vec();
    let token = m
        .issue_at(&subject, Purpose::EmailConfirmation, 600, 50_000)
        .expect("issuance must succeed");
    let bytes = token.as_bytes();
    for i in 0..bytes.len() {
        let mut tampered = bytes.to_vec();
        tampered[i] = if tampered[i] == b'A' { b'B' } else { b'A' };
        if tampered[i] == bytes[i] {
            continue;
        }
        let tampered = String::from_utf8(tampered).expect("ASCII stays ASCII");
        let r = m.verify_at(&tampered, Purpose::EmailConfirmation, 50_000);
        match r {
            Ok(_) => panic!("tampered token at byte {} must not verify", i),
            Err(e) => assert!(
                e == TokenError::MalformedToken || e == TokenError::InvalidSignature,
                "tampered token at byte {} gave {:?}",
                i,
                e
            ),
        }
    }
    // The untouched token still verifies: tampering was the only problem.
    let ok = m.verify_at(&token, Purpose::EmailConfirmation, 50_000);
    assert_eq!(ok.unwrap(), subject);
}

#[test]
fn wrong_key_fails_authentication() {
    let mut m = manager();
    let subject = b"user-17".to_vec();
    let token = m
        .issue_at(&subject, Purpose::EmailConfirmation, 600, 50_000)
        .expect("issuance must succeed");
    let mut stranger = other_key_manager();
    let r = stranger.verify_at(&token, Purpose::EmailConfirmation, 50_000);
    assert_eq!(r.unwrap_err(), TokenError::InvalidSignature);
}

#[test]
fn wrong_implicit_assertion_fails_authentication() {
    let mut m = manager();
    let subject = b"user-17".to_vec();
    let token = m
        .issue_at(&subject, Purpose::EmailConfirmation, 600, 50_000)
        .expect("issuance must succeed");
    let mut stranger = other_hmac_manager();
    let r = stranger.verify_at(&token, Purpose::EmailConfirmation, 50_000);
    assert_eq!(r.unwrap_err(), TokenError::InvalidSignature);
}

#[test]
fn garbage_strings_are_malformed() {
    let mut m = manager();
    for garbage in [
        "",
        "not a token",
        "v4.local.",
        "v4.public.AAAA",
        "v2.local.AAAA",
        "v4.local.!!!not-base64!!!",
    ] {
        let r = m.verify_at(garbage, Purpose::EmailConfirmation, 50_000);
        assert_eq!(r.unwrap_err(), TokenError::MalformedToken, "input {:?}", garbage);
    }
}

#[test]
fn password_reset_scenario() {
    // Issue for subject U1, purpose password reset, ttl 900 seconds.
    let mut m = manager();
    let subject = b"U1".to_vec();
    let t0 = 1_000_000u64;
    let token = m
        .issue_at(&subject, Purpose::PasswordReset, 900, t0)
        .expect("issuance must succeed");
    // Immediate verification with the correct purpose succeeds and
    // returns U1.
    let got = m.verify_at(&token, Purpose::PasswordReset, t0).expect("fresh token verifies");
    assert_eq!(got, b"U1".to_vec());
    // The same token a second time: consumed.
    let again = m.verify_at(&token, Purpose::PasswordReset, t0 + 1);
    assert_eq!(again.unwrap_err(), TokenError::TokenConsumedOrExpired);
    // A second token, with the clock moved past its time-to-live: expired.
    let token2 = m
        .issue_at(&subject, Purpose::PasswordReset, 900, t0 + 10)
        .expect("issuance must succeed");
    let late = m.verify_at(&token2, Purpose::PasswordReset, t0 + 10 + 901);
    assert_eq!(late.unwrap_err(), TokenError::TokenExpired);
}

#[test]
fn two_verifiers_one_success() {
    // Two verifications of one token; the store's check-and-delete is one
    // atomic step, so any interleaving orders them. Whichever runs first
    // wins; the other sees a consumed error.
    let mut m = manager();
    let subject = b"user-17".to_vec();
    let token = m
        .issue_at(&subject, Purpose::PasswordReset, 600, 50_000)
        .expect("issuance must succeed");
    let r1 = m.verify_at(&token, Purpose::PasswordReset, 50_000);
    let r2 = m.verify_at(&token, Purpose::PasswordReset, 50_000);
    let successes = [&r1, &r2].iter().filter(|r| r.is_ok()).count();
    assert_eq!(successes, 1);
    assert_eq!(r1.unwrap(), subject);
    assert_eq!(r2.unwrap_err(), TokenError::TokenConsumedOrExpired);
}

#[test]
fn independent_tokens_do_not_interfere() {
    let mut m = manager();
    let t1 = m
        .issue_at(&b"alpha".to_vec(), Purpose::EmailConfirmation, 600, 50_000)
        .expect("issuance must succeed");
    let t2 = m
        .issue_at(&b"beta".to_vec(), Purpose::PasswordReset, 600, 50_000)
        .expect("issuance must succeed");
    // Consuming the first token leaves the second fully verifiable.
    assert_eq!(
        m.verify_at(&t1, Purpose::EmailConfirmation, 50_001).unwrap(),
        b"alpha".to_vec()
    );
    assert_eq!(m.verify_at(&t2, Purpose::PasswordReset, 50_002).unwrap(), b"beta".to_vec());
}

#[test]
fn issue_and_verify_with_wall_clock() {
    // The clock-reading entry points agree with each other.
    let mut m = manager();
    let subject = b"user-17".to_vec();
    let token = m.issue(&subject, Purpose::EmailConfirmation, 900).expect("issuance");
    let got = m.verify(&token, Purpose::EmailConfirmation).expect("fresh token verifies");
    assert_eq!(got, subject);
    let again = m.verify(&token, Purpose::EmailConfirmation);
    assert_eq!(again.unwrap_err(), TokenError::TokenConsumedOrExpired);
}

#[test]
fn service_built_from_secret_settings() {
    let secret = Secret {
        secret_key: "an example thirty-two byte key!!".to_string(),
        token_expiration: 900,
        hmac_secret: "extra authentication secret".to_string(),
    };
    let mut m = TokenManager::from_secret(&secret).expect("a 32-byte key is accepted");
    let subject = b"user-17".to_vec();
    let token = m
        .issue_at(&subject, Purpose::PasswordReset, 900, 1_000)
        .expect("issuance must succeed");
    assert_eq!(m.verify_at(&token, Purpose::PasswordReset, 1_000).unwrap(), subject);

    let short = Secret {
        secret_key: "too short".to_string(),
        token_expiration: 900,
        hmac_secret: "extra authentication secret".to_string(),
    };
    assert!(TokenManager::from_secret(&short).is_none());
}

#[test]
fn create_token_is_long_lowercase_hex() {
    let m = manager();
    let nonce = m.create_token().expect("the random source works");
    assert_eq!(nonce.len(), 256);
    for b in nonce {
        assert!(b.is_ascii_hexdigit() && !b.is_ascii_uppercase());
    }
    // Two draws differ: the nonce is not a constant.
    let a = manager().create_token().unwrap();
    let b = manager().create_token().unwrap();
    assert_ne!(a, b);
}

#[test]
fn error_descriptions_do_not_distinguish_lifecycle_ends() {
    assert_eq!(
        TokenError::TokenExpired.describe(),
        TokenError::TokenConsumedOrExpired.describe()
    );
    assert_ne!(
        TokenError::MalformedToken.describe(),
        TokenError::InvalidSignature.describe()
    );
    assert!(!TokenError::CacheUnavailable.describe().is_empty());
}
