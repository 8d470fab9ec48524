//! The claims wire format: exact encodings, round trips and rejections.

use authenticator::tokens::codec::{decode_claims, encode_claims, Claims, CLAIMS_VERSION};
use authenticator::tokens::purpose::Purpose;

fn sample_claims() -> Claims {
    Claims {
        subject_id: b"AB".to_vec(),
        nonce: vec![0x01, 0xff],
        purpose: Purpose::EmailConfirmation,
        expires_at: 0x0102030405060708,
    }
}

#[test]
fn encoding_has_the_documented_layout() {
    let encoded = encode_claims(&sample_claims());
    let expected: Vec<u8> = [
        "1e",               // version, purpose tag
        "0102030405060708", // expiry
        "0000000000000002", // subject length
        "4142",             // subject "AB"
        "0000000000000002", // nonce length
        "01ff",             // nonce
    ]
    .concat()
    .into_bytes();
    assert_eq!(encoded, expected);
}

#[test]
fn version_byte_is_ascii_one() {
    assert_eq!(CLAIMS_VERSION, b'1');
}

#[test]
fn decoding_inverts_encoding() {
    let c = Claims {
        subject_id: b"someone@example.test".to_vec(),
        nonce: (0u8..=255u8).collect(),
        purpose: Purpose::PasswordReset,
        expires_at: u64::MAX,
    };
    let encoded = encode_claims(&c);
    let back = decode_claims(&encoded).expect("an encoded payload decodes");
    assert_eq!(back.subject_id, c.subject_id);
    assert_eq!(back.nonce, c.nonce);
    assert_eq!(back.purpose, c.purpose);
    assert_eq!(back.expires_at, c.expires_at);
}

#[test]
fn empty_fields_round_trip() {
    let c = Claims {
        subject_id: Vec::new(),
        nonce: Vec::new(),
        purpose: Purpose::EmailConfirmation,
        expires_at: 0,
    };
    let encoded = encode_claims(&c);
    assert_eq!(encoded.len(), 50);
    let back = decode_claims(&encoded).expect("an encoded payload decodes");
    assert!(back.subject_id.is_empty());
    assert!(back.nonce.is_empty());
    assert_eq!(back.expires_at, 0);
}

#[test]
fn largest_fields_round_trip() {
    let c = Claims {
        subject_id: vec![b'x'; 0xFFFF],
        nonce: vec![b'y'; 0xFFFF],
        purpose: Purpose::PasswordReset,
        expires_at: 1,
    };
    let encoded = encode_claims(&c);
    assert_eq!(encoded.len(), 50 + 2 * 0xFFFF + 2 * 0xFFFF);
    let back = decode_claims(&encoded).expect("an encoded payload decodes");
    assert_eq!(back.subject_id.len(), 0xFFFF);
    assert_eq!(back.nonce.len(), 0xFFFF);
}

#[test]
fn malformed_payloads_are_rejected() {
    let good = encode_claims(&sample_claims());

    // Too short.
    assert!(decode_claims(&good[..49].to_vec()).is_none());
    // Wrong version byte.
    let mut wrong_version = good.clone();
    wrong_version[0] = b'2';
    assert!(decode_claims(&wrong_version).is_none());
    // Unknown purpose tag.
    let mut wrong_purpose = good.clone();
    wrong_purpose[1] = b'q';
    assert!(decode_claims(&wrong_purpose).is_none());
    // A non-hexadecimal digit in the expiry.
    let mut bad_digit = good.clone();
    bad_digit[2] = b'g';
    assert!(decode_claims(&bad_digit).is_none());
    // An uppercase digit is not accepted either.
    let mut upper_digit = good.clone();
    upper_digit[2] = b'A';
    assert!(decode_claims(&upper_digit).is_none());
    // Trailing bytes after the nonce.
    let mut trailing = good.clone();
    trailing.push(b'a');
    trailing.push(b'a');
    assert!(decode_claims(&trailing).is_none());
    // A subject length field that overruns the payload.
    let mut huge_subject = good.clone();
    for b in &mut huge_subject[18..34] {
        *b = b'f';
    }
    assert!(decode_claims(&huge_subject).is_none());
    // The untouched payload still decodes.
    assert!(decode_claims(&good).is_some());
}

#[test]
fn purpose_tags_are_the_documented_bytes() {
    assert_eq!(Purpose::EmailConfirmation.tag(), b'e');
    assert_eq!(Purpose::PasswordReset.tag(), b'p');
    assert_eq!(Purpose::of_tag(b'e'), Some(Purpose::EmailConfirmation));
    assert_eq!(Purpose::of_tag(b'p'), Some(Purpose::PasswordReset));
    assert_eq!(Purpose::of_tag(b'x'), None);
}
