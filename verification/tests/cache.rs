//! The store of unconsumed nonces: records count until their deadline and
//! are consumed exactly once.

use authenticator::tokens::cache::{bytes_eq, TokenCache};

#[test]
fn a_record_is_consumed_exactly_once() {
    let mut cache = TokenCache::new();
    cache.set(b"e:nonce-1".to_vec(), 1_000);
    assert!(cache.check_and_delete(&b"e:nonce-1".to_vec(), 999));
    assert!(!cache.check_and_delete(&b"e:nonce-1".to_vec(), 999));
}

#[test]
fn a_record_stops_counting_at_its_deadline() {
    let mut cache = TokenCache::new();
    cache.set(b"e:nonce-1".to_vec(), 1_000);
    assert!(!cache.check_and_delete(&b"e:nonce-1".to_vec(), 1_000));
    let mut cache = TokenCache::new();
    cache.set(b"e:nonce-1".to_vec(), 1_000);
    assert!(!cache.check_and_delete(&b"e:nonce-1".to_vec(), 2_000));
}

#[test]
fn an_absent_key_reports_nothing() {
    let mut cache = TokenCache::new();
    assert!(!cache.check_and_delete(&b"e:never-issued".to_vec(), 0));
}

#[test]
fn setting_a_key_again_replaces_its_deadline() {
    let mut cache = TokenCache::new();
    cache.set(b"e:nonce-1".to_vec(), 1_000);
    cache.set(b"e:nonce-1".to_vec(), 5_000);
    assert!(cache.check_and_delete(&b"e:nonce-1".to_vec(), 4_000));
}

#[test]
fn keys_do_not_interfere() {
    let mut cache = TokenCache::new();
    cache.set(b"e:nonce-1".to_vec(), 1_000);
    cache.set(b"p:nonce-1".to_vec(), 1_000);
    cache.set(b"e:nonce-2".to_vec(), 1_000);
    assert!(cache.check_and_delete(&b"e:nonce-1".to_vec(), 0));
    assert!(cache.check_and_delete(&b"p:nonce-1".to_vec(), 0));
    assert!(cache.check_and_delete(&b"e:nonce-2".to_vec(), 0));
    assert!(!cache.check_and_delete(&b"e:nonce-1".to_vec(), 0));
}

#[test]
fn byte_strings_compare_by_contents() {
    assert!(bytes_eq(&b"abc".to_vec(), &b"abc".to_vec()));
    assert!(!bytes_eq(&b"abc".to_vec(), &b"abd".to_vec()));
    assert!(!bytes_eq(&b"abc".to_vec(), &b"ab".to_vec()));
    assert!(bytes_eq(&Vec::new(), &Vec::new()));
}
