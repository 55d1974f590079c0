use apollo::auth::setup::{
    administrator_from, check_full_name, check_password, check_username, complete_setup,
    create_administrator, MIN_PASSWORD_LENGTH,
};
use apollo::auth::storage::{derive_key, get_encryption_key, open, seal, StorageError, KEY_SALT};
use apollo::auth::types::{credential_verdict, DUMMY_HASH};
use apollo::auth::{AuthConfig, SetupError};
use sha2::{Digest, Sha256};
use std::time::Instant;

fn s(text: &str) -> String {
    text.to_string()
}

const KNOWN_HASH: &str = "$2y$05$bvIG6Nmid91Mu9RcmmWZfO5HJIMCT8riNW0hEp8f6/FuA2/mHZFpe";

fn store_with_alice() -> AuthConfig {
    let mut store = AuthConfig::new();
    store.add_administrator(administrator_from(s("Alice A"), s("alice"), s(KNOWN_HASH), s("then")));
    store
}

#[test]
fn new_store_has_the_default_limits() {
    let store = AuthConfig::new();
    assert!(store.administrators.is_empty());
    assert_eq!(store.session_timeout_minutes, 60);
    assert_eq!(store.max_failed_attempts, 5);
}

#[test]
fn administrators_are_stored_under_their_username() {
    let mut store = store_with_alice();
    assert_eq!(store.administrators.len(), 1);
    assert_eq!(store.administrators.get("alice").unwrap().full_name, "Alice A");
    store.add_administrator(administrator_from(s("Other"), s("alice"), s("h"), s("now")));
    assert_eq!(store.administrators.len(), 1);
    assert_eq!(store.administrators.get("alice").unwrap().full_name, "Other");
    assert_eq!(store.administrators.get("alice").unwrap().last_login, None);
}

#[test]
fn known_hash_accepts_its_password_only() {
    let store = store_with_alice();
    assert!(store.verify_credentials("alice", "password"));
    assert!(!store.verify_credentials("alice", "Password"));
    assert!(!store.verify_credentials("alice", ""));
    assert!(!store.verify_credentials("Alice", "password"));
}

#[test]
fn malformed_hash_accepts_nothing() {
    let mut store = AuthConfig::new();
    store.add_administrator(administrator_from(s("Bob"), s("bob"), s("password"), s("then")));
    assert!(!store.verify_credentials("bob", "password"));
    assert!(!store.verify_credentials("bob", ""));
}

#[test]
fn only_a_definite_match_lets_in() {
    assert!(credential_verdict(Some(true)));
    assert!(!credential_verdict(Some(false)));
    assert!(!credential_verdict(None));
}

#[test]
fn unknown_user_is_refused() {
    let store = store_with_alice();
    assert!(!store.verify_credentials("mallory", "password"));
    assert!(!AuthConfig::new().verify_credentials("", ""));
}

#[test]
fn dummy_hash_is_a_bcrypt_hash_at_the_default_cost() {
    assert_eq!(DUMMY_HASH.len(), 60);
    assert!(DUMMY_HASH.starts_with("$2a$12$"));
    assert_eq!(bcrypt::DEFAULT_COST, 12);
    assert!(matches!(bcrypt::verify("anything", DUMMY_HASH), Ok(false)));
}

#[test]
fn refusing_an_unknown_user_takes_as_long_as_a_wrong_password() {
    let admin = create_administrator(s("Carol C"), s("carol"), "correct horse").unwrap();
    let mut store = AuthConfig::new();
    store.add_administrator(admin);
    let start = Instant::now();
    assert!(!store.verify_credentials("carol", "wrong horse"));
    let known = start.elapsed();
    let start = Instant::now();
    assert!(!store.verify_credentials("nobody", "wrong horse"));
    let unknown = start.elapsed();
    assert!(unknown.as_nanos() * 10 >= known.as_nanos());
    assert!(known.as_nanos() * 10 >= unknown.as_nanos());
}

#[test]
fn created_administrator_is_let_in_with_the_password() {
    let admin = create_administrator(s("Dave D"), s("dave"), "hunter2hunter2").unwrap();
    assert_eq!(admin.username, "dave");
    assert_eq!(admin.full_name, "Dave D");
    assert_eq!(admin.last_login, None);
    assert!(admin.password_hash.starts_with("$2"));
    assert_ne!(admin.password_hash, "hunter2hunter2");
    assert!(!admin.created_at.is_empty());
    let mut store = AuthConfig::new();
    store.add_administrator(admin);
    assert!(store.verify_credentials("dave", "hunter2hunter2"));
}

#[test]
fn login_stamps_the_last_login() {
    let mut store = store_with_alice();
    assert!(!store.login("alice", "wrong"));
    assert_eq!(store.administrators.get("alice").unwrap().last_login, None);
    assert!(!store.login("nobody", "password"));
    assert!(store.login("alice", "password"));
    let stamp = store.administrators.get("alice").unwrap().last_login.clone().unwrap();
    assert!(stamp.contains('T'));
    assert_eq!(store.administrators.get("alice").unwrap().full_name, "Alice A");
    assert_eq!(store.administrators.get("alice").unwrap().password_hash, KNOWN_HASH);
}

#[test]
fn last_login_of_an_unknown_user_changes_nothing() {
    let mut store = store_with_alice();
    store.update_last_login("nobody");
    assert_eq!(store.administrators.len(), 1);
    assert_eq!(store.administrators.get("alice").unwrap().last_login, None);
    assert!(!store.stamp_last_login("nobody", s("2025")));
    assert!(store.stamp_last_login("alice", s("2025")));
    assert_eq!(store.administrators.get("alice").unwrap().last_login, Some(s("2025")));
    store.update_last_login("alice");
    assert_ne!(store.administrators.get("alice").unwrap().last_login, Some(s("2025")));
}

#[test]
fn names_are_trimmed_and_must_not_be_empty() {
    assert_eq!(check_full_name("  Ada Lovelace \n"), Ok(s("Ada Lovelace")));
    assert_eq!(check_full_name("\n"), Err(SetupError::EmptyFullName));
    assert_eq!(check_full_name(""), Err(SetupError::EmptyFullName));
    assert_eq!(check_full_name(" \t \u{a0}\u{3000} "), Err(SetupError::EmptyFullName));
    assert_eq!(check_username("ada\r\n"), Ok(s("ada")));
    assert_eq!(check_username("   "), Err(SetupError::EmptyUsername));
    assert_eq!(check_username(" a b "), Ok(s("a b")));
}

#[test]
fn password_must_match_and_have_eight_characters() {
    assert_eq!(MIN_PASSWORD_LENGTH, 8);
    assert_eq!(check_password("12345678", "12345678"), Ok(()));
    assert_eq!(check_password("1234567", "1234567"), Err(SetupError::PasswordTooShort));
    assert_eq!(check_password("", ""), Err(SetupError::PasswordTooShort));
    assert_eq!(check_password("12345678", "12345679"), Err(SetupError::PasswordMismatch));
    assert_eq!(check_password("short", "other"), Err(SetupError::PasswordMismatch));
    assert_eq!(check_password("pässwör", "pässwör"), Err(SetupError::PasswordTooShort));
    assert_eq!(check_password("pässwörd", "pässwörd"), Ok(()));
}

#[test]
fn setup_errors_say_what_went_wrong() {
    assert_eq!(SetupError::EmptyFullName.message(), "Full name cannot be empty");
    assert_eq!(SetupError::EmptyUsername.message(), "Username cannot be empty");
    assert_eq!(SetupError::PasswordMismatch.message(), "Passwords do not match");
    assert_eq!(
        SetupError::PasswordTooShort.message(),
        "Password must be at least 8 characters"
    );
    assert!(!SetupError::HashFailed.message().is_empty());
    assert!(!SetupError::DuplicateUsername.message().is_empty());
}

#[test]
fn setup_leaves_two_administrators() {
    let first = administrator_from(s("Ada"), s("ada"), s(KNOWN_HASH), s("t"));
    let second = administrator_from(s("Bob"), s("bob"), s(KNOWN_HASH), s("t"));
    let store = complete_setup(first, second).unwrap();
    assert_eq!(store.administrators.len(), 2);
    assert_eq!(store.administrators.key_at(0), "ada");
    assert_eq!(store.administrators.key_at(1), "bob");
    assert_eq!(store.session_timeout_minutes, 60);
    assert_eq!(store.max_failed_attempts, 5);
    assert!(store.verify_credentials("ada", "password"));
    assert!(store.verify_credentials("bob", "password"));
    assert!(!store.verify_credentials("bob", "Password"));
    assert!(!store.verify_credentials("eve", "password"));
}

#[test]
fn setup_refuses_invalid_or_equal_administrators() {
    let admin = |name: &str, user: &str| administrator_from(s(name), s(user), s(KNOWN_HASH), s("t"));
    assert_eq!(
        complete_setup(admin("", "a"), admin("B", "b")).err(),
        Some(SetupError::EmptyFullName)
    );
    assert_eq!(
        complete_setup(admin("A", ""), admin("B", "b")).err(),
        Some(SetupError::EmptyUsername)
    );
    assert_eq!(
        complete_setup(admin("A", "a"), admin("", "b")).err(),
        Some(SetupError::EmptyFullName)
    );
    assert_eq!(
        complete_setup(admin("A", "a"), admin("B", "")).err(),
        Some(SetupError::EmptyUsername)
    );
    assert_eq!(
        complete_setup(admin("A", "same"), admin("B", "same")).err(),
        Some(SetupError::DuplicateUsername)
    );
}

#[test]
fn key_is_the_digest_of_host_name_and_salt() {
    assert_eq!(KEY_SALT, "APOLLO-AUTH-CONFIG-SALT-V1-2025");
    let host = b"mainframe".to_vec();
    let mut hasher = Sha256::new();
    hasher.update(b"mainframe");
    hasher.update(b"APOLLO-AUTH-CONFIG-SALT-V1-2025");
    let expected: [u8; 32] = hasher.finalize().into();
    assert_eq!(derive_key(Some(&host)), expected);
    let salt_only: [u8; 32] = Sha256::digest(b"APOLLO-AUTH-CONFIG-SALT-V1-2025").into();
    assert_eq!(derive_key(None), salt_only);
    assert_eq!(derive_key(Some(&Vec::new())), salt_only);
    assert_ne!(expected, salt_only);
    assert_eq!(
        salt_only[..4],
        Sha256::digest(KEY_SALT.as_bytes())[..4]
    );
}

#[test]
fn machine_key_is_stable() {
    assert_eq!(get_encryption_key(), get_encryption_key());
}

#[test]
fn sealed_store_opens_under_the_same_key_only() {
    let key = derive_key(Some(&b"host-a".to_vec()));
    let other = derive_key(Some(&b"host-b".to_vec()));
    let text = b"{\n  \"administrators\": {}\n}".to_vec();
    let sealed = seal(&key, &text).unwrap();
    assert_eq!(sealed.len(), text.len() + 16);
    assert_ne!(&sealed[..text.len()], &text[..]);
    assert_eq!(open(&key, &sealed), Ok(text.clone()));
    assert_eq!(open(&other, &sealed), Err(StorageError::DecryptionFailed));
    assert_eq!(seal(&key, &text).unwrap(), sealed);
}

#[test]
fn tampered_store_does_not_open() {
    let key = derive_key(None);
    let mut sealed = seal(&key, b"secret").unwrap();
    sealed[0] ^= 1;
    assert_eq!(open(&key, &sealed), Err(StorageError::DecryptionFailed));
    assert_eq!(open(&key, b"short"), Err(StorageError::DecryptionFailed));
    assert_eq!(open(&key, b""), Err(StorageError::DecryptionFailed));
    let empty = seal(&key, b"").unwrap();
    assert_eq!(empty.len(), 16);
    assert_eq!(open(&key, &empty), Ok(Vec::new()));
}
