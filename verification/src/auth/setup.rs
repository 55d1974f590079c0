//! The checks of the setup wizard. The wizard asks for two administrators;
//! each needs a full name and a username that are not empty, and a password
//! of at least eight characters, typed twice. It refuses to go on at the
//! first entry that fails.

use vstd::prelude::*;
use crate::auth::types::{
    Administrator, AdministratorView, AuthConfig, AuthConfigView, bcrypt_verify, utc_timestamp,
};
use crate::keyed::lemma_key_index_unique;
use crate::text::{same_text, trim_text, trimmed};

verus! {

/// The least number of characters of a password.
pub const MIN_PASSWORD_LENGTH: usize = 8;

/// Why the setup wizard refuses to go on.
#[derive(Clone, Copy, Debug, PartialEq, Eq, Structural)]
pub enum SetupError {
    /// The full name is empty once trimmed.
    EmptyFullName,
    /// The username is empty once trimmed.
    EmptyUsername,
    /// The password and its confirmation differ.
    PasswordMismatch,
    /// The password has fewer than eight characters.
    PasswordTooShort,
    /// The password could not be hashed.
    HashFailed,
    /// Both administrators have the same username.
    DuplicateUsername,
}

impl SetupError {
    /// The text that tells the administrator what went wrong.
    pub fn message(&self) -> (text: &'static str)
        ensures
            text@ == match *self {
                SetupError::EmptyFullName => "Full name cannot be empty"@,
                SetupError::EmptyUsername => "Username cannot be empty"@,
                SetupError::PasswordMismatch => "Passwords do not match"@,
                SetupError::PasswordTooShort => "Password must be at least 8 characters"@,
                SetupError::HashFailed => "Password could not be hashed"@,
                SetupError::DuplicateUsername => "Usernames must differ"@,
            },
    {
        match self {
            SetupError::EmptyFullName => "Full name cannot be empty",
            SetupError::EmptyUsername => "Username cannot be empty",
            SetupError::PasswordMismatch => "Passwords do not match",
            SetupError::PasswordTooShort => "Password must be at least 8 characters",
            SetupError::HashFailed => "Password could not be hashed",
            SetupError::DuplicateUsername => "Usernames must differ",
        }
    }
}

/// The full name as typed, trimmed; it must not be empty then.
pub fn check_full_name(typed: &str) -> (name: Result<String, SetupError>)
    ensures
        match name {
            Ok(n) => n@ == trimmed(typed@) && n@.len() > 0,
            Err(e) => e == SetupError::EmptyFullName && trimmed(typed@).len() == 0,
        },
{
    let name = trim_text(typed);
    if name.as_str().is_empty() {
        Err(SetupError::EmptyFullName)
    } else {
        Ok(name)
    }
}

/// The username as typed, trimmed; it must not be empty then.
pub fn check_username(typed: &str) -> (name: Result<String, SetupError>)
    ensures
        match name {
            Ok(n) => n@ == trimmed(typed@) && n@.len() > 0,
            Err(e) => e == SetupError::EmptyUsername && trimmed(typed@).len() == 0,
        },
{
    let name = trim_text(typed);
    if name.as_str().is_empty() {
        Err(SetupError::EmptyUsername)
    } else {
        Ok(name)
    }
}

/// What is wrong with a password and its confirmation, if anything: a
/// difference between the two first, then a password that is too short.
pub open spec fn password_problem(password: Seq<char>, confirm: Seq<char>) -> Option<SetupError> {
    if password != confirm {
        Some(SetupError::PasswordMismatch)
    } else if password.len() < MIN_PASSWORD_LENGTH {
        Some(SetupError::PasswordTooShort)
    } else {
        None
    }
}

/// Checks a password against its confirmation and the least length.
pub fn check_password(password: &str, confirm: &str) -> (checked: Result<(), SetupError>)
    ensures
        match checked {
            Ok(_) => password_problem(password@, confirm@) is None,
            Err(e) => password_problem(password@, confirm@) == Some(e),
        },
{
    if !same_text(password, confirm) {
        Err(SetupError::PasswordMismatch)
    } else if password.unicode_len() < MIN_PASSWORD_LENGTH {
        Err(SetupError::PasswordTooShort)
    } else {
        Ok(())
    }
}

/// Hashes `password` by `bcrypt::hash` at the crate's default cost. The
/// salt is random, so the hash is not a function of the password; what
/// holds of every hash that comes back is that `bcrypt::verify` finds the
/// password to match it. Hashing fails only where the system has no random
/// bytes to give.
#[verifier::external_body]
fn bcrypt_hash(password: &str) -> (hash: Result<String, bcrypt::BcryptError>)
    ensures
        match hash {
            Ok(h) => bcrypt_verify(password@, h@) == Some(true),
            Err(_) => true,
        },
{
    bcrypt::hash(password, bcrypt::DEFAULT_COST)
}

/// The record of an administrator who has not logged in yet.
pub fn administrator_from(full_name: String, username: String, password_hash: String, created_at: String) -> (admin: Administrator)
    ensures
        admin@ == (AdministratorView {
            username: username@,
            password_hash: password_hash@,
            full_name: full_name@,
            created_at: created_at@,
            last_login: None,
        }),
{
    Administrator { username, password_hash, full_name, created_at, last_login: None }
}

/// Creates the record of a new administrator: the password is hashed and
/// the record is stamped with the current time. The record's hash matches
/// the password.
pub fn create_administrator(full_name: String, username: String, password: &str) -> (created: Result<Administrator, SetupError>)
    ensures
        match created {
            Ok(admin) => {
                &&& admin@.username == username@
                &&& admin@.full_name == full_name@
                &&& admin@.last_login is None
                &&& bcrypt_verify(password@, admin@.password_hash) == Some(true)
            },
            Err(e) => e == SetupError::HashFailed,
        },
{
    match bcrypt_hash(password) {
        Ok(hash) => Ok(administrator_from(full_name, username, hash, utc_timestamp())),
        Err(_) => Err(SetupError::HashFailed),
    }
}

/// What is wrong with the two records of a setup, if anything: an empty
/// username or full name, the first record's first, or the same username
/// twice.
pub open spec fn setup_problem(first: AdministratorView, second: AdministratorView) -> Option<SetupError> {
    if first.full_name.len() == 0 {
        Some(SetupError::EmptyFullName)
    } else if first.username.len() == 0 {
        Some(SetupError::EmptyUsername)
    } else if second.full_name.len() == 0 {
        Some(SetupError::EmptyFullName)
    } else if second.username.len() == 0 {
        Some(SetupError::EmptyUsername)
    } else if first.username == second.username {
        Some(SetupError::DuplicateUsername)
    } else {
        None
    }
}

/// The store that a setup leaves: the two administrators under their
/// usernames, and the default limits.
pub open spec fn setup_store(first: AdministratorView, second: AdministratorView) -> AuthConfigView {
    AuthConfigView {
        administrators: seq![(first.username, first), (second.username, second)],
        session_timeout_minutes: 60,
        max_failed_attempts: 5,
    }
}

/// Ends the setup: a store with exactly the two administrators, each valid
/// and under a username of its own.
pub fn complete_setup(first: Administrator, second: Administrator) -> (store: Result<AuthConfig, SetupError>)
    ensures
        match store {
            Ok(s) => {
                &&& setup_problem(first@, second@) is None
                &&& s.wf()
                &&& s@ == setup_store(first@, second@)
                &&& s@.administrators.len() == 2
                &&& first@.valid() && second@.valid()
            },
            Err(e) => setup_problem(first@, second@) == Some(e),
        },
{
    if first.full_name.as_str().is_empty() {
        return Err(SetupError::EmptyFullName);
    }
    if first.username.as_str().is_empty() {
        return Err(SetupError::EmptyUsername);
    }
    if second.full_name.as_str().is_empty() {
        return Err(SetupError::EmptyFullName);
    }
    if second.username.as_str().is_empty() {
        return Err(SetupError::EmptyUsername);
    }
    if first.username == second.username {
        return Err(SetupError::DuplicateUsername);
    }
    let mut store = AuthConfig::new();
    store.add_administrator(first);
    proof {
        let one = store@.administrators;
        assert(one =~= seq![(first@.username, first@)]);
        if crate::keyed::has_key(one, second@.username) {
            let i = crate::keyed::key_index(one, second@.username);
            assert(one[i].0 == second@.username);
        }
    }
    store.add_administrator(second);
    proof {
        assert(store@.administrators =~= seq![
            (first@.username, first@),
            (second@.username, second@),
        ]);
    }
    Ok(store)
}

/// After a setup, each of the two administrators is let in with the
/// password that the record's hash was made from.
pub proof fn lemma_setup_lets_both_in(first: AdministratorView, second: AdministratorView, first_password: Seq<char>, second_password: Seq<char>)
    requires
        setup_problem(first, second) is None,
        bcrypt_verify(first_password, first.password_hash) == Some(true),
        bcrypt_verify(second_password, second.password_hash) == Some(true),
    ensures
        crate::auth::types::accepts(setup_store(first, second), first.username, first_password),
        crate::auth::types::accepts(setup_store(first, second), second.username, second_password),
{
    let m = setup_store(first, second).administrators;
    assert(crate::keyed::distinct_keys(m));
    lemma_key_index_unique(m, 0);
    lemma_key_index_unique(m, 1);
}

} // verus!
