//! Administrator records and the store that holds them by username.
//! Passwords are kept as bcrypt hashes only.

use vstd::prelude::*;
use crate::keyed::{KeyedTable, has_key, lemma_key_index_unique, lookup, with_entry};

verus! {

/// The error type of the bcrypt crate. Nothing of its contents is read.
#[verifier::external_type_specification]
#[verifier::external_body]
pub struct ExBcryptError(bcrypt::BcryptError);

/// What `bcrypt::verify` answers for a password and a stored hash: whether
/// the password matches, or nothing where the hash is not a well-formed
/// bcrypt hash with an accepted cost.
pub uninterp spec fn bcrypt_verify(password: Seq<char>, hash: Seq<char>) -> Option<bool>;

/// Compares `password` with `hash` by `bcrypt::verify`. The answer depends
/// on the two texts alone.
#[verifier::external_body]
fn bcrypt_check(password: &str, hash: &str) -> (outcome: Result<bool, bcrypt::BcryptError>)
    ensures
        match outcome {
            Ok(b) => bcrypt_verify(password@, hash@) == Some(b),
            Err(_) => bcrypt_verify(password@, hash@) is None,
        },
{
    bcrypt::verify(password, hash)
}

/// The current time in UTC as RFC 3339 text, from `chrono::Utc::now` and
/// `DateTime::to_rfc3339`. It depends on the clock, so nothing is claimed
/// of it.
#[verifier::external_body]
pub(crate) fn utc_timestamp() -> (stamp: String) {
    chrono::Utc::now().to_rfc3339()
}

/// A well-formed bcrypt hash at the default cost that stands in for the
/// hash of an unknown user, so that refusing an unknown user costs one
/// bcrypt computation, as refusing a wrong password does.
pub const DUMMY_HASH: &'static str = "$2a$12$R9h/cIPz0gi.URNNX3kh2OPST9/PgBkqquzi.Ss7KIUgO2t0jWMUW";

/// The idle time, in minutes, after which a console session ends, unless a
/// store says otherwise.
pub const DEFAULT_SESSION_TIMEOUT_MINUTES: u64 = 60;

/// The failed logins that a store allows, unless it says otherwise.
pub const DEFAULT_MAX_FAILED_ATTEMPTS: u32 = 5;

/// One administrator.
#[derive(Debug)]
pub struct Administrator {
    pub username: String,
    pub password_hash: String,
    pub full_name: String,
    pub created_at: String,
    pub last_login: Option<String>,
}

/// An administrator as plain values.
pub struct AdministratorView {
    pub username: Seq<char>,
    pub password_hash: Seq<char>,
    pub full_name: Seq<char>,
    pub created_at: Seq<char>,
    pub last_login: Option<Seq<char>>,
}

impl View for Administrator {
    type V = AdministratorView;

    open spec fn view(&self) -> AdministratorView {
        AdministratorView {
            username: self.username@,
            password_hash: self.password_hash@,
            full_name: self.full_name@,
            created_at: self.created_at@,
            last_login: match self.last_login {
                Some(s) => Some(s@),
                None => None,
            },
        }
    }
}

impl Clone for Administrator {
    fn clone(&self) -> (copy: Self)
        ensures
            copy@ == self@,
    {
        Administrator {
            username: self.username.clone(),
            password_hash: self.password_hash.clone(),
            full_name: self.full_name.clone(),
            created_at: self.created_at.clone(),
            last_login: match &self.last_login {
                Some(s) => Some(s.clone()),
                None => None,
            },
        }
    }
}

impl AdministratorView {
    /// A record is valid if neither its username nor its full name is
    /// empty.
    pub open spec fn valid(self) -> bool {
        self.username.len() > 0 && self.full_name.len() > 0
    }

    /// The record with its last login set to `stamp`.
    pub open spec fn logged_in_at(self, stamp: Seq<char>) -> Self {
        AdministratorView { last_login: Some(stamp), ..self }
    }
}

/// The administrator store.
#[derive(Debug, Clone)]
pub struct AuthConfig {
    pub administrators: KeyedTable<Administrator>,
    pub session_timeout_minutes: u64,
    pub max_failed_attempts: u32,
}

/// The administrator store as plain values.
pub struct AuthConfigView {
    pub administrators: Seq<(Seq<char>, AdministratorView)>,
    pub session_timeout_minutes: u64,
    pub max_failed_attempts: u32,
}

impl View for AuthConfig {
    type V = AuthConfigView;

    open spec fn view(&self) -> AuthConfigView {
        AuthConfigView {
            administrators: self.administrators@,
            session_timeout_minutes: self.session_timeout_minutes,
            max_failed_attempts: self.max_failed_attempts,
        }
    }
}

/// Whether the store accepts `password` for `username`: the user exists and
/// bcrypt finds that the password matches the stored hash.
pub open spec fn accepts(store: AuthConfigView, username: Seq<char>, password: Seq<char>) -> bool {
    match lookup(store.administrators, username) {
        Some(admin) => bcrypt_verify(password, admin.password_hash) == Some(true),
        None => false,
    }
}

/// What a bcrypt comparison means for a login: only a definite match lets
/// the user in.
pub fn credential_verdict(outcome: Option<bool>) -> (accepted: bool)
    ensures
        accepted == (outcome == Some(true)),
{
    match outcome {
        Some(b) => b,
        None => false,
    }
}

/// The bcrypt comparison of `password` with `hash`, with a failed
/// comparison as no answer.
fn compare(password: &str, hash: &str) -> (outcome: Option<bool>)
    ensures
        outcome == bcrypt_verify(password@, hash@),
{
    match bcrypt_check(password, hash) {
        Ok(b) => Some(b),
        Err(_) => None,
    }
}

impl AuthConfig {
    /// No username occurs twice.
    pub open spec fn wf(&self) -> bool {
        self.administrators.wf()
    }

    /// A store without administrators, with the default limits.
    pub fn new() -> (store: Self)
        ensures
            store.wf(),
            store@.administrators == Seq::<(Seq<char>, AdministratorView)>::empty(),
            store@.session_timeout_minutes == 60,
            store@.max_failed_attempts == 5,
    {
        AuthConfig {
            administrators: KeyedTable::new(),
            session_timeout_minutes: DEFAULT_SESSION_TIMEOUT_MINUTES,
            max_failed_attempts: DEFAULT_MAX_FAILED_ATTEMPTS,
        }
    }

    /// Stores `admin` under its username; a record that was there under
    /// that name is replaced.
    pub fn add_administrator(&mut self, admin: Administrator)
        requires
            old(self).wf(),
        ensures
            final(self).wf(),
            final(self)@ == (AuthConfigView {
                administrators: with_entry(old(self)@.administrators, admin@.username, admin@),
                ..old(self)@
            }),
    {
        let name = admin.username.clone();
        let _former = self.administrators.insert(name, admin);
    }

    /// Whether `password` is the password of `username`. For an unknown
    /// user the answer is no, after a bcrypt comparison against a dummy
    /// hash, so that the answer takes as long as for a known user.
    pub fn verify_credentials(&self, username: &str, password: &str) -> (accepted: bool)
        requires
            self.wf(),
        ensures
            accepted == accepts(self@, username@, password@),
    {
        match self.administrators.get(username) {
            Some(admin) => credential_verdict(compare(password, admin.password_hash.as_str())),
            None => {
                let _spent = compare(password, DUMMY_HASH);
                false
            },
        }
    }

    /// A login: checks the credentials and, if they are accepted, sets the
    /// user's last login to the current time. The store is not persisted
    /// here: that is left to the caller. A refused login changes nothing.
    pub fn login(&mut self, username: &str, password: &str) -> (accepted: bool)
        requires
            old(self).wf(),
        ensures
            final(self).wf(),
            accepted == accepts(old(self)@, username@, password@),
            !accepted ==> final(self)@ == old(self)@,
            accepted ==> {
                &&& lookup(old(self)@.administrators, username@) is Some
                &&& lookup(final(self)@.administrators, username@) is Some
                &&& lookup(final(self)@.administrators, username@).unwrap().last_login is Some
                &&& final(self)@ == (AuthConfigView {
                    administrators: with_entry(
                        old(self)@.administrators,
                        username@,
                        lookup(old(self)@.administrators, username@).unwrap().logged_in_at(
                            lookup(
                                final(self)@.administrators,
                                username@,
                            ).unwrap().last_login.unwrap(),
                        ),
                    ),
                    ..old(self)@
                })
            },
    {
        if self.verify_credentials(username, password) {
            self.update_last_login(username);
            true
        } else {
            false
        }
    }

    /// Sets the last login of `username` to `stamp`; says whether there is
    /// such a user. Without one nothing changes.
    pub fn stamp_last_login(&mut self, username: &str, stamp: String) -> (known: bool)
        requires
            old(self).wf(),
        ensures
            final(self).wf(),
            known == has_key(old(self)@.administrators, username@),
            final(self)@ == match lookup(old(self)@.administrators, username@) {
                Some(admin) => AuthConfigView {
                    administrators: with_entry(
                        old(self)@.administrators,
                        username@,
                        admin.logged_in_at(stamp@),
                    ),
                    ..old(self)@
                },
                None => old(self)@,
            },
    {
        proof {
            self.administrators.lemma_view();
        }
        let ghost before = self.administrators@;
        match self.administrators.position(username) {
            Some(i) => {
                let admin = self.administrators.value_at_mut(i);
                admin.last_login = Some(stamp);
                proof {
                    lemma_key_index_unique(before, i as int);
                    let a = before[i as int].1;
                    assert(self.administrators@ =~= with_entry(
                        before,
                        username@,
                        a.logged_in_at(stamp@),
                    ));
                }
                true
            },
            None => false,
        }
    }

    /// Sets the last login of `username` to the current time. Nothing
    /// changes for an unknown user. The store is not persisted here: that
    /// is left to the caller.
    pub fn update_last_login(&mut self, username: &str)
        requires
            old(self).wf(),
        ensures
            final(self).wf(),
            match lookup(old(self)@.administrators, username@) {
                Some(admin) => {
                    &&& lookup(final(self)@.administrators, username@) is Some
                    &&& lookup(final(self)@.administrators, username@).unwrap().last_login is Some
                    &&& final(self)@ == (AuthConfigView {
                        administrators: with_entry(
                            old(self)@.administrators,
                            username@,
                            admin.logged_in_at(
                                lookup(
                                    final(self)@.administrators,
                                    username@,
                                ).unwrap().last_login.unwrap(),
                            ),
                        ),
                        ..old(self)@
                    })
                },
                None => final(self)@ == old(self)@,
            },
    {
        proof {
            self.administrators.lemma_view();
        }
        let stamp = utc_timestamp();
        let ghost text = stamp@;
        let _known = self.stamp_last_login(username, stamp);
        proof {
            match lookup(old(self)@.administrators, username@) {
                Some(admin) => {
                    crate::keyed::lemma_with_entry(
                        old(self)@.administrators,
                        username@,
                        admin.logged_in_at(text),
                    );
                },
                None => {},
            }
        }
    }
}

} // verus!
