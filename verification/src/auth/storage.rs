//! The administrator store at rest: an AES-256-GCM ciphertext of the
//! store's JSON text, under a key derived from the machine's host name and
//! a fixed salt.

use vstd::prelude::*;
use vstd::string::StringSliceAdditionalSpecFns;
use aes_gcm::aead::{Aead, KeyInit};
use aes_gcm::{Aes256Gcm, Nonce};
use sha2::{Digest, Sha256};

verus! {

/// The file that holds the sealed store.
pub const AUTH_CONFIG_FILE: &'static str = "apollo_auth.enc";

/// The salt that goes into the key after the host name.
pub const KEY_SALT: &'static str = "APOLLO-AUTH-CONFIG-SALT-V1-2025";

/// The nonce under which the store is sealed.
pub const NONCE: &'static str = "unique nonce";

/// The error type of the AEAD ciphers. It has no contents.
#[verifier::external_type_specification]
#[verifier::external_body]
pub struct ExAeadError(aes_gcm::Error);

/// The SHA-256 digest of a byte string, as `sha2::Sha256` computes it.
pub uninterp spec fn sha256_digest(data: Seq<u8>) -> Seq<u8>;

/// What `Aes256Gcm::encrypt` gives for a key, a nonce and a plaintext
/// without associated data: the ciphertext with its tag, or nothing where
/// the cipher refuses the plaintext for its length.
pub uninterp spec fn aes_gcm_sealed(key: Seq<u8>, nonce: Seq<u8>, plaintext: Seq<u8>) -> Option<Seq<u8>>;

/// What `Aes256Gcm::decrypt` gives for a key, a nonce and a ciphertext
/// without associated data: the plaintext, or nothing where the tag does
/// not fit.
pub uninterp spec fn aes_gcm_opened(key: Seq<u8>, nonce: Seq<u8>, ciphertext: Seq<u8>) -> Option<Seq<u8>>;

/// Why sealing or opening the store failed.
#[derive(Clone, Copy, Debug, PartialEq, Eq, Structural)]
pub enum StorageError {
    /// The cipher refused to encrypt.
    EncryptionFailed,
    /// The ciphertext is not one that was sealed under this key.
    DecryptionFailed,
}

/// The SHA-256 digest of `data`, by `sha2::Sha256::digest`.
#[verifier::external_body]
fn sha256(data: &[u8]) -> (digest: [u8; 32])
    ensures
        digest@ == sha256_digest(data@),
{
    Sha256::digest(data).into()
}

/// The machine's host name as bytes, by `hostname::get`, read leniently as
/// UTF-8; nothing where the system does not tell. It depends on the
/// machine, so nothing is claimed of it.
#[verifier::external_body]
fn system_hostname() -> (name: Option<Vec<u8>>) {
    match hostname::get() {
        Ok(name) => Some(name.to_string_lossy().as_bytes().to_vec()),
        Err(_) => None,
    }
}

/// Encrypts `plaintext` by `Aes256Gcm::encrypt` under `key` and `nonce`.
#[verifier::external_body]
fn aes_encrypt(key: &[u8; 32], nonce: &[u8; 12], plaintext: &[u8]) -> (sealed: Result<Vec<u8>, aes_gcm::Error>)
    ensures
        match sealed {
            Ok(c) => aes_gcm_sealed(key@, nonce@, plaintext@) == Some(c@),
            Err(_) => aes_gcm_sealed(key@, nonce@, plaintext@) is None,
        },
{
    Aes256Gcm::new(key.into()).encrypt(Nonce::from_slice(nonce), plaintext)
}

/// Decrypts `ciphertext` by `Aes256Gcm::decrypt` under `key` and `nonce`.
#[verifier::external_body]
fn aes_decrypt(key: &[u8; 32], nonce: &[u8; 12], ciphertext: &[u8]) -> (opened: Result<Vec<u8>, aes_gcm::Error>)
    ensures
        match opened {
            Ok(p) => aes_gcm_opened(key@, nonce@, ciphertext@) == Some(p@),
            Err(_) => aes_gcm_opened(key@, nonce@, ciphertext@) is None,
        },
{
    Aes256Gcm::new(key.into()).decrypt(Nonce::from_slice(nonce), ciphertext)
}

/// Whether the sealed store exists on disk, by `Path::exists`. It depends
/// on the disk, so nothing is claimed of it.
#[verifier::external_body]
pub fn config_exists() -> (exists: bool) {
    std::path::Path::new(AUTH_CONFIG_FILE).exists()
}

/// What is hashed into the key: the host name, if the system told one,
/// followed by the salt.
pub open spec fn key_material(hostname: Option<Seq<u8>>) -> Seq<u8> {
    match hostname {
        Some(h) => h + KEY_SALT.spec_bytes(),
        None => KEY_SALT.spec_bytes(),
    }
}

/// The key for a machine of the given host name: the SHA-256 digest of the
/// host name followed by the salt. Without a host name the salt alone is
/// hashed.
pub fn derive_key(hostname: Option<&Vec<u8>>) -> (key: [u8; 32])
    ensures
        key@ == sha256_digest(key_material(match hostname {
            Some(h) => Some(h@),
            None => None,
        })),
{
    let mut material: Vec<u8> = Vec::new();
    match hostname {
        Some(h) => {
            let n = h.len();
            let mut i: usize = 0;
            while i < n
                invariant
                    n == h@.len(),
                    i <= n,
                    material@ == h@.take(i as int),
                decreases n - i,
            {
                material.push(h[i]);
                assert(h@.take(i + 1) =~= h@.take(i as int).push(h@[i as int]));
                i = i + 1;
            }
            assert(h@.take(n as int) =~= h@);
        },
        None => {},
    }
    let salt = KEY_SALT.as_bytes_vec();
    let ghost head = material@;
    let n = salt.len();
    let mut i: usize = 0;
    assert(salt@.take(0) =~= Seq::<u8>::empty());
    assert(head + Seq::<u8>::empty() =~= head);
    while i < n
        invariant
            n == salt@.len(),
            i <= n,
            material@ == head + salt@.take(i as int),
        decreases n - i,
    {
        material.push(salt[i]);
        assert(head + salt@.take(i + 1) =~= (head + salt@.take(i as int)).push(salt@[i as int]));
        i = i + 1;
    }
    assert(salt@.take(n as int) =~= salt@);
    sha256(material.as_slice())
}

/// The key of this machine.
pub fn get_encryption_key() -> (key: [u8; 32])
    ensures
        exists|hostname: Option<Seq<u8>>| key@ == sha256_digest(key_material(hostname)),
{
    let name = system_hostname();
    let key = derive_key(name.as_ref());
    proof {
        let witness: Option<Seq<u8>> = match name {
            Some(h) => Some(h@),
            None => None,
        };
        assert(key@ == sha256_digest(key_material(witness)));
    }
    key
}

/// The nonce as the twelve bytes that the cipher takes.
fn nonce_bytes() -> (nonce: [u8; 12])
    ensures
        nonce@ == NONCE.spec_bytes(),
{
    let bytes = NONCE.as_bytes_vec();
    proof {
        reveal_strlit("unique nonce");
        vstd::string::is_ascii_spec_bytes(NONCE);
    }
    assert(NONCE@.len() == 12);
    assert(bytes@.len() == 12);
    let nonce: [u8; 12] = [
        bytes[0],
        bytes[1],
        bytes[2],
        bytes[3],
        bytes[4],
        bytes[5],
        bytes[6],
        bytes[7],
        bytes[8],
        bytes[9],
        bytes[10],
        bytes[11],
    ];
    assert(nonce@ =~= bytes@);
    nonce
}

/// Seals the store's JSON text under `key`.
pub fn seal(key: &[u8; 32], plaintext: &[u8]) -> (sealed: Result<Vec<u8>, StorageError>)
    ensures
        match sealed {
            Ok(c) => aes_gcm_sealed(key@, NONCE.spec_bytes(), plaintext@) == Some(c@),
            Err(e) => e == StorageError::EncryptionFailed && aes_gcm_sealed(
                key@,
                NONCE.spec_bytes(),
                plaintext@,
            ) is None,
        },
{
    let nonce = nonce_bytes();
    match aes_encrypt(key, &nonce, plaintext) {
        Ok(c) => Ok(c),
        Err(_) => Err(StorageError::EncryptionFailed),
    }
}

/// Opens a sealed store under `key` and gives its JSON text.
pub fn open(key: &[u8; 32], ciphertext: &[u8]) -> (opened: Result<Vec<u8>, StorageError>)
    ensures
        match opened {
            Ok(p) => aes_gcm_opened(key@, NONCE.spec_bytes(), ciphertext@) == Some(p@),
            Err(e) => e == StorageError::DecryptionFailed && aes_gcm_opened(
                key@,
                NONCE.spec_bytes(),
                ciphertext@,
            ) is None,
        },
{
    let nonce = nonce_bytes();
    match aes_decrypt(key, &nonce, ciphertext) {
        Ok(p) => Ok(p),
        Err(_) => Err(StorageError::DecryptionFailed),
    }
}

} // verus!
