//! Key derivation and authenticated encryption for the password vault.
//!
//! PBKDF2-HMAC-SHA256 turns the master password into a key, and AES-256-GCM
//! seals each secret under that key with a fresh random nonce.

use vstd::prelude::*;
use vstd::utf8::{decode_utf8, valid_utf8};
use ring::aead::{Aad, LessSafeKey, Nonce, UnboundKey, AES_256_GCM};
use ring::rand::SecureRandom;

verus! {

/// PBKDF2 rounds used to derive a vault key.
pub const PBKDF2_ITERATIONS: u32 = 600_000;
/// Length of the salt, in bytes.
pub const SALT_LEN: usize = 32;
/// Length of an AES-GCM nonce, in bytes.
pub const NONCE_LEN: usize = 12;
/// Length of a derived key, in bytes.
pub const KEY_LEN: usize = 32;
/// Length of the authentication tag appended by sealing, in bytes.
pub const TAG_LEN: usize = 16;

/// The longest input that AES-GCM seals or opens, in bytes: GCM's bound of
/// 2^39 - 256 bits, that is 2^36 - 32 bytes.
pub const GCM_MAX_LEN: u64 = 0xF_FFFF_FFE0;

/// Inputs longer than this make SHA-256 refuse them (its length counter
/// holds the number of bits in 64 bits).
pub const SHA256_INPUT_LIMIT: u64 = 0x2000_0000_0000_0000;

/// The output of PBKDF2 with HMAC-SHA256 for the given round count, salt,
/// secret and output length.
pub uninterp spec fn pbkdf2_hmac_sha256(iterations: nat, salt: Seq<u8>, secret: Seq<u8>, out_len: nat) -> Seq<u8>;

/// The output of AES-256-GCM sealing (ciphertext followed by the tag) under
/// the given key and nonce, with no associated data.
pub uninterp spec fn aes_256_gcm_seal(key: Seq<u8>, nonce: Seq<u8>, plaintext: Seq<u8>) -> Seq<u8>;

/// The outcome of AES-256-GCM opening under the given key and nonce, with no
/// associated data: the plaintext, or none when authentication fails.
pub uninterp spec fn aes_256_gcm_open(key: Seq<u8>, nonce: Seq<u8>, sealed: Seq<u8>) -> Option<Seq<u8>>;

/// Calls `ring::pbkdf2::derive` with `PBKDF2_HMAC_SHA256` to fill a 32-byte
/// key. Claims only that the key is the named PBKDF2 output for these
/// arguments; `derive` panics when SHA-256 refuses an input as too long,
/// which the bounds rule out.
#[verifier::external_body]
fn pbkdf2_derive(iterations: u32, salt: &[u8], secret: &[u8]) -> (r: [u8; 32])
    requires
        iterations > 0,
        salt@.len() + 68 < SHA256_INPUT_LIMIT,
        secret@.len() < SHA256_INPUT_LIMIT,
    ensures
        r@ == pbkdf2_hmac_sha256(iterations as nat, salt@, secret@, 32),
{
    let mut key = [0u8; 32];
    let rounds = std::num::NonZeroU32::new(iterations).unwrap();
    ring::pbkdf2::derive(ring::pbkdf2::PBKDF2_HMAC_SHA256, rounds, salt, secret, &mut key);
    key
}

/// Fills `len` bytes from `ring::rand::SystemRandom`. The bytes are random:
/// only their number is claimed, and that `None` comes back when the system
/// source fails.
#[verifier::external_body]
fn system_random(len: usize) -> (r: Option<Vec<u8>>)
    ensures
        r matches Some(v) ==> v@.len() == len,
{
    let mut bytes = vec![0u8; len];
    ring::rand::SystemRandom::new().fill(&mut bytes).ok()?;
    Some(bytes)
}

/// Seals with `ring::aead::LessSafeKey::seal_in_place_append_tag` under an
/// AES-256-GCM key and a 12-byte nonce. Claims that sealing succeeds exactly
/// when the plaintext is no longer than GCM allows (the 32-byte key and the
/// 12-byte nonce are always accepted; only a longer input is refused), and
/// that the result is the named sealing output, the plaintext's length plus
/// the 16-byte tag.
#[verifier::external_body]
fn aead_seal(key: &[u8; 32], nonce: &[u8], plaintext: &[u8]) -> (r: Option<Vec<u8>>)
    requires
        nonce@.len() == NONCE_LEN,
    ensures
        r is Some <==> plaintext@.len() <= GCM_MAX_LEN,
        r matches Some(c) ==> c@ == aes_256_gcm_seal(key@, nonce@, plaintext@)
            && c@.len() == plaintext@.len() + TAG_LEN,
{
    let unbound = UnboundKey::new(&AES_256_GCM, key).ok()?;
    let n = Nonce::try_assume_unique_for_key(nonce).ok()?;
    let mut in_out = plaintext.to_vec();
    LessSafeKey::new(unbound).seal_in_place_append_tag(n, Aad::empty(), &mut in_out).ok()?;
    Some(in_out)
}

/// The bytes held by an optional vector.
pub open spec fn bytes_of(o: Option<Vec<u8>>) -> Option<Seq<u8>> {
    match o {
        Some(v) => Some(v@),
        None => None,
    }
}

/// Opens with `ring::aead::LessSafeKey::open_in_place` under an AES-256-GCM
/// key and a 12-byte nonce. Claims that the outcome is the named opening
/// outcome, and that opening what sealing produced under the same key and
/// nonce, from a plaintext no longer than GCM allows, gives the plaintext
/// back (the defining property of AEAD).
#[verifier::external_body]
fn aead_open(key: &[u8; 32], nonce: &[u8], sealed: &[u8]) -> (r: Option<Vec<u8>>)
    requires
        nonce@.len() == NONCE_LEN,
    ensures
        bytes_of(r) == aes_256_gcm_open(key@, nonce@, sealed@),
        forall|p: Seq<u8>| p.len() <= GCM_MAX_LEN && #[trigger] aes_256_gcm_seal(key@, nonce@, p) == sealed@
            ==> bytes_of(r) == Some(p),
{
    let unbound = UnboundKey::new(&AES_256_GCM, key).ok()?;
    let n = Nonce::try_assume_unique_for_key(nonce).ok()?;
    let mut in_out = sealed.to_vec();
    let plain = LessSafeKey::new(unbound).open_in_place(n, Aad::empty(), &mut in_out).ok()?;
    Some(plain.to_vec())
}

/// Decodes bytes as UTF-8 text with `String::from_utf8`: text exactly when
/// the bytes are valid UTF-8, and then the characters they encode.
#[verifier::external_body]
pub(crate) fn utf8_text(bytes: Vec<u8>) -> (r: Option<String>)
    ensures
        r is Some <==> valid_utf8(bytes@),
        r matches Some(s) ==> s@ == decode_utf8(bytes@),
{
    String::from_utf8(bytes).ok()
}

/// The time since the Unix epoch from `std::time::SystemTime::now`, as whole
/// seconds and the nanoseconds past them; none when the clock reads a time
/// before the epoch. Nothing is claimed of the value.
#[verifier::external_body]
pub(crate) fn clock_now() -> (r: Option<(u64, u32)>)
{
    let t = std::time::SystemTime::now().duration_since(std::time::UNIX_EPOCH).ok()?;
    Some((t.as_secs(), t.subsec_nanos()))
}

/// Why a cryptographic step failed.
#[derive(Debug, Clone, PartialEq, Eq)]
pub enum CryptoError {
    /// The system's random source failed.
    RandomFailed,
    /// A nonce is not 12 bytes long.
    InvalidNonceLength,
    /// Sealing failed.
    EncryptionFailed,
    /// Opening failed: wrong key, or tampered data.
    DecryptionFailed,
}

/// The key for a master password and salt: PBKDF2-HMAC-SHA256 with
/// 600 000 rounds, 32 bytes.
pub fn derive_key(password: &[u8], salt: &[u8]) -> (r: [u8; 32])
    requires
        salt@.len() + 68 < SHA256_INPUT_LIMIT,
        password@.len() < SHA256_INPUT_LIMIT,
    ensures
        r@ == pbkdf2_hmac_sha256(PBKDF2_ITERATIONS as nat, salt@, password@, 32),
{
    pbkdf2_derive(PBKDF2_ITERATIONS, salt, password)
}

/// `len` bytes from the system's random source.
pub fn random_bytes(len: usize) -> (r: Result<Vec<u8>, CryptoError>)
    ensures
        r matches Ok(v) ==> v@.len() == len,
        r matches Err(e) ==> e == CryptoError::RandomFailed,
{
    match system_random(len) {
        Some(v) => Ok(v),
        None => Err(CryptoError::RandomFailed),
    }
}

/// Seals a plaintext under a key with the given 12-byte nonce; returns the
/// sealed bytes and the nonce. Fails exactly when the plaintext is longer
/// than AES-GCM allows.
pub fn seal_with_nonce(plaintext: &[u8], key: &[u8; 32], nonce: Vec<u8>) -> (r: Result<(Vec<u8>, Vec<u8>), CryptoError>)
    requires
        nonce@.len() == NONCE_LEN,
    ensures
        r is Ok <==> plaintext@.len() <= GCM_MAX_LEN,
        r matches Ok((c, n)) ==> n@ == nonce@ && c@ == aes_256_gcm_seal(key@, nonce@, plaintext@)
            && c@.len() == plaintext@.len() + TAG_LEN,
        r matches Err(e) ==> e == CryptoError::EncryptionFailed,
{
    match aead_seal(key, &nonce, plaintext) {
        Some(c) => Ok((c, nonce)),
        None => Err(CryptoError::EncryptionFailed),
    }
}

/// Encrypts a plaintext with AES-256-GCM under a fresh random nonce;
/// returns the sealed bytes and the nonce. Fails when the random source
/// does, or when the plaintext is longer than AES-GCM allows.
pub fn encrypt(plaintext: &[u8], key: &[u8; 32]) -> (r: Result<(Vec<u8>, Vec<u8>), CryptoError>)
    ensures
        r matches Ok((c, n)) ==> n@.len() == NONCE_LEN && c@ == aes_256_gcm_seal(key@, n@, plaintext@)
            && c@.len() == plaintext@.len() + TAG_LEN && plaintext@.len() <= GCM_MAX_LEN,
        r matches Err(e) ==> e == CryptoError::RandomFailed || e == CryptoError::EncryptionFailed,
        plaintext@.len() > GCM_MAX_LEN ==> r is Err,
        r == Err::<(Vec<u8>, Vec<u8>), CryptoError>(CryptoError::EncryptionFailed) ==> plaintext@.len() > GCM_MAX_LEN,
{
    let nonce = random_bytes(NONCE_LEN)?;
    seal_with_nonce(plaintext, key, nonce)
}

/// Decrypts sealed bytes with AES-256-GCM under a key and nonce: the
/// plaintext when the nonce is 12 bytes and authentication succeeds; in
/// particular the plaintext that was sealed under the same key and nonce.
pub fn decrypt(ciphertext: &[u8], nonce: &[u8], key: &[u8; 32]) -> (r: Result<Vec<u8>, CryptoError>)
    ensures
        nonce@.len() != NONCE_LEN ==> r == Err::<Vec<u8>, CryptoError>(CryptoError::InvalidNonceLength),
        nonce@.len() == NONCE_LEN ==> match aes_256_gcm_open(key@, nonce@, ciphertext@) {
            Some(p) => r matches Ok(q) && q@ == p,
            None => r == Err::<Vec<u8>, CryptoError>(CryptoError::DecryptionFailed),
        },
        forall|p: Seq<u8>| nonce@.len() == NONCE_LEN && p.len() <= GCM_MAX_LEN
            && #[trigger] aes_256_gcm_seal(key@, nonce@, p) == ciphertext@ ==> (r matches Ok(q) && q@ == p),
{
    if nonce.len() != NONCE_LEN {
        return Err(CryptoError::InvalidNonceLength);
    }
    match aead_open(key, nonce, ciphertext) {
        Some(p) => Ok(p),
        None => Err(CryptoError::DecryptionFailed),
    }
}

} // verus!
