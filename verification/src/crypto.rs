//! Authenticated encryption of envelopes: AES-256-GCM with the 12-byte nonce
//! in front of the ciphertext.

use aes::Aes256;
use aes_gcm::aead::rand_core::RngCore;
use aes_gcm::aead::{Aead, KeyInit, OsRng};
use aes_gcm::{Aes256Gcm, Key, Nonce};
use vstd::prelude::*;
use vstd::slice::slice_subrange;

verus! {

/// Length of an AES-256 key in bytes.
pub const KEY_LEN: usize = 32;

/// Length of the nonce that leads every envelope.
pub const NONCE_LEN: usize = 12;

/// Length of the authentication tag that ends every envelope.
pub const TAG_LEN: usize = 16;

/// The longest plaintext that AES-GCM accepts, in bytes.
pub const MAX_PLAINTEXT_LEN: u64 = 0x10_0000_0000;

/// Why an envelope could not be sealed or opened. No variant carries key
/// material or plaintext.
#[derive(Debug, Clone, Copy, PartialEq, Eq, Structural)]
pub enum CryptoError {
    /// The key is not exactly 32 bytes long.
    InvalidKeyLength,
    /// The input is shorter than a nonce.
    MalformedCiphertext,
    /// The authentication tag does not match the key, nonce and ciphertext.
    DecryptionFailed,
    /// The plaintext is longer than the cipher or the machine can hold.
    PlaintextTooLong,
    /// The operating system had no randomness to give for a nonce.
    RandomnessUnavailable,
}

/// The plaintext that AES-256-GCM recovers from `sealed` (ciphertext followed
/// by its tag) under `key` and `nonce` with no associated data, or `None`
/// where the tag does not authenticate them.
pub uninterp spec fn aes256_gcm_open(key: Seq<u8>, nonce: Seq<u8>, sealed: Seq<u8>) -> Option<
    Seq<u8>,
>;

/// The ciphertext followed by its tag that AES-256-GCM produces for
/// `plaintext` under `key` and `nonce` with no associated data.
pub uninterp spec fn aes256_gcm_seal(key: Seq<u8>, nonce: Seq<u8>, plaintext: Seq<u8>) -> Seq<u8>;

/// Whether a plaintext of `len` bytes can be sealed: the cipher takes at most
/// 2^36 bytes, and nonce, ciphertext and tag together must fit in memory.
pub open spec fn plaintext_fits(len: nat) -> bool {
    len <= MAX_PLAINTEXT_LEN && len + NONCE_LEN + TAG_LEN <= usize::MAX
}

/// What opening the envelope `data` under `key` yields: the key is checked
/// first, then the room for a nonce, then the tag.
pub open spec fn decrypt_outcome(data: Seq<u8>, key: Seq<u8>) -> Result<Seq<u8>, CryptoError> {
    if key.len() != KEY_LEN {
        Err(CryptoError::InvalidKeyLength)
    } else if data.len() < NONCE_LEN {
        Err(CryptoError::MalformedCiphertext)
    } else {
        match aes256_gcm_open(
            key,
            data.subrange(0, NONCE_LEN as int),
            data.subrange(NONCE_LEN as int, data.len() as int),
        ) {
            Some(plaintext) => Ok(plaintext),
            None => Err(CryptoError::DecryptionFailed),
        }
    }
}

/// Whether the executable result `r` is the outcome `expected`.
pub open spec fn is_outcome(r: Result<Vec<u8>, CryptoError>, expected: Result<Seq<u8>, CryptoError>) -> bool {
    match expected {
        Ok(bytes) => r is Ok && r->Ok_0@ == bytes,
        Err(e) => r is Err && r->Err_0 == e,
    }
}

/// `Aes256Gcm::decrypt` of the aes-gcm crate, with a cipher made by
/// `Aes256Gcm::new` from `key`. Trusted: the result is the named
/// `aes256_gcm_open`, and a recovered plaintext is the input without its
/// 16-byte tag.
#[verifier::external_body]
fn aead_open(key: &[u8], nonce: &[u8], sealed: &[u8]) -> (r: Option<Vec<u8>>)
    requires
        key.len() == KEY_LEN,
        nonce.len() == NONCE_LEN,
    ensures
        r is Some <==> aes256_gcm_open(key@, nonce@, sealed@) is Some,
        r matches Some(p) ==> aes256_gcm_open(key@, nonce@, sealed@) == Some(p@),
        r matches Some(p) ==> p.len() + TAG_LEN == sealed.len(),
{
    let cipher = Aes256Gcm::new(Key::<Aes256>::from_slice(key));
    cipher.decrypt(Nonce::from_slice(nonce), sealed).ok()
}

/// `Aes256Gcm::encrypt` of the aes-gcm crate, with a cipher made by
/// `Aes256Gcm::new` from `key`. Trusted: it refuses exactly the plaintexts
/// longer than 2^36 bytes; otherwise the result is the named
/// `aes256_gcm_seal`, is 16 bytes longer than the plaintext, and opens to the
/// plaintext under the same key and nonce.
#[verifier::external_body]
fn aead_seal(key: &[u8], nonce: &[u8], plaintext: &[u8]) -> (r: Option<Vec<u8>>)
    requires
        key.len() == KEY_LEN,
        nonce.len() == NONCE_LEN,
        plaintext.len() + TAG_LEN <= usize::MAX,
    ensures
        r is Some <==> plaintext.len() <= MAX_PLAINTEXT_LEN,
        r matches Some(c) ==> c@ == aes256_gcm_seal(key@, nonce@, plaintext@),
        r matches Some(c) ==> c.len() == plaintext.len() + TAG_LEN,
        r matches Some(c) ==> aes256_gcm_open(key@, nonce@, c@) == Some(plaintext@),
{
    let cipher = Aes256Gcm::new(Key::<Aes256>::from_slice(key));
    cipher.encrypt(Nonce::from_slice(nonce), plaintext).ok()
}

/// `RngCore::try_fill_bytes` of rand_core, as the aes-gcm crate hands it on,
/// on the operating system's generator `OsRng`. Trusted: a nonce that comes
/// back is 12 bytes long. Nothing is said of its value, which differs from
/// call to call, nor of when the operating system has randomness to give.
#[verifier::external_body]
fn fresh_nonce() -> (r: Option<Vec<u8>>)
    ensures
        r matches Some(nonce) ==> nonce.len() == NONCE_LEN,
{
    let mut nonce = vec![0u8; NONCE_LEN];
    OsRng.try_fill_bytes(&mut nonce).ok()?;
    Some(nonce)
}

/// Sealing and opening of envelopes.
pub struct CryptoUtils;

impl CryptoUtils {
    /// Opens the envelope `data`, whose first 12 bytes are the nonce, under
    /// the 32-byte `key`.
    pub fn decrypt_aes(data: &[u8], key: &[u8]) -> (r: Result<Vec<u8>, CryptoError>)
        ensures
            is_outcome(r, decrypt_outcome(data@, key@)),
            key.len() != KEY_LEN ==> r == Err::<Vec<u8>, CryptoError>(CryptoError::InvalidKeyLength),
            r matches Ok(p) ==> p.len() + NONCE_LEN + TAG_LEN == data.len(),
    {
        if key.len() != KEY_LEN {
            return Err(CryptoError::InvalidKeyLength);
        }
        if data.len() < NONCE_LEN {
            return Err(CryptoError::MalformedCiphertext);
        }
        let nonce = slice_subrange(data, 0, NONCE_LEN);
        let sealed = slice_subrange(data, NONCE_LEN, data.len());
        CryptoUtils::opened(aead_open(key, nonce, sealed))
    }

    /// Turns what the cipher recovered into the result of `decrypt_aes`: a
    /// failed tag check becomes `DecryptionFailed`, which says nothing of the
    /// plaintext.
    pub fn opened(recovered: Option<Vec<u8>>) -> (r: Result<Vec<u8>, CryptoError>)
        ensures
            r == match recovered {
                Some(plaintext) => Ok::<Vec<u8>, CryptoError>(plaintext),
                None => Err(CryptoError::DecryptionFailed),
            },
    {
        match recovered {
            Some(plaintext) => Ok(plaintext),
            None => Err(CryptoError::DecryptionFailed),
        }
    }

    /// Seals `plaintext` under the 32-byte `key` with a nonce drawn for this
    /// call, and returns the nonce followed by ciphertext and tag. Opening
    /// the result under the same key gives the plaintext back. The key and
    /// the length of the plaintext are judged before a nonce is drawn; after
    /// that, only a generator without randomness can make the call fail.
    pub fn encrypt_aes(plaintext: &[u8], key: &[u8]) -> (r: Result<Vec<u8>, CryptoError>)
        ensures
            r is Ok ==> key.len() == KEY_LEN && plaintext_fits(plaintext@.len()),
            key.len() != KEY_LEN ==> r == Err::<Vec<u8>, CryptoError>(CryptoError::InvalidKeyLength),
            key.len() == KEY_LEN && !plaintext_fits(plaintext@.len()) ==> r == Err::<
                Vec<u8>,
                CryptoError,
            >(CryptoError::PlaintextTooLong),
            key.len() == KEY_LEN && plaintext_fits(plaintext@.len()) ==> r is Ok || r == Err::<
                Vec<u8>,
                CryptoError,
            >(CryptoError::RandomnessUnavailable),
            r matches Ok(c) ==> {
                &&& c.len() == plaintext.len() + NONCE_LEN + TAG_LEN
                &&& c@.subrange(NONCE_LEN as int, c.len() as int) == aes256_gcm_seal(
                    key@,
                    c@.subrange(0, NONCE_LEN as int),
                    plaintext@,
                )
                &&& decrypt_outcome(c@, key@) == Ok::<Seq<u8>, CryptoError>(plaintext@)
            },
    {
        if key.len() != KEY_LEN {
            return Err(CryptoError::InvalidKeyLength);
        }
        if plaintext.len() > usize::MAX - NONCE_LEN - TAG_LEN || plaintext.len() as u64
            > MAX_PLAINTEXT_LEN {
            return Err(CryptoError::PlaintextTooLong);
        }
        let nonce = match fresh_nonce() {
            Some(nonce) => nonce,
            None => {
                return Err(CryptoError::RandomnessUnavailable);
            },
        };
        match aead_seal(key, nonce.as_slice(), plaintext) {
            Some(sealed) => Ok(CryptoUtils::envelope(nonce, sealed)),
            None => Err(CryptoError::PlaintextTooLong),
        }
    }

    /// Puts the nonce in front of ciphertext and tag.
    fn envelope(nonce: Vec<u8>, sealed: Vec<u8>) -> (r: Vec<u8>)
        requires
            nonce.len() == NONCE_LEN,
            sealed.len() + NONCE_LEN <= usize::MAX,
        ensures
            r@ == nonce@ + sealed@,
            r@.subrange(0, NONCE_LEN as int) == nonce@,
            r@.subrange(NONCE_LEN as int, r.len() as int) == sealed@,
    {
        let mut out = nonce;
        let mut rest = sealed;
        out.append(&mut rest);
        out
    }
}

} // verus!
