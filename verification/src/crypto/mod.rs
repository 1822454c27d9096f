//! Cryptographic operations: AES-256-GCM sealing with a random nonce in
//! front, SHA-256, PBKDF2 key derivation and random bytes, all done by ring.

use vstd::prelude::*;
use ring::rand::SecureRandom;
use crate::error::{Result, VpnError};
use crate::text::join2;

verus! {

#[verifier::external_type_specification]
#[verifier::external_body]
pub struct ExSystemRandom(ring::rand::SystemRandom);

/// The largest input that AES-256-GCM seals under one nonce in ring.
pub const AES_GCM_MAX_INPUT: u64 = 68_719_476_704;

/// Inputs to SHA-256 must be shorter than this many bytes.
pub const SHA256_INPUT_LIMIT: u64 = 0x2000_0000_0000_0000;

/// What AES-256-GCM sealing gives for `plaintext` under `key` and `nonce`,
/// with no additional data: the ciphertext with its tag appended.
pub uninterp spec fn aes256gcm_seal(key: Seq<u8>, nonce: Seq<u8>, plaintext: Seq<u8>) -> Seq<u8>;

/// What AES-256-GCM opening gives for `sealed` under `key` and `nonce`, with
/// no additional data: the plaintext, or `None` when the tag does not
/// authenticate.
pub uninterp spec fn aes256gcm_open(key: Seq<u8>, nonce: Seq<u8>, sealed: Seq<u8>) -> Option<Seq<u8>>;

/// The SHA-256 digest of `data`.
pub uninterp spec fn sha256(data: Seq<u8>) -> Seq<u8>;

/// The 32-byte key that PBKDF2-HMAC-SHA256 derives from `password` and
/// `salt` in `iterations` rounds.
pub uninterp spec fn pbkdf2_hmac_sha256(iterations: u32, salt: Seq<u8>, password: Seq<u8>) -> Seq<u8>;

/// A handle on the system's random number generator.
///
/// Trusted: calls `ring::rand::SystemRandom::new`.
#[verifier::external_body]
fn system_random() -> (r: ring::rand::SystemRandom) {
    ring::rand::SystemRandom::new()
}

/// `len` random bytes, or the text of the error.
///
/// Trusted: fills a buffer of `len` bytes with `SecureRandom::fill`; an
/// error is returned as its debug text. The bytes are chance; only their
/// number is stated. For an empty buffer the system generator
/// (`getrandom`, which `SystemRandom` calls) returns at once without error,
/// so no bytes are always had; whether a non-empty fill succeeds depends on
/// the operating system and is not stated.
#[verifier::external_body]
fn fill_random(rng: &ring::rand::SystemRandom, len: usize) -> (r: std::result::Result<Vec<u8>, String>)
    ensures
        r matches Ok(v) ==> v@.len() == len,
        len == 0 ==> r is Ok,
{
    let mut bytes = vec![0u8; len];
    match rng.fill(&mut bytes) {
        Ok(()) => Ok(bytes),
        Err(e) => Err(format!("{e:?}")),
    }
}

/// Seals `plaintext` with AES-256-GCM under `key` and `nonce`, no
/// additional data.
///
/// Trusted: builds a `ring::aead::LessSafeKey` for `AES_256_GCM` (which
/// accepts any 32-byte key), and calls `seal_in_place_append_tag` on a copy
/// of the plaintext; an error is returned as its debug text. Ring appends a
/// 16-byte tag, and refuses inputs longer than `AES_GCM_MAX_INPUT`. As for
/// any AEAD, what is sealed opens, under the same key and nonce, to the same
/// plaintext.
#[verifier::external_body]
fn seal(key: &[u8], nonce: &[u8], plaintext: &[u8]) -> (r: std::result::Result<Vec<u8>, String>)
    requires
        key@.len() == 32,
        nonce@.len() == 12,
    ensures
        r matches Ok(c) ==> c@ == aes256gcm_seal(key@, nonce@, plaintext@) && c@.len() == plaintext@.len() + 16,
        r matches Ok(c) ==> aes256gcm_open(key@, nonce@, c@) == Some(plaintext@),
        plaintext@.len() <= AES_GCM_MAX_INPUT ==> r is Ok,
{
    let unbound = ring::aead::UnboundKey::new(&ring::aead::AES_256_GCM, key).map_err(|e| format!("{e:?}"))?;
    let k = ring::aead::LessSafeKey::new(unbound);
    let n = ring::aead::Nonce::try_assume_unique_for_key(nonce).map_err(|e| format!("{e:?}"))?;
    let mut in_out = plaintext.to_vec();
    k.seal_in_place_append_tag(n, ring::aead::Aad::empty(), &mut in_out).map_err(|e| format!("{e:?}"))?;
    Ok(in_out)
}

/// Opens `sealed` with AES-256-GCM under `key` and `nonce`, no additional
/// data.
///
/// Trusted: builds the same key as `seal` and calls `open_in_place` on a
/// copy; an error is returned as its debug text. The result is the name
/// `aes256gcm_open` of the arguments.
#[verifier::external_body]
fn open(key: &[u8], nonce: &[u8], sealed: &[u8]) -> (r: std::result::Result<Vec<u8>, String>)
    requires
        key@.len() == 32,
        nonce@.len() == 12,
    ensures
        r is Ok <==> aes256gcm_open(key@, nonce@, sealed@) is Some,
        r matches Ok(p) ==> aes256gcm_open(key@, nonce@, sealed@) == Some(p@),
{
    let unbound = ring::aead::UnboundKey::new(&ring::aead::AES_256_GCM, key).map_err(|e| format!("{e:?}"))?;
    let k = ring::aead::LessSafeKey::new(unbound);
    let n = ring::aead::Nonce::try_assume_unique_for_key(nonce).map_err(|e| format!("{e:?}"))?;
    let mut in_out = sealed.to_vec();
    let plain = k.open_in_place(n, ring::aead::Aad::empty(), &mut in_out).map_err(|e| format!("{e:?}"))?;
    Ok(plain.to_vec())
}

/// The SHA-256 digest of `data`.
///
/// Trusted: calls `ring::digest::digest(&SHA256, data)`, which panics only
/// on inputs of 2^61 bytes or more; the digest is 32 bytes.
#[verifier::external_body]
fn sha256_digest(data: &[u8]) -> (r: Vec<u8>)
    requires
        data@.len() < SHA256_INPUT_LIMIT,
    ensures
        r@ == sha256(data@),
        r@.len() == 32,
{
    ring::digest::digest(&ring::digest::SHA256, data).as_ref().to_vec()
}

/// PBKDF2-HMAC-SHA256 into a 32-byte key.
///
/// Trusted: calls `ring::pbkdf2::derive` with `PBKDF2_HMAC_SHA256`, which
/// panics only when the password or the salt is too long to hash (the
/// `requires` keeps both below that).
#[verifier::external_body]
fn pbkdf2_derive(iterations: u32, salt: &[u8], password: &[u8]) -> (r: Vec<u8>)
    requires
        iterations > 0,
        password@.len() < SHA256_INPUT_LIMIT,
        salt@.len() + 68 < SHA256_INPUT_LIMIT,
    ensures
        r@ == pbkdf2_hmac_sha256(iterations, salt@, password@),
        r@.len() == 32,
{
    let mut key = [0u8; 32];
    match std::num::NonZeroU32::new(iterations) {
        Some(n) => ring::pbkdf2::derive(ring::pbkdf2::PBKDF2_HMAC_SHA256, n, salt, password, &mut key),
        None => {},
    }
    key.to_vec()
}

/// Cryptographic engine for VPN operations.
/// What decrypting `data` under `key` gives: with a 32-byte key and data
/// that holds a 12-byte nonce, the opening of what follows the nonce.
pub open spec fn opened(key: Seq<u8>, data: Seq<u8>) -> Option<Seq<u8>> {
    if key.len() == 32 && data.len() >= 12 {
        aes256gcm_open(key, data.subrange(0, 12), data.subrange(12, data.len() as int))
    } else {
        None
    }
}

/// The message that `encrypt` makes from the nonce and what sealing gave:
/// the nonce followed by the sealed data; a failure to seal is a network
/// error that gives the reason.
pub fn sealed_message(nonce: &[u8], sealed: std::result::Result<Vec<u8>, String>) -> (r: Result<Vec<u8>>)
    ensures
        match sealed {
            Ok(c) => r matches Ok(m) && m@ == nonce@ + c@,
            Err(e) => r matches Err(VpnError::Network(m)) && m@ == "Encryption failed: "@ + e@,
        },
{
    match sealed {
        Ok(c) => {
            let mut result = copy_bytes(nonce);
            let mut i: usize = 0;
            while i < c.len()
                invariant
                    i <= c@.len(),
                    result@ == nonce@ + c@.subrange(0, i as int),
                decreases c@.len() - i,
            {
                result.push(c[i]);
                i = i + 1;
                assert(result@ =~= nonce@ + c@.subrange(0, i as int));
            }
            assert(c@.subrange(0, i as int) =~= c@);
            Ok(result)
        },
        Err(e) => Err(VpnError::Network(join2("Encryption failed: ", e.as_str()))),
    }
}

/// What `decrypt` returns for what opening gave: the plaintext, or a
/// network error that gives the reason.
pub fn opened_message(opened: std::result::Result<Vec<u8>, String>) -> (r: Result<Vec<u8>>)
    ensures
        match opened {
            Ok(p) => r matches Ok(q) && q@ == p@,
            Err(e) => r matches Err(VpnError::Network(m)) && m@ == "Decryption failed: "@ + e@,
        },
{
    match opened {
        Ok(p) => Ok(p),
        Err(e) => Err(VpnError::Network(join2("Decryption failed: ", e.as_str()))),
    }
}

pub struct CryptoEngine {
    rng: ring::rand::SystemRandom,
}

/// The text of the error for a key that is not 32 bytes.
pub open spec fn bad_key_message() -> Seq<char> {
    "Key must be 32 bytes for AES-256"@
}

/// The bytes of `s`, copied.
fn copy_bytes(s: &[u8]) -> (r: Vec<u8>)
    ensures
        r@ == s@,
{
    let mut v: Vec<u8> = Vec::new();
    let mut i: usize = 0;
    while i < s.len()
        invariant
            i <= s@.len(),
            v@ == s@.subrange(0, i as int),
        decreases s@.len() - i,
    {
        v.push(s[i]);
        i = i + 1;
    }
    v
}

impl CryptoEngine {
    /// Create a new crypto engine.
    pub fn new() -> (r: Result<Self>)
        ensures
            r is Ok,
    {
        Ok(Self { rng: system_random() })
    }

    /// Seals `data` under `key` and the given 12-byte nonce: the nonce
    /// followed by the AES-256-GCM ciphertext and tag.
    pub fn encrypt_with_nonce(&self, data: &[u8], key: &[u8], nonce: &[u8]) -> (r: Result<Vec<u8>>)
        requires
            nonce@.len() == 12,
        ensures
            key@.len() != 32 ==> (r matches Err(VpnError::Network(m)) && m@ == bad_key_message()),
            key@.len() == 32 && data@.len() <= AES_GCM_MAX_INPUT ==> r is Ok,
            r matches Ok(c) ==> c@ == nonce@ + aes256gcm_seal(key@, nonce@, data@) && aes256gcm_open(
                key@,
                nonce@,
                aes256gcm_seal(key@, nonce@, data@),
            ) == Some(data@),
            r matches Ok(c) ==> opened(key@, c@) == Some(data@),
            key@.len() == 32 && r is Err ==> (r matches Err(VpnError::Network(m)) && m@.len() >= 19
                && m@.subrange(0, 19) == "Encryption failed: "@),
    {
        if key.len() != 32 {
            return Err(VpnError::Network("Key must be 32 bytes for AES-256".to_owned()));
        }
        let sealed = seal(key, nonce, data);
        let r = sealed_message(nonce, sealed);
        proof {
            if r is Err {
                reveal_strlit("Encryption failed: ");
                let m = r->Err_0->Network_0;
                assert(m@.subrange(0, 19) =~= "Encryption failed: "@);
            }
            if r is Ok {
                let c = r->Ok_0;
                assert(c@.subrange(0, 12) =~= nonce@);
                assert(c@.subrange(12, c@.len() as int) =~= aes256gcm_seal(key@, nonce@, data@));
            }
        }
        r
    }

    /// Encrypt data using AES-256-GCM under a fresh random nonce, which is
    /// put in front of the ciphertext.
    pub fn encrypt(&self, data: &[u8], key: &[u8]) -> (r: Result<Vec<u8>>)
        ensures
            key@.len() != 32 ==> (r matches Err(VpnError::Network(m)) && m@ == bad_key_message()),
            r matches Ok(c) ==> c@.len() >= 12 && c@.subrange(12, c@.len() as int) == aes256gcm_seal(
                key@,
                c@.subrange(0, 12),
                data@,
            ) && aes256gcm_open(key@, c@.subrange(0, 12), c@.subrange(12, c@.len() as int)) == Some(data@),
            r matches Ok(c) ==> opened(key@, c@) == Some(data@),
    {
        if key.len() != 32 {
            return Err(VpnError::Network("Key must be 32 bytes for AES-256".to_owned()));
        }
        let nonce = match fill_random(&self.rng, 12) {
            Ok(n) => n,
            Err(e) => {
                return Err(VpnError::Network(join2("Nonce generation failed: ", e.as_str())));
            },
        };
        let r = self.encrypt_with_nonce(data, key, nonce.as_slice());
        proof {
            if r is Ok {
                let c = r->Ok_0;
                assert(c@.subrange(0, 12) =~= nonce@);
                assert(c@.subrange(12, c@.len() as int) =~= aes256gcm_seal(key@, nonce@, data@));
            }
        }
        r
    }

    /// Decrypt data made by `encrypt`: the first twelve bytes are the nonce,
    /// the rest the ciphertext and tag; the result is what opening gives,
    /// so data that `encrypt` made under a key decrypts, under that key, to
    /// what was encrypted.
    pub fn decrypt(&self, data: &[u8], key: &[u8]) -> (r: Result<Vec<u8>>)
        ensures
            key@.len() != 32 ==> (r matches Err(VpnError::Network(m)) && m@ == bad_key_message()),
            key@.len() == 32 && data@.len() < 12 ==> (r matches Err(VpnError::Network(m)) && m@
                == "Data too short to contain nonce"@),
            key@.len() == 32 && data@.len() >= 12 ==> {
                let nonce = data@.subrange(0, 12);
                let sealed = data@.subrange(12, data@.len() as int);
                &&& r is Ok <==> aes256gcm_open(key@, nonce, sealed) is Some
                &&& r matches Ok(p) ==> aes256gcm_open(key@, nonce, sealed) == Some(p@)
            },
            r is Ok <==> opened(key@, data@) is Some,
            r matches Ok(p) ==> opened(key@, data@) == Some(p@),
    {
        if key.len() != 32 {
            return Err(VpnError::Network("Key must be 32 bytes for AES-256".to_owned()));
        }
        if data.len() < 12 {
            return Err(VpnError::Network("Data too short to contain nonce".to_owned()));
        }
        let (nonce, sealed) = data.split_at(12);
        opened_message(open(key, nonce, sealed))
    }

    /// `length` random bytes; a failure of the system's generator is a
    /// network error that gives the reason.
    pub fn random_bytes(&self, length: usize) -> (r: Result<Vec<u8>>)
        ensures
            r matches Ok(v) ==> v@.len() == length,
            length == 0 ==> r is Ok,
            r matches Err(e) ==> (e matches VpnError::Network(m) && exists|reason: Seq<char>| m@
                == "Random generation failed: "@ + reason),
    {
        match fill_random(&self.rng, length) {
            Ok(v) => Ok(v),
            Err(e) => Err(VpnError::Network(join2("Random generation failed: ", e.as_str()))),
        }
    }

    /// The SHA-256 digest of `data`.
    pub fn hash(&self, data: &[u8]) -> (r: Result<Vec<u8>>)
        requires
            data@.len() < SHA256_INPUT_LIMIT,
        ensures
            r matches Ok(h) && h@ == sha256(data@) && h@.len() == 32,
    {
        Ok(sha256_digest(data))
    }

    /// A 32-byte key derived from `password` and `salt` by PBKDF2-HMAC-SHA256;
    /// zero iterations count as 1000.
    pub fn derive_key(&self, password: &[u8], salt: &[u8], iterations: u32) -> (r: Result<Vec<u8>>)
        requires
            password@.len() < SHA256_INPUT_LIMIT,
            salt@.len() + 68 < SHA256_INPUT_LIMIT,
        ensures
            r matches Ok(k) && k@ == pbkdf2_hmac_sha256(
                if iterations == 0 {
                    1000u32
                } else {
                    iterations
                },
                salt@,
                password@,
            ) && k@.len() == 32,
    {
        let rounds: u32 = if iterations == 0 {
            1000
        } else {
            iterations
        };
        Ok(pbkdf2_derive(rounds, salt, password))
    }
}

impl Default for CryptoEngine {
    fn default() -> (r: Self) {
        Self { rng: system_random() }
    }
}

} // verus!
