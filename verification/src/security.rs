//! The encryption pipeline: a symmetric key is derived from a user secret and
//! a fresh random salt by a deliberately slow key-derivation function, and the
//! artifact bytes are sealed with an authenticated cipher under a fresh random
//! nonce. Salt and nonce are returned base64-encoded so they can be persisted
//! beside the ciphertext and consumed verbatim on decryption.

use vstd::prelude::*;

use aes_gcm::aead::Aead;
use aes_gcm::KeyInit;
use base64::Engine;

verus! {

/// The failures of the encryption pipeline, each distinguishable from the
/// others, so a caller can tell a missing secret from a key-derivation
/// problem and from an inauthentic ciphertext.
#[derive(Debug)]
pub enum SecurityError {
    /// No user secret was available to derive a key from.
    MissingSecret,
    /// The salt was rejected or the key-derivation function could not run.
    KeyDerivationFailed,
    /// The cipher could not seal the plaintext.
    EncryptionFailed,
    /// The stored nonce is not valid base64 text of twelve bytes.
    InvalidNonce,
    /// The stored ciphertext is not valid base64 text.
    InvalidCiphertext,
    /// The ciphertext did not authenticate under the derived key and nonce:
    /// tampered bytes or a wrong secret.
    AuthenticationFailed,
}

/// What one encryption produced: the sealed bytes and the two random values
/// needed to open them again, each as base64 text ready to persist.
#[derive(Debug)]
pub struct EncryptedPayload {
    /// Base64 text of the sealed bytes; this text's bytes are what the store
    /// receives.
    pub ciphertext: String,
    /// Base64 text of the fresh 16-byte salt the key was derived with.
    pub salt: String,
    /// Base64 text of the fresh 12-byte nonce the seal used.
    pub nonce: String,
}

/// The base64 text of a byte sequence under the standard padded alphabet.
/// The value is fixed by base64's standard engine and never stated here.
pub uninterp spec fn b64_encode(data: Seq<u8>) -> Seq<char>;

/// The bytes a base64 text decodes to, if it is valid; fixed by base64's
/// standard engine.
pub uninterp spec fn b64_decode(text: Seq<char>) -> Option<Seq<u8>>;

/// The 32-byte key the key-derivation function produces from a secret and a
/// salt, where it accepts them; fixed by argon2 under its default parameters.
pub uninterp spec fn derived_key(secret: Seq<u8>, salt: Seq<u8>) -> Option<Seq<u8>>;

/// What sealing plaintext under a key and nonce yields, where the cipher
/// accepts the plaintext; fixed by AES-256-GCM.
pub uninterp spec fn aead_seal(key: Seq<u8>, nonce: Seq<u8>, plain: Seq<u8>) -> Option<Seq<u8>>;

/// What opening a ciphertext under a key and nonce yields, where it
/// authenticates; fixed by AES-256-GCM.
pub uninterp spec fn aead_open(key: Seq<u8>, nonce: Seq<u8>, cipher: Seq<u8>) -> Option<Seq<u8>>;

/// Relies on base64's standard engine: encodes bytes as base64 text, and
/// decoding that text gives back exactly the input bytes.
#[verifier::external_body]
fn b64_encode_text(data: &Vec<u8>) -> (r: String)
    ensures
        r@ == b64_encode(data@),
        b64_decode(r@) == Some(data@),
{
    base64::engine::general_purpose::STANDARD.encode(data.as_slice())
}

/// Relies on base64's standard engine: decodes base64 text, failing exactly on
/// text that is not valid padded standard base64.
#[verifier::external_body]
fn b64_decode_text(text: &str) -> (r: Option<Vec<u8>>)
    ensures
        r is Some <==> b64_decode(text@) is Some,
        r matches Some(d) ==> b64_decode(text@) == Some(d@),
{
    base64::engine::general_purpose::STANDARD.decode(text).ok()
}

/// Relies on argon2::Argon2::hash_password_into under the crate's default
/// parameters: fills 32 key bytes as a function of (secret, salt) alone. It
/// fails on a salt outside the documented length bounds, or when the memory
/// the parameters call for cannot be had.
#[verifier::external_body]
fn argon2_derive_key(secret: &Vec<u8>, salt: &Vec<u8>) -> (r: Option<Vec<u8>>)
    ensures
        r matches Some(k) ==> derived_key(secret@, salt@) == Some(k@) && k@.len() == 32,
{
    let mut out = vec![0u8; 32];
    match argon2::Argon2::default().hash_password_into(
        secret.as_slice(),
        salt.as_slice(),
        out.as_mut_slice(),
    ) {
        Ok(()) => Some(out),
        Err(_) => None,
    }
}

/// Relies on aes_gcm::Aes256Gcm: seals the plaintext under a 32-byte key and
/// 12-byte nonce; opening the sealed bytes with the same key and nonce gives
/// back exactly the plaintext.
#[verifier::external_body]
fn aead_encrypt(key: &Vec<u8>, nonce: &Vec<u8>, plain: &Vec<u8>) -> (r: Option<Vec<u8>>)
    requires
        key@.len() == 32,
        nonce@.len() == 12,
    ensures
        r is Some <==> aead_seal(key@, nonce@, plain@) is Some,
        r matches Some(c) ==> aead_seal(key@, nonce@, plain@) == Some(c@) && aead_open(
            key@,
            nonce@,
            c@,
        ) == Some(plain@),
{
    let cipher = match aes_gcm::Aes256Gcm::new_from_slice(key.as_slice()) {
        Ok(c) => c,
        Err(_) => return None,
    };
    let nonce = aes_gcm::Nonce::<aes_gcm::aead::consts::U12>::try_from(nonce.as_slice()).ok()?;
    cipher.encrypt(&nonce, plain.as_slice()).ok()
}

/// Relies on aes_gcm::Aes256Gcm: opens a sealed byte sequence under a 32-byte
/// key and 12-byte nonce, failing exactly when the bytes do not authenticate.
#[verifier::external_body]
fn aead_decrypt(key: &Vec<u8>, nonce: &Vec<u8>, cipher: &Vec<u8>) -> (r: Option<Vec<u8>>)
    requires
        key@.len() == 32,
        nonce@.len() == 12,
    ensures
        r is Some <==> aead_open(key@, nonce@, cipher@) is Some,
        r matches Some(p) ==> aead_open(key@, nonce@, cipher@) == Some(p@),
{
    let aead = match aes_gcm::Aes256Gcm::new_from_slice(key.as_slice()) {
        Ok(c) => c,
        Err(_) => return None,
    };
    let nonce = aes_gcm::Nonce::<aes_gcm::aead::consts::U12>::try_from(nonce.as_slice()).ok()?;
    aead.decrypt(&nonce, cipher.as_slice()).ok()
}

/// Relies on rand::Rng::fill over rand::thread_rng: fills `n` bytes with fresh
/// randomness; nothing is promised of the values themselves.
#[verifier::external_body]
fn random_bytes(n: usize) -> (r: Vec<u8>)
    ensures
        r@.len() == n,
{
    let mut buf = vec![0u8; n];
    rand::Rng::fill(&mut rand::thread_rng(), buf.as_mut_slice());
    buf
}

/// What a payload asserts of itself: its salt and nonce decode, the key they
/// derive seals the plaintext to exactly the stored ciphertext, and opening
/// that ciphertext gives the plaintext back.
pub open spec fn payload_encrypts(p: EncryptedPayload, secret: Seq<u8>, plain: Seq<u8>) -> bool {
    &&& b64_decode(p.salt@) is Some
    &&& b64_decode(p.nonce@) is Some
    &&& {
        let salt = b64_decode(p.salt@).unwrap();
        let nonce = b64_decode(p.nonce@).unwrap();
        &&& nonce.len() == 12
        &&& derived_key(secret, salt) is Some
        &&& {
            let key = derived_key(secret, salt).unwrap();
            &&& aead_seal(key, nonce, plain) is Some
            &&& p.ciphertext@ == b64_encode(aead_seal(key, nonce, plain).unwrap())
            &&& b64_decode(p.ciphertext@) == Some(aead_seal(key, nonce, plain).unwrap())
            &&& aead_open(key, nonce, aead_seal(key, nonce, plain).unwrap()) == Some(plain)
        }
    }
}

/// What decryption computes, as a function of its four inputs: each stage in
/// order — salt text, nonce text, key derivation, ciphertext text — must go
/// through, and the cipher then decides.
pub open spec fn decrypt_model(
    secret: Seq<u8>,
    ciphertext: Seq<char>,
    salt_b64: Seq<char>,
    nonce_b64: Seq<char>,
) -> Option<Seq<u8>> {
    if b64_decode(salt_b64) is Some && b64_decode(nonce_b64) is Some && b64_decode(
        nonce_b64,
    ).unwrap().len() == 12 && derived_key(secret, b64_decode(salt_b64).unwrap()) is Some
        && b64_decode(ciphertext) is Some {
        aead_open(
            derived_key(secret, b64_decode(salt_b64).unwrap()).unwrap(),
            b64_decode(nonce_b64).unwrap(),
            b64_decode(ciphertext).unwrap(),
        )
    } else {
        None
    }
}

/// An unusable stored nonce: text that does not decode, or that decodes to
/// anything but twelve bytes.
pub open spec fn nonce_unusable(nonce_b64: Seq<char>) -> bool {
    b64_decode(nonce_b64) is None || b64_decode(nonce_b64).unwrap().len() != 12
}

/// What decryption promises. A returned plaintext is exactly what the model
/// assigns to the inputs, and each failure names the first stage that refused:
/// the salt text, the nonce text, key derivation, the ciphertext text, then
/// authentication. Key derivation may also fail for want of memory, so it can
/// stand in for any later stage.
pub open spec fn decrypt_post(
    secret: Seq<u8>,
    ciphertext: Seq<char>,
    salt_b64: Seq<char>,
    nonce_b64: Seq<char>,
    r: Result<Vec<u8>, SecurityError>,
) -> bool {
    let model = decrypt_model(secret, ciphertext, salt_b64, nonce_b64);
    let salt_ok = b64_decode(salt_b64) is Some;
    let kdf = derived_key(secret, b64_decode(salt_b64).unwrap());
    &&& (r matches Ok(v) ==> model == Some(v@))
    &&& (model is Some ==> (r matches Ok(v) && model == Some(v@)) || r matches Err(
        SecurityError::KeyDerivationFailed,
    ))
    &&& (!salt_ok ==> r matches Err(SecurityError::KeyDerivationFailed))
    &&& (salt_ok && nonce_unusable(nonce_b64) ==> r matches Err(SecurityError::InvalidNonce))
    &&& (salt_ok && !nonce_unusable(nonce_b64) && kdf is None ==> r matches Err(
        SecurityError::KeyDerivationFailed,
    ))
    &&& (salt_ok && !nonce_unusable(nonce_b64) && kdf is Some && b64_decode(ciphertext) is None
        ==> (r matches Err(SecurityError::InvalidCiphertext) || r matches Err(
        SecurityError::KeyDerivationFailed,
    )))
    &&& (salt_ok && !nonce_unusable(nonce_b64) && kdf is Some && b64_decode(ciphertext) is Some
        && model is None ==> (r matches Err(SecurityError::AuthenticationFailed) || r matches Err(
        SecurityError::KeyDerivationFailed,
    )))
}

/// Seals plaintext under an already-derived key and a chosen nonce, returning
/// the ciphertext as base64 text.
pub fn encrypt_with_key(key: &Vec<u8>, nonce: &Vec<u8>, plain: &Vec<u8>) -> (r: Result<
    String,
    SecurityError,
>)
    requires
        key@.len() == 32,
        nonce@.len() == 12,
    ensures
        r is Ok <==> aead_seal(key@, nonce@, plain@) is Some,
        r matches Ok(ct) ==> {
            let sealed = aead_seal(key@, nonce@, plain@).unwrap();
            &&& ct@ == b64_encode(sealed)
            &&& b64_decode(ct@) == Some(sealed)
            &&& aead_open(key@, nonce@, sealed) == Some(plain@)
        },
        r is Err ==> r matches Err(SecurityError::EncryptionFailed),
{
    match aead_encrypt(key, nonce, plain) {
        Some(sealed) => Ok(b64_encode_text(&sealed)),
        None => Err(SecurityError::EncryptionFailed),
    }
}

/// Opens base64 ciphertext under an already-derived key and the stored nonce.
/// Acceptance and the returned bytes follow the decryption model exactly.
pub fn decrypt_with_key(key: &Vec<u8>, nonce: &Vec<u8>, ciphertext: &str) -> (r: Result<
    Vec<u8>,
    SecurityError,
>)
    requires
        key@.len() == 32,
        nonce@.len() == 12,
    ensures
        b64_decode(ciphertext@) is None ==> r matches Err(SecurityError::InvalidCiphertext),
        b64_decode(ciphertext@) matches Some(c) ==> {
            &&& (aead_open(key@, nonce@, c) is None ==> r matches Err(
                SecurityError::AuthenticationFailed,
            ))
            &&& (aead_open(key@, nonce@, c) matches Some(p) ==> (r matches Ok(v) && v@ == p))
        },
{
    match b64_decode_text(ciphertext) {
        Some(c) => match aead_decrypt(key, nonce, &c) {
            Some(p) => Ok(p),
            None => Err(SecurityError::AuthenticationFailed),
        },
        None => Err(SecurityError::InvalidCiphertext),
    }
}

/// The encryption side of the pipeline, bundling key derivation and random
/// salt and nonce generation.
pub struct SecurityManager;

impl SecurityManager {
    /// A fresh pipeline handle.
    pub fn new() -> SecurityManager {
        SecurityManager
    }

    /// Encrypts artifact bytes under the given secret: a fresh 16-byte salt
    /// and 12-byte nonce are drawn, a key is derived, and the sealed bytes
    /// come back with salt and nonce as base64 text. An absent secret is a
    /// hard failure of its own.
    pub fn encrypt_data(secret: Option<&Vec<u8>>, data: &Vec<u8>) -> (r: Result<
        EncryptedPayload,
        SecurityError,
    >)
        ensures
            secret is None <==> r matches Err(SecurityError::MissingSecret),
            (match secret {
                Some(sec) => {
                    &&& (r matches Ok(p) ==> payload_encrypts(p, sec@, data@))
                    &&& (r is Err ==> (r matches Err(SecurityError::KeyDerivationFailed) || r
                        matches Err(SecurityError::EncryptionFailed)))
                },
                None => true,
            }),
    {
        let sec = match secret {
            Some(s) => s,
            None => {
                return Err(SecurityError::MissingSecret);
            },
        };
        let salt = random_bytes(16);
        let key = match argon2_derive_key(sec, &salt) {
            Some(k) => k,
            None => {
                return Err(SecurityError::KeyDerivationFailed);
            },
        };
        let nonce = random_bytes(12);
        let ciphertext = match encrypt_with_key(&key, &nonce, data) {
            Ok(ct) => ct,
            Err(e) => {
                return Err(e);
            },
        };
        let salt_b64 = b64_encode_text(&salt);
        let nonce_b64 = b64_encode_text(&nonce);
        Ok(EncryptedPayload { ciphertext, salt: salt_b64, nonce: nonce_b64 })
    }

    /// Decrypts stored ciphertext with the same secret, salt and nonce that
    /// encryption persisted. Every failure is distinguishable: missing secret,
    /// unusable salt or nonce text, key derivation, or an inauthentic
    /// ciphertext. A returned plaintext is exactly what the decryption model
    /// assigns to the inputs — never a corrupted byte sequence.
    pub fn decrypt_data(
        secret: Option<&Vec<u8>>,
        ciphertext: &str,
        salt_b64: &str,
        nonce_b64: &str,
    ) -> (r: Result<Vec<u8>, SecurityError>)
        ensures
            secret is None <==> r matches Err(SecurityError::MissingSecret),
            (match secret {
                Some(sec) => decrypt_post(sec@, ciphertext@, salt_b64@, nonce_b64@, r),
                None => true,
            }),
    {
        let sec = match secret {
            Some(s) => s,
            None => {
                return Err(SecurityError::MissingSecret);
            },
        };
        let salt = match b64_decode_text(salt_b64) {
            Some(s) => s,
            None => {
                return Err(SecurityError::KeyDerivationFailed);
            },
        };
        let nonce = match b64_decode_text(nonce_b64) {
            Some(n) => n,
            None => {
                return Err(SecurityError::InvalidNonce);
            },
        };
        if nonce.len() != 12 {
            return Err(SecurityError::InvalidNonce);
        }
        let key = match argon2_derive_key(sec, &salt) {
            Some(k) => k,
            None => {
                return Err(SecurityError::KeyDerivationFailed);
            },
        };
        decrypt_with_key(&key, &nonce, ciphertext)
    }
}

/// Law: a payload produced by encryption decrypts, under the same secret and
/// its own stored salt and nonce, to exactly the original bytes.
pub proof fn lemma_encrypt_round_trip(p: EncryptedPayload, secret: Seq<u8>, plain: Seq<u8>)
    requires
        payload_encrypts(p, secret, plain),
    ensures
        decrypt_model(secret, p.ciphertext@, p.salt@, p.nonce@) == Some(plain),
{
}

} // verus!
