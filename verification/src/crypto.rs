//! Symmetric-key primitives for the transfer path: key and nonce generation,
//! AES-256-GCM sealing of chunk payloads, keyed integrity signatures and key
//! fingerprints.
//!
//! The cipher, the hash and the text encoding come from other crates. Their
//! results are named by uninterpreted spec functions, and every contract in
//! this module is stated over those names.

use vstd::prelude::*;
use vstd::slice::*;
use vstd::array::*;

verus! {

/// Length in bytes of a symmetric key.
pub const KEY_LEN: usize = 32;

/// Length in bytes of the nonce that prefixes every sealed payload.
pub const NONCE_LEN: usize = 12;

/// Length in bytes of the authentication tag that ends every sealed payload.
pub const TAG_LEN: usize = 16;

/// Number of digest bytes that a fingerprint encodes.
pub const FINGERPRINT_LEN: usize = 16;

/// Length in bytes of a SHA-256 digest.
pub const DIGEST_LEN: usize = 32;

/// Largest plaintext, in bytes, that one AES-GCM invocation accepts.
pub const MAX_PLAINTEXT_LEN: u64 = 68719476736;

/// The SHA-256 digest of `data`.
pub uninterp spec fn sha256(data: Seq<u8>) -> Seq<u8>;

/// The standard-alphabet, padded base64 text of `data`.
pub uninterp spec fn base64_standard(data: Seq<u8>) -> Seq<char>;

/// The AES-256-GCM ciphertext of `plaintext` under `key` and `nonce`, with
/// no associated data, followed by its authentication tag.
pub uninterp spec fn aes256_gcm_seal(key: Seq<u8>, nonce: Seq<u8>, plaintext: Seq<u8>) -> Seq<u8>;

/// What AES-256-GCM recovers from `sealed` (ciphertext followed by tag)
/// under `key` and `nonce`: the plaintext, or `None` when the tag does not
/// authenticate the ciphertext.
pub uninterp spec fn aes256_gcm_open(key: Seq<u8>, nonce: Seq<u8>, sealed: Seq<u8>) -> Option<Seq<u8>>;

/// Why a cryptographic operation failed.
#[derive(Clone, Copy, Debug, PartialEq, Eq, Structural)]
pub enum CryptoError {
    /// The key is not `KEY_LEN` bytes long.
    InvalidKeyLength,
    /// The sealed buffer is shorter than a nonce.
    TooShort,
    /// The payload does not authenticate under the key: wrong key or
    /// tampered data.
    Authentication,
    /// The cipher refused the plaintext.
    Encryption,
}

/// The view of a byte-vector result: the bytes on success, the error as is.
pub open spec fn outcome(r: Result<Vec<u8>, CryptoError>) -> Result<Seq<u8>, CryptoError> {
    match r {
        Ok(v) => Ok(v@),
        Err(e) => Err(e),
    }
}

/// The error, if any, with which sealing `data` under `key` fails. It does
/// not depend on the nonce.
pub open spec fn seal_failure(data: Seq<u8>, key: Seq<u8>) -> Option<CryptoError> {
    if key.len() != KEY_LEN {
        Some(CryptoError::InvalidKeyLength)
    } else if data.len() > MAX_PLAINTEXT_LEN {
        Some(CryptoError::Encryption)
    } else {
        None
    }
}

/// The sealed buffer for `data` under `key` with a given `nonce`:
/// the nonce followed by ciphertext and tag.
pub open spec fn encrypt_spec(data: Seq<u8>, key: Seq<u8>, nonce: Seq<u8>) -> Result<
    Seq<u8>,
    CryptoError,
> {
    match seal_failure(data, key) {
        Some(e) => Err(e),
        None => Ok(nonce + aes256_gcm_seal(key, nonce, data)),
    }
}

/// What opening a sealed buffer under `key` yields.
pub open spec fn decrypt_spec(encrypted: Seq<u8>, key: Seq<u8>) -> Result<Seq<u8>, CryptoError> {
    if encrypted.len() < NONCE_LEN {
        Err(CryptoError::TooShort)
    } else if key.len() != KEY_LEN {
        Err(CryptoError::InvalidKeyLength)
    } else {
        match aes256_gcm_open(
            key,
            encrypted.subrange(0, NONCE_LEN as int),
            encrypted.subrange(NONCE_LEN as int, encrypted.len() as int),
        ) {
            Some(plain) => Ok(plain),
            None => Err(CryptoError::Authentication),
        }
    }
}

/// The keyed signature of `data`: the digest of the key followed by the data.
pub open spec fn signature_spec(data: Seq<u8>, key: Seq<u8>) -> Seq<u8> {
    sha256(key + data)
}

/// Whether `signature` is the keyed signature of `data` under `key`.
pub open spec fn verify_spec(data: Seq<u8>, key: Seq<u8>, signature: Seq<u8>) -> bool {
    signature == signature_spec(data, key)
}

/// The leading bytes of a digest that a fingerprint encodes.
pub open spec fn digest_prefix_spec(digest: Seq<u8>) -> Seq<u8> {
    if digest.len() <= FINGERPRINT_LEN {
        digest
    } else {
        digest.subrange(0, FINGERPRINT_LEN as int)
    }
}

/// The display fingerprint of a key.
pub open spec fn fingerprint_spec(key: Seq<u8>) -> Seq<char> {
    base64_standard(digest_prefix_spec(sha256(key)))
}

/// Trusted: fills an array from `rand::thread_rng()` through `Rng::fill`.
/// Nothing is claimed of the bytes.
#[verifier::external_body]
fn random_array<const N: usize>() -> (out: [u8; N]) {
    let mut out = [0u8; N];
    rand::Rng::fill(&mut rand::thread_rng(), &mut out[..]);
    out
}

/// Trusted: `sha2::Sha256::digest`. The result is the SHA-256 digest of the
/// input, which is always 32 bytes long.
#[verifier::external_body]
fn sha256_digest(data: &[u8]) -> (out: Vec<u8>)
    ensures
        out@ == sha256(data@),
        out@.len() == DIGEST_LEN,
{
    <sha2::Sha256 as sha2::Digest>::digest(data).to_vec()
}

/// Trusted: `base64::engine::general_purpose::STANDARD.encode`. The result
/// is the standard padded base64 text of the input.
#[verifier::external_body]
fn base64_encode(data: &[u8]) -> (out: String)
    ensures
        out@ == base64_standard(data@),
{
    base64::Engine::encode(&base64::engine::general_purpose::STANDARD, data)
}

/// Trusted: `Aes256Gcm::new_from_slice` followed by `Aead::encrypt` with no
/// associated data. The key is refused unless it is 32 bytes long, the
/// plaintext is refused when longer than 2^36 bytes, and otherwise the
/// result is ciphertext and tag, 16 bytes longer than the plaintext, which
/// the same key and nonce open to the plaintext again.
#[verifier::external_body]
fn aes256_gcm_encrypt(key: &[u8], nonce: &[u8], data: &[u8]) -> (out: Result<Vec<u8>, CryptoError>)
    requires
        nonce@.len() == NONCE_LEN,
    ensures
        match out {
            Ok(sealed) => {
                &&& seal_failure(data@, key@) is None
                &&& sealed@ == aes256_gcm_seal(key@, nonce@, data@)
                &&& sealed@.len() == data@.len() + TAG_LEN
                &&& aes256_gcm_open(key@, nonce@, sealed@) == Some(data@)
            },
            Err(e) => seal_failure(data@, key@) == Some(e),
        },
{
    match <aes_gcm::Aes256Gcm as aes_gcm::KeyInit>::new_from_slice(key) {
        Err(_) => Err(CryptoError::InvalidKeyLength),
        Ok(cipher) => match aes_gcm::aead::Aead::encrypt(
            &cipher,
            aes_gcm::Nonce::from_slice(nonce),
            data,
        ) {
            Ok(sealed) => Ok(sealed),
            Err(_) => Err(CryptoError::Encryption),
        },
    }
}

/// Trusted: `Aes256Gcm::new_from_slice` followed by `Aead::decrypt` with no
/// associated data. The key is refused unless it is 32 bytes long. Input
/// shorter than a tag never authenticates, and a recovered plaintext is
/// 16 bytes shorter than the input.
#[verifier::external_body]
fn aes256_gcm_decrypt(key: &[u8], nonce: &[u8], sealed: &[u8]) -> (out: Result<
    Vec<u8>,
    CryptoError,
>)
    requires
        nonce@.len() == NONCE_LEN,
    ensures
        match out {
            Ok(plain) => {
                &&& key@.len() == KEY_LEN
                &&& aes256_gcm_open(key@, nonce@, sealed@) == Some(plain@)
                &&& plain@.len() + TAG_LEN == sealed@.len()
            },
            Err(e) => if key@.len() != KEY_LEN {
                e == CryptoError::InvalidKeyLength
            } else {
                &&& e == CryptoError::Authentication
                &&& aes256_gcm_open(key@, nonce@, sealed@) is None
            },
        },
        sealed@.len() < TAG_LEN ==> out is Err,
{
    match <aes_gcm::Aes256Gcm as aes_gcm::KeyInit>::new_from_slice(key) {
        Err(_) => Err(CryptoError::InvalidKeyLength),
        Ok(cipher) => match aes_gcm::aead::Aead::decrypt(
            &cipher,
            aes_gcm::Nonce::from_slice(nonce),
            sealed,
        ) {
            Ok(plain) => Ok(plain),
            Err(_) => Err(CryptoError::Authentication),
        },
    }
}

/// Trusted: `zeroize::Zeroize::zeroize` on a byte slice. Every byte is
/// overwritten with zero and the length is kept.
#[verifier::external_body]
fn zeroize_bytes(key: &mut [u8])
    ensures
        final(key)@ == Seq::new(old(key)@.len(), |i: int| 0u8),
{
    zeroize::Zeroize::zeroize(key);
}

impl CryptoError {
    /// The message of the failure: that of the cipher for its own errors,
    /// and "encrypted data too short" for a buffer without a nonce.
    pub fn message(&self) -> (text: String)
        ensures
            text@ == match *self {
                CryptoError::InvalidKeyLength => "Invalid Length"@,
                CryptoError::TooShort => "加密数据太短"@,
                CryptoError::Authentication => "aead::Error"@,
                CryptoError::Encryption => "aead::Error"@,
            },
    {
        match self {
            CryptoError::InvalidKeyLength => "Invalid Length".to_owned(),
            CryptoError::TooShort => "加密数据太短".to_owned(),
            CryptoError::Authentication => "aead::Error".to_owned(),
            CryptoError::Encryption => "aead::Error".to_owned(),
        }
    }
}

/// Generates a fresh random 256-bit key.
pub fn generate_key() -> (key: [u8; 32])
    ensures
        key@.len() == KEY_LEN,
{
    random_array::<32>()
}

/// Generates a fresh random 96-bit nonce.
pub fn generate_iv() -> (iv: [u8; 12])
    ensures
        iv@.len() == NONCE_LEN,
{
    random_array::<12>()
}

/// The leading `FINGERPRINT_LEN` bytes of a digest, or all of it when it is
/// shorter.
pub fn digest_prefix(digest: &[u8]) -> (prefix: &[u8])
    ensures
        prefix@ == digest_prefix_spec(digest@),
{
    if digest.len() <= FINGERPRINT_LEN {
        digest
    } else {
        slice_subrange(digest, 0, FINGERPRINT_LEN)
    }
}

/// Computes the display fingerprint of a key: the base64 text of the first
/// 16 bytes of the key's SHA-256 digest.
pub fn compute_fingerprint(key: &[u8]) -> (fingerprint: String)
    ensures
        fingerprint@ == fingerprint_spec(key@),
{
    let digest = sha256_digest(key);
    base64_encode(digest_prefix(digest.as_slice()))
}

/// Seals `data` under `key` with the given nonce. The result is the nonce
/// followed by ciphertext and tag, and `decrypt` with the same key gives
/// `data` back.
pub fn encrypt_with_nonce(data: &[u8], key: &[u8], nonce: &[u8; 12]) -> (out: Result<
    Vec<u8>,
    CryptoError,
>)
    ensures
        outcome(out) == encrypt_spec(data@, key@, nonce@),
        out matches Ok(sealed) ==> {
            &&& sealed@.len() == NONCE_LEN + data@.len() + TAG_LEN
            &&& decrypt_spec(sealed@, key@) == Ok::<Seq<u8>, CryptoError>(data@)
        },
{
    let nonce_bytes = array_as_slice(nonce);
    match aes256_gcm_encrypt(key, nonce_bytes, data) {
        Ok(sealed) => {
            let mut out = slice_to_vec(nonce_bytes);
            out.extend_from_slice(sealed.as_slice());
            proof {
                assert(out@ =~= nonce@ + sealed@);
                assert(out@.subrange(0, NONCE_LEN as int) =~= nonce@);
                assert(out@.subrange(NONCE_LEN as int, out@.len() as int) =~= sealed@);
            }
            Ok(out)
        },
        Err(e) => Err(e),
    }
}

/// Seals `data` under `key` with a freshly generated nonce. The result is
/// `nonce || ciphertext || tag`, and `decrypt` with the same key gives `data`
/// back. Fails exactly when the key is not 32 bytes long or the plaintext is
/// too long for the cipher.
pub fn encrypt(data: &[u8], key: &[u8]) -> (out: Result<Vec<u8>, CryptoError>)
    ensures
        match out {
            Ok(sealed) => {
                &&& sealed@.len() == NONCE_LEN + data@.len() + TAG_LEN
                &&& encrypt_spec(data@, key@, sealed@.subrange(0, NONCE_LEN as int)) == Ok::<
                    Seq<u8>,
                    CryptoError,
                >(sealed@)
                &&& decrypt_spec(sealed@, key@) == Ok::<Seq<u8>, CryptoError>(data@)
            },
            Err(e) => seal_failure(data@, key@) == Some(e),
        },
{
    let iv = generate_iv();
    let out = encrypt_with_nonce(data, key, &iv);
    proof {
        if out is Ok {
            assert(out->Ok_0@.subrange(0, NONCE_LEN as int) =~= iv@);
        }
    }
    out
}

/// Opens a sealed buffer `nonce || ciphertext || tag` under `key`.
///
/// A buffer shorter than a nonce is a length error, a key of the wrong
/// length is refused, and any payload that does not authenticate, a buffer
/// too short to hold a tag among them, is a single opaque authentication
/// error.
pub fn decrypt(encrypted: &[u8], key: &[u8]) -> (out: Result<Vec<u8>, CryptoError>)
    ensures
        outcome(out) == decrypt_spec(encrypted@, key@),
        out matches Ok(plain) ==> plain@.len() + NONCE_LEN + TAG_LEN == encrypted@.len(),
        encrypted@.len() < NONCE_LEN + TAG_LEN ==> out is Err,
{
    if encrypted.len() < NONCE_LEN {
        return Err(CryptoError::TooShort);
    }
    let nonce = slice_subrange(encrypted, 0, NONCE_LEN);
    let sealed = slice_subrange(encrypted, NONCE_LEN, encrypted.len());
    aes256_gcm_decrypt(key, nonce, sealed)
}

/// Compares two byte strings in time that depends only on their lengths.
pub fn constant_time_eq(a: &[u8], b: &[u8]) -> (same: bool)
    ensures
        same == (a@ == b@),
{
    if a.len() != b.len() {
        return false;
    }
    let mut diff: u8 = 0;
    let mut i: usize = 0;
    while i < a.len()
        invariant
            a@.len() == b@.len(),
            i <= a@.len(),
            diff == 0 <==> forall|j: int| 0 <= j < i ==> a@[j] == b@[j],
        decreases a@.len() - i,
    {
        let x: u8 = a[i];
        let y: u8 = b[i];
        let step: u8 = x ^ y;
        proof {
            assert((diff | step) == 0 <==> (diff == 0 && x == y)) by (bit_vector)
                requires
                    step == x ^ y,
            ;
        }
        diff = diff | step;
        i = i + 1;
    }
    proof {
        if diff == 0 {
            assert(a@ =~= b@);
        }
    }
    diff == 0
}

/// Signs `data` under `key`: the SHA-256 digest of the key followed by the
/// data.
pub fn sign(data: &[u8], key: &[u8]) -> (signature: Vec<u8>)
    ensures
        signature@ == signature_spec(data@, key@),
        signature@.len() == DIGEST_LEN,
{
    let mut message = slice_to_vec(key);
    message.extend_from_slice(data);
    proof {
        assert(message@ =~= key@ + data@);
    }
    sha256_digest(message.as_slice())
}

/// Checks `signature` against a freshly computed signature of `data` under
/// `key`, comparing in constant time.
pub fn verify(data: &[u8], key: &[u8], signature: &[u8]) -> (valid: bool)
    ensures
        valid == verify_spec(data@, key@, signature@),
{
    let computed = sign(data, key);
    constant_time_eq(computed.as_slice(), signature)
}

/// Overwrites every byte of `key` with zero.
pub fn clear_key(key: &mut [u8])
    ensures
        final(key)@.len() == old(key)@.len(),
        forall|i: int| 0 <= i < final(key)@.len() ==> final(key)@[i] == 0u8,
{
    zeroize_bytes(key);
}

/// A signature verifies against the data and key that produced it.
pub proof fn lemma_own_signature_verifies(data: Seq<u8>, key: Seq<u8>)
    ensures
        verify_spec(data, key, signature_spec(data, key)),
{
}

/// Any byte string other than the signature of `data` under `key` is
/// rejected, whatever its length.
pub proof fn lemma_other_signature_rejected(data: Seq<u8>, key: Seq<u8>, signature: Seq<u8>)
    requires
        signature != signature_spec(data, key),
    ensures
        !verify_spec(data, key, signature),
{
}

/// A buffer shorter than a nonce never opens, whatever the key.
pub proof fn lemma_short_buffer_rejected(encrypted: Seq<u8>, key: Seq<u8>)
    requires
        encrypted.len() < NONCE_LEN,
    ensures
        decrypt_spec(encrypted, key) == Err::<Seq<u8>, CryptoError>(CryptoError::TooShort),
{
}

} // verus!
