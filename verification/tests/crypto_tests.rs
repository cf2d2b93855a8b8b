use peersend_protocol::crypto::{
    clear_key, compute_fingerprint, constant_time_eq, decrypt, digest_prefix, encrypt,
    encrypt_with_nonce, generate_iv, generate_key, sign, verify,
};
use peersend_protocol::CryptoError;

#[test]
fn encrypt_then_decrypt_gives_the_data_back() {
    let key = generate_key();
    let data = b"hello over the local network".to_vec();
    let sealed = encrypt(&data, &key).unwrap();
    assert_eq!(sealed.len(), 12 + data.len() + 16);
    assert_eq!(decrypt(&sealed, &key).unwrap(), data);
}

#[test]
fn decrypt_of_five_bytes_is_a_length_error() {
    let key = generate_key();
    assert_eq!(decrypt(&[1u8, 2, 3, 4, 5], &key), Err(CryptoError::TooShort));
}

#[test]
fn known_answer_for_aes_256_gcm() {
    // A known answer of AES-256-GCM: zero key, zero nonce, no data.
    let key = [0u8; 32];
    let nonce = [0u8; 12];
    let sealed = encrypt_with_nonce(&[], &key, &nonce).unwrap();
    let tag: [u8; 16] = [
        0x53, 0x0f, 0x8a, 0xfb, 0xc7, 0x45, 0x36, 0xb9, 0xa9, 0x63, 0xb4, 0xf1, 0xc4, 0xcb, 0x73,
        0x8b,
    ];
    let mut expected = nonce.to_vec();
    expected.extend_from_slice(&tag);
    assert_eq!(sealed, expected);
}

#[test]
fn sign_is_sha256_of_key_then_data() {
    // SHA-256("abc")
    let expected: [u8; 32] = [
        0xba, 0x78, 0x16, 0xbf, 0x8f, 0x01, 0xcf, 0xea, 0x41, 0x41, 0x40, 0xde, 0x5d, 0xae, 0x22,
        0x23, 0xb0, 0x03, 0x61, 0xa3, 0x96, 0x17, 0x7a, 0x9c, 0xb4, 0x10, 0xff, 0x61, 0xf2, 0x00,
        0x15, 0xad,
    ];
    assert_eq!(sign(b"bc", b"a"), expected.to_vec());
    assert_eq!(sign(b"", b"abc"), expected.to_vec());
    assert!(verify(b"bc", b"a", &expected));
}

#[test]
fn clear_key_zeroes_every_byte() {
    let mut key = generate_key().to_vec();
    key[0] = 7;
    clear_key(&mut key);
    assert_eq!(key, vec![0u8; 32]);
}

#[test]
fn fingerprint_of_empty_key() {
    // SHA-256("") starts e3b0c44298fc1c149afbf4c8996fb924
    assert_eq!(compute_fingerprint(b""), "47DEQpj8HBSa+/TImW+5JA==");
    assert_eq!(digest_prefix(&[9u8; 32]), &[9u8; 16]);
    assert_eq!(digest_prefix(&[9u8; 3]), &[9u8; 3]);
    assert!(constant_time_eq(b"ab", b"ab"));
    assert!(!constant_time_eq(b"ab", b"ac"));
    assert_ne!(generate_iv().len(), 0);
}

#[test]
fn decrypt_with_another_key_fails() {
    let key = [1u8; 32];
    let other = [2u8; 32];
    let sealed = encrypt(b"secret chunk", &key).unwrap();
    assert_eq!(decrypt(&sealed, &other), Err(CryptoError::Authentication));
}

#[test]
fn decrypt_of_truncated_ciphertext_fails() {
    let key = [1u8; 32];
    let sealed = encrypt(b"secret chunk", &key).unwrap();
    let cut = &sealed[..sealed.len() - 1];
    assert_eq!(decrypt(cut, &key), Err(CryptoError::Authentication));
    // a nonce alone holds no tag
    assert_eq!(decrypt(&sealed[..12], &key), Err(CryptoError::Authentication));
    assert_eq!(decrypt(&sealed[..11], &key), Err(CryptoError::TooShort));
}

#[test]
fn decrypt_of_tampered_ciphertext_fails() {
    let key = [1u8; 32];
    let mut sealed = encrypt(b"secret chunk", &key).unwrap();
    sealed[14] ^= 0x01;
    assert_eq!(decrypt(&sealed, &key), Err(CryptoError::Authentication));
}

#[test]
fn keys_of_the_wrong_length_are_refused() {
    assert_eq!(encrypt(b"data", &[0u8; 16]), Err(CryptoError::InvalidKeyLength));
    assert_eq!(encrypt(b"data", &[0u8; 33]), Err(CryptoError::InvalidKeyLength));
    let sealed = encrypt(b"data", &[0u8; 32]).unwrap();
    assert_eq!(decrypt(&sealed, &[0u8; 31]), Err(CryptoError::InvalidKeyLength));
    // the length of the buffer is checked before the key
    assert_eq!(decrypt(&[0u8; 3], &[0u8; 31]), Err(CryptoError::TooShort));
}

#[test]
fn encrypt_starts_with_its_nonce() {
    let key = [9u8; 32];
    let nonce = [3u8; 12];
    let sealed = encrypt_with_nonce(b"abc", &key, &nonce).unwrap();
    assert_eq!(&sealed[..12], &nonce);
    assert_eq!(sealed.len(), 12 + 3 + 16);
    assert_eq!(decrypt(&sealed, &key).unwrap(), b"abc".to_vec());
    // the same nonce gives the same buffer, another nonce another one
    assert_eq!(encrypt_with_nonce(b"abc", &key, &nonce).unwrap(), sealed);
    assert_ne!(encrypt_with_nonce(b"abc", &key, &[4u8; 12]).unwrap(), sealed);
}

#[test]
fn encrypt_of_empty_data_round_trips() {
    let key = generate_key();
    let sealed = encrypt(&[], &key).unwrap();
    assert_eq!(sealed.len(), 28);
    assert_eq!(decrypt(&sealed, &key).unwrap(), Vec::<u8>::new());
}

#[test]
fn verify_accepts_only_the_signature_of_the_same_data_and_key() {
    let key = generate_key();
    let data = b"chunk 17".to_vec();
    let signature = sign(&data, &key);
    assert_eq!(signature.len(), 32);
    assert!(verify(&data, &key, &signature));

    let mut other_data = data.clone();
    other_data[0] ^= 0x80;
    assert!(!verify(&other_data, &key, &signature));

    let mut other_key = key;
    other_key[31] ^= 0x01;
    assert!(!verify(&data, &other_key, &signature));

    let mut other_signature = signature.clone();
    other_signature[5] ^= 0x10;
    assert!(!verify(&data, &key, &other_signature));
    assert!(!verify(&data, &key, &signature[..31]));
    assert!(!verify(&data, &key, &[]));
}

#[test]
fn generated_keys_and_nonces_differ() {
    assert_ne!(generate_key(), generate_key());
    assert_ne!(generate_iv(), generate_iv());
    assert_eq!(generate_key().len(), 32);
    assert_eq!(generate_iv().len(), 12);
}

#[test]
fn fingerprint_is_base64_of_sixteen_digest_bytes() {
    // SHA-256("abc") = ba7816bf 8f01cfea 414140de 5dae2223 ...
    assert_eq!(compute_fingerprint(b"abc"), "ungWv48Bz+pBQUDeXa4iIw==");
    assert_eq!(compute_fingerprint(b"abc").len(), 24);
    assert_ne!(compute_fingerprint(b"abc"), compute_fingerprint(b"abd"));
}

#[test]
fn error_messages() {
    assert_eq!(CryptoError::InvalidKeyLength.message(), "Invalid Length");
    assert_eq!(CryptoError::TooShort.message(), "加密数据太短");
    assert_eq!(CryptoError::Authentication.message(), "aead::Error");
    assert_eq!(CryptoError::Encryption.message(), "aead::Error");
}

#[test]
fn constant_time_eq_compares_contents() {
    assert!(constant_time_eq(&[], &[]));
    assert!(!constant_time_eq(&[0], &[]));
    assert!(!constant_time_eq(&[1, 2, 3], &[1, 2, 4]));
    assert!(!constant_time_eq(&[0x0f], &[0xf0]));
    assert!(constant_time_eq(&[255, 0, 7], &[255, 0, 7]));
}
