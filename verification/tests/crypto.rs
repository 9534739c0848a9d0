use aes_gcm::aead::Aead;
use aes_gcm::{Aes256Gcm, Key, KeyInit, Nonce};
use base64::Engine;
use shellmars::utils::crypto::{
    decrypt_password, derive_key_from_password, encrypt_password, encrypt_with_nonce,
    generate_master_key, CryptoFault, KEY_LEN, NONCE_LEN,
};

fn key() -> Vec<u8> {
    (0u8..32).collect()
}

#[test]
fn master_keys_are_random_and_of_the_right_length() {
    let a = generate_master_key();
    let b = generate_master_key();
    assert_eq!(a.len(), KEY_LEN);
    assert_eq!(KEY_LEN, 32);
    assert_eq!(NONCE_LEN, 12);
    assert_ne!(a, b);
}

#[test]
fn decrypt_inverts_encrypt() {
    for password in ["p", "", "pässwörd 密码 \u{1f511}", "a much longer password, with spaces"] {
        let stored = encrypt_password(password, &key()).expect("encrypts");
        assert_ne!(stored, password);
        assert_eq!(decrypt_password(&stored, &key()).expect("decrypts"), password);
    }
}

#[test]
fn encryption_draws_a_fresh_nonce() {
    let a = encrypt_password("same", &key()).expect("encrypts");
    let b = encrypt_password("same", &key()).expect("encrypts");
    assert_ne!(a, b);
}

#[test]
fn encryption_under_a_given_nonce_is_a_function() {
    let nonce = [7u8; 12];
    let a = encrypt_with_nonce("secret", &key(), &nonce).expect("encrypts");
    let b = encrypt_with_nonce("secret", &key(), &nonce).expect("encrypts");
    assert_eq!(a, b);
    // 12 bytes of nonce, 6 of ciphertext and 16 of tag make 34 bytes: 48 characters of base64.
    assert_eq!(a.len(), 48);
    assert!(a.ends_with('='));
    // The nonce stands first: sixteen characters of base64 for twelve bytes.
    assert_eq!(&a[..16], "BwcHBwcHBwcHBwcH");
    assert_eq!(decrypt_password(&a, &key()).expect("decrypts"), "secret");
    let other = encrypt_with_nonce("secret", &key(), &[8u8; 12]).expect("encrypts");
    assert_ne!(a, other);
}

#[test]
fn wrong_key_does_not_decrypt() {
    let stored = encrypt_password("secret", &key()).expect("encrypts");
    let other: Vec<u8> = (1u8..33).collect();
    let error = decrypt_password(&stored, &other).expect_err("wrong key");
    assert_eq!(error.fault, CryptoFault::DecryptFailed);
    assert_eq!(error.message(), "解密失败: aead::Error");
}

#[test]
fn text_that_is_no_base64_is_refused() {
    let error = decrypt_password("not base64!", &key()).expect_err("bad text");
    assert_eq!(error.fault, CryptoFault::BadEncoding);
    assert!(error.message().starts_with("base64解码失败: "));
    assert!(error.message().len() > "base64解码失败: ".len());
}

#[test]
fn data_shorter_than_a_nonce_is_refused() {
    // Eight bytes only.
    let error = decrypt_password("AAAAAAAAAAA=", &key()).expect_err("too short");
    assert_eq!(error.fault, CryptoFault::TooShort);
    assert_eq!(error.message(), "数据太短");
    let error = decrypt_password("", &key()).expect_err("too short");
    assert_eq!(error.fault, CryptoFault::TooShort);
}

#[test]
fn a_nonce_alone_does_not_decrypt() {
    // Twelve bytes: a nonce and no tag.
    let error = decrypt_password("AAAAAAAAAAAAAAAA", &key()).expect_err("no tag");
    assert_eq!(error.fault, CryptoFault::DecryptFailed);
}

#[test]
fn changed_data_does_not_decrypt() {
    let stored = encrypt_with_nonce("secret", &key(), &[7u8; 12]).expect("encrypts");
    let mut changed = stored.clone().into_bytes();
    changed[20] = if changed[20] == b'A' { b'B' } else { b'A' };
    let changed = String::from_utf8(changed).expect("ascii");
    let error = decrypt_password(&changed, &key()).expect_err("changed");
    assert_eq!(error.fault, CryptoFault::DecryptFailed);
}

#[test]
fn derived_keys_depend_on_password_and_salt() {
    let a = derive_key_from_password("password", b"salt");
    let b = derive_key_from_password("password", b"salt");
    let c = derive_key_from_password("password", b"pepper");
    let d = derive_key_from_password("Password", b"salt");
    assert_eq!(a.len(), KEY_LEN);
    assert_eq!(a, b);
    assert_ne!(a, c);
    assert_ne!(a, d);
    assert_ne!(&a[..8], b"password");
    // A derived key serves as a master key.
    let stored = encrypt_password("secret", &a).expect("encrypts");
    assert_eq!(decrypt_password(&stored, &a).expect("decrypts"), "secret");
}

/// Seals `plaintext` as the library would, without asking that it be text.
fn stored_form_of(plaintext: &[u8], nonce: [u8; 12]) -> String {
    let key = key();
    let cipher = Aes256Gcm::new(Key::<Aes256Gcm>::from_slice(&key));
    let mut data = nonce.to_vec();
    data.extend(cipher.encrypt(Nonce::from_slice(&nonce), plaintext).expect("seals"));
    base64::engine::general_purpose::STANDARD.encode(data)
}

#[test]
fn stored_form_is_nonce_then_sealed_password_in_base64() {
    let nonce = [9u8; 12];
    let by_hand = stored_form_of("secret".as_bytes(), nonce);
    let by_library = encrypt_with_nonce("secret", &key(), &nonce).expect("encrypts");
    assert_eq!(by_library, by_hand);
}

#[test]
fn sealed_bytes_that_are_no_text_are_refused() {
    let stored = stored_form_of(&[0x66, 0xff, 0xfe], [1u8; 12]);
    let error = decrypt_password(&stored, &key()).expect_err("no text");
    assert_eq!(error.fault, CryptoFault::BadText);
    assert!(error.message().starts_with("UTF8转换失败: "));
}

#[test]
fn derived_key_is_pbkdf2_with_sha256_in_a_hundred_thousand_rounds() {
    let expected = pbkdf2::pbkdf2_hmac_array::<sha2::Sha256, 32>(b"password", b"salt", 100_000);
    assert_eq!(derive_key_from_password("password", b"salt"), expected.to_vec());
}
