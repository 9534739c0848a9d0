//! Protecting stored passwords: AES-256-GCM under a master key, the nonce
//! and the ciphertext together in base64.

use vstd::prelude::*;
use aes_gcm::aead::Aead;
use aes_gcm::{Aes256Gcm, Key, KeyInit, Nonce};
use base64::Engine;
use rand::Rng;
use vstd::utf8::{decode_utf8, encode_utf8, valid_utf8};
use crate::text::joined;

verus! {

/// Length of a master key, in bytes.
pub const KEY_LEN: usize = 32;

/// Length of a nonce, in bytes.
pub const NONCE_LEN: usize = 12;

/// Rounds of the key derivation.
pub const DERIVE_ROUNDS: u32 = 100_000;

/// What AES-256-GCM makes of `plaintext` under `key` and `nonce`, with no
/// associated data: the ciphertext followed by its tag, or nothing where
/// the cipher refuses the message.
pub uninterp spec fn sealed(key: Seq<u8>, nonce: Seq<u8>, plaintext: Seq<u8>) -> Option<Seq<u8>>;

/// What AES-256-GCM recovers from `ciphertext` under `key` and `nonce`,
/// with no associated data, or nothing where the tag does not match.
pub uninterp spec fn opened(key: Seq<u8>, nonce: Seq<u8>, ciphertext: Seq<u8>) -> Option<Seq<u8>>;

/// The standard base64 text, with padding, of `bytes`.
pub uninterp spec fn base64_text(bytes: Seq<u8>) -> Seq<char>;

/// The bytes that the standard base64 text `text` stands for, or nothing
/// where it is no such text.
pub uninterp spec fn base64_bytes(text: Seq<char>) -> Option<Seq<u8>>;

/// The key of `len` bytes that PBKDF2 with HMAC-SHA-256 derives from
/// `password` and `salt` in the given number of rounds.
pub uninterp spec fn derived_key(password: Seq<u8>, salt: Seq<u8>, rounds: u32, len: usize) -> Seq<
    u8,
>;

/// Whether `len` bytes can be written as base64 without the length of the
/// text overflowing.
pub open spec fn can_encode(len: nat) -> bool {
    len / 3 < usize::MAX / 4
}

/// What went wrong with a stored password.
#[derive(Debug, Clone, Copy, PartialEq, Eq, Structural)]
pub enum CryptoFault {
    /// The cipher refused to encrypt.
    EncryptFailed,
    /// The encrypted password is too long to be written as base64.
    TooLong,
    /// The stored text is not base64.
    BadEncoding,
    /// The stored bytes are fewer than a nonce.
    TooShort,
    /// The cipher refused to decrypt: wrong key, or the data was changed.
    DecryptFailed,
    /// The decrypted bytes are not UTF-8.
    BadText,
}

impl CryptoFault {
    /// What the message of this fault begins with.
    pub open spec fn prefix(self) -> Seq<char> {
        match self {
            CryptoFault::EncryptFailed => "加密失败: "@,
            CryptoFault::TooLong => "加密失败: "@,
            CryptoFault::BadEncoding => "base64解码失败: "@,
            CryptoFault::TooShort => "数据太短"@,
            CryptoFault::DecryptFailed => "解密失败: "@,
            CryptoFault::BadText => "UTF8转换失败: "@,
        }
    }

    /// What the message of this fault begins with.
    pub fn label(self) -> (text: &'static str)
        ensures
            text@ == self.prefix(),
    {
        match self {
            CryptoFault::EncryptFailed => "加密失败: ",
            CryptoFault::TooLong => "加密失败: ",
            CryptoFault::BadEncoding => "base64解码失败: ",
            CryptoFault::TooShort => "数据太短",
            CryptoFault::DecryptFailed => "解密失败: ",
            CryptoFault::BadText => "UTF8转换失败: ",
        }
    }
}

/// A fault, with what the library that found it said of it.
#[derive(Debug)]
pub struct CryptoError {
    pub fault: CryptoFault,
    pub detail: String,
}

impl CryptoError {
    /// The text shown to the user for this error.
    pub fn message(&self) -> (msg: String)
        ensures
            msg@ == self.fault.prefix() + self.detail@,
    {
        joined(self.fault.label(), self.detail.as_str())
    }
}

/// The stored form of `password` under `key` and `nonce`: the base64 text
/// of the nonce followed by the sealed password.
pub open spec fn encrypted_with(password: Seq<char>, key: Seq<u8>, nonce: Seq<u8>) -> Result<
    Seq<char>,
    CryptoFault,
> {
    match sealed(key, nonce, encode_utf8(password)) {
        None => Err(CryptoFault::EncryptFailed),
        Some(ciphertext) => if can_encode((nonce + ciphertext).len()) {
            Ok(base64_text(nonce + ciphertext))
        } else {
            Err(CryptoFault::TooLong)
        },
    }
}

/// The password that the stored form `encrypted` holds under `key`.
pub open spec fn decrypted(encrypted: Seq<char>, key: Seq<u8>) -> Result<Seq<char>, CryptoFault> {
    match base64_bytes(encrypted) {
        None => Err(CryptoFault::BadEncoding),
        Some(data) => if data.len() < NONCE_LEN {
            Err(CryptoFault::TooShort)
        } else {
            match opened(key, data.take(NONCE_LEN as int), data.skip(NONCE_LEN as int)) {
                None => Err(CryptoFault::DecryptFailed),
                Some(plaintext) => if valid_utf8(plaintext) {
                    Ok(decode_utf8(plaintext))
                } else {
                    Err(CryptoFault::BadText)
                },
            }
        },
    }
}

/// `rand::thread_rng` followed by `Rng::fill` on a buffer of `len` bytes:
/// that many bytes from the thread's random number generator. Nothing is
/// promised of their values; the call does not return where the
/// generator cannot be fed by the system.
#[verifier::external_body]
pub(crate) fn random_bytes(len: usize) -> (bytes: Vec<u8>)
    ensures
        bytes.len() == len,
{
    let mut bytes = vec![0u8; len];
    rand::thread_rng().fill(&mut bytes[..]);
    bytes
}

/// `Aead::encrypt` of `aes_gcm::Aes256Gcm`: the plaintext encrypted under
/// the key of 32 bytes and the nonce of 12, followed by the tag. The
/// result depends on the three alone, and `Aead::decrypt` with the same key
/// and nonce gives the plaintext back.
#[verifier::external_body]
pub(crate) fn seal(key: &[u8], nonce: &[u8], plaintext: &[u8]) -> (ciphertext: Option<Vec<u8>>)
    requires
        key@.len() == KEY_LEN,
        nonce@.len() == NONCE_LEN,
    ensures
        match ciphertext {
            Some(bytes) => sealed(key@, nonce@, plaintext@) == Some(bytes@) && opened(
                key@,
                nonce@,
                bytes@,
            ) == Some(plaintext@),
            None => sealed(key@, nonce@, plaintext@) is None,
        },
{
    let cipher = Aes256Gcm::new(Key::<Aes256Gcm>::from_slice(key));
    cipher.encrypt(Nonce::from_slice(nonce), plaintext).ok()
}

/// `Aead::decrypt` of `aes_gcm::Aes256Gcm`: the plaintext recovered from
/// the ciphertext and its tag under the key of 32 bytes and the nonce of
/// 12, or nothing where the tag does not match.
#[verifier::external_body]
pub(crate) fn open(key: &[u8], nonce: &[u8], ciphertext: &[u8]) -> (plaintext: Option<Vec<u8>>)
    requires
        key@.len() == KEY_LEN,
        nonce@.len() == NONCE_LEN,
    ensures
        match plaintext {
            Some(bytes) => opened(key@, nonce@, ciphertext@) == Some(bytes@),
            None => opened(key@, nonce@, ciphertext@) is None,
        },
{
    let cipher = Aes256Gcm::new(Key::<Aes256Gcm>::from_slice(key));
    cipher.decrypt(Nonce::from_slice(nonce), ciphertext).ok()
}

/// `Engine::encode` of `base64::engine::general_purpose::STANDARD`: the
/// base64 text of the bytes. The text depends on the bytes alone, and
/// decoding it gives the bytes back.
#[verifier::external_body]
pub(crate) fn base64_encode(bytes: &Vec<u8>) -> (text: String)
    requires
        can_encode(bytes@.len()),
    ensures
        text@ == base64_text(bytes@),
        base64_bytes(text@) == Some(bytes@),
{
    base64::engine::general_purpose::STANDARD.encode(bytes)
}

/// `Engine::decode` of `base64::engine::general_purpose::STANDARD`: the
/// bytes that the text stands for, or, where it is no base64 text, the
/// decoder's description of what is wrong with it.
#[verifier::external_body]
pub(crate) fn base64_decode(text: &str) -> (bytes: Result<Vec<u8>, String>)
    ensures
        match bytes {
            Ok(data) => base64_bytes(text@) == Some(data@),
            Err(_) => base64_bytes(text@) is None,
        },
{
    base64::engine::general_purpose::STANDARD.decode(text).map_err(|e| e.to_string())
}

/// `String::from_utf8`: the text that the bytes encode, or, where they
/// are not valid UTF-8, the standard library's description of the fault.
#[verifier::external_body]
pub(crate) fn utf8_to_string(bytes: Vec<u8>) -> (text: Result<String, String>)
    ensures
        match text {
            Ok(s) => valid_utf8(bytes@) && s@ == decode_utf8(bytes@),
            Err(_) => !valid_utf8(bytes@),
        },
{
    String::from_utf8(bytes).map_err(|e| e.to_string())
}

/// `pbkdf2::pbkdf2_hmac` with SHA-256 into a buffer of `len` bytes: the
/// derived key, which depends on password, salt, rounds and length alone.
#[verifier::external_body]
pub(crate) fn pbkdf2_sha256(password: &[u8], salt: &[u8], rounds: u32, len: usize) -> (key: Vec<u8>)
    ensures
        key@ == derived_key(password@, salt@, rounds, len),
        key.len() == len,
{
    let mut key = vec![0u8; len];
    pbkdf2::pbkdf2_hmac::<sha2::Sha256>(password, salt, rounds, &mut key);
    key
}

/// The bytes of `data` from position `from` up to, not including, `to`.
fn bytes_between(data: &Vec<u8>, from: usize, to: usize) -> (part: Vec<u8>)
    requires
        from <= to <= data.len(),
    ensures
        part@ == data@.subrange(from as int, to as int),
{
    let mut part: Vec<u8> = Vec::new();
    let mut i: usize = from;
    while i < to
        invariant
            from <= i <= to <= data.len(),
            part@ == data@.subrange(from as int, i as int),
        decreases to - i,
    {
        part.push(data[i]);
        proof {
            assert(data@.subrange(from as int, i as int).push(data@[i as int]) =~= data@.subrange(
                from as int,
                i + 1,
            ));
        }
        i += 1;
    }
    part
}

/// The stored form of `password` under `master_key` and `nonce`. What is
/// returned can be decrypted under the same key, and gives the password.
pub fn encrypt_with_nonce(password: &str, master_key: &[u8], nonce: &[u8]) -> (result: Result<
    String,
    CryptoError,
>)
    requires
        master_key@.len() == KEY_LEN,
        nonce@.len() == NONCE_LEN,
    ensures
        match result {
            Ok(text) => encrypted_with(password@, master_key@, nonce@) == Ok::<
                Seq<char>,
                CryptoFault,
            >(text@) && decrypted(text@, master_key@) == Ok::<Seq<char>, CryptoFault>(password@),
            Err(error) => encrypted_with(password@, master_key@, nonce@) == Err::<
                Seq<char>,
                CryptoFault,
            >(error.fault),
        },
{
    broadcast use vstd::utf8::encode_utf8_valid_utf8, vstd::utf8::encode_utf8_decode_utf8;

    let plaintext: &[u8] = password.as_bytes();
    match seal(master_key, nonce, plaintext) {
        None => Err(CryptoError { fault: CryptoFault::EncryptFailed, detail: "aead::Error".to_owned() }),
        Some(ciphertext) => {
            let mut data: Vec<u8> = Vec::new();
            data.extend_from_slice(nonce);
            data.extend_from_slice(ciphertext.as_slice());
            proof {
                assert(data@ =~= nonce@ + ciphertext@);
                assert(data@.take(NONCE_LEN as int) =~= nonce@);
                assert(data@.skip(NONCE_LEN as int) =~= ciphertext@);
            }
            if data.len() / 3 >= usize::MAX / 4 {
                return Err(
                    CryptoError { fault: CryptoFault::TooLong, detail: "数据过长".to_owned() },
                );
            }
            Ok(base64_encode(&data))
        },
    }
}

/// The stored form of `password` under `master_key` and a fresh random
/// nonce.
pub fn encrypt_password(password: &str, master_key: &[u8]) -> (result: Result<String, CryptoError>)
    requires
        master_key@.len() == KEY_LEN,
    ensures
        match result {
            Ok(text) => decrypted(text@, master_key@) == Ok::<Seq<char>, CryptoFault>(password@)
                && exists|nonce: Seq<u8>|
                nonce.len() == NONCE_LEN && #[trigger] encrypted_with(password@, master_key@, nonce)
                    == Ok::<Seq<char>, CryptoFault>(text@),
            Err(error) => exists|nonce: Seq<u8>|
                nonce.len() == NONCE_LEN && #[trigger] encrypted_with(password@, master_key@, nonce)
                    == Err::<Seq<char>, CryptoFault>(error.fault),
        },
{
    let nonce: Vec<u8> = random_bytes(NONCE_LEN);
    encrypt_with_nonce(password, master_key, nonce.as_slice())
}

/// The password that the stored form `encrypted` holds under
/// `master_key`.
pub fn decrypt_password(encrypted: &str, master_key: &[u8]) -> (result: Result<String, CryptoError>)
    requires
        master_key@.len() == KEY_LEN,
    ensures
        match result {
            Ok(password) => decrypted(encrypted@, master_key@) == Ok::<Seq<char>, CryptoFault>(
                password@,
            ),
            Err(error) => decrypted(encrypted@, master_key@) == Err::<Seq<char>, CryptoFault>(
                error.fault,
            ),
        },
{
    let data: Vec<u8> = match base64_decode(encrypted) {
        Ok(data) => data,
        Err(detail) => {
            return Err(CryptoError { fault: CryptoFault::BadEncoding, detail });
        },
    };
    if data.len() < NONCE_LEN {
        return Err(CryptoError { fault: CryptoFault::TooShort, detail: String::new() });
    }
    let nonce: Vec<u8> = bytes_between(&data, 0, NONCE_LEN);
    let ciphertext: Vec<u8> = bytes_between(&data, NONCE_LEN, data.len());
    proof {
        assert(nonce@ =~= data@.take(NONCE_LEN as int));
        assert(ciphertext@ =~= data@.skip(NONCE_LEN as int));
    }
    match open(master_key, nonce.as_slice(), ciphertext.as_slice()) {
        None => Err(
            CryptoError { fault: CryptoFault::DecryptFailed, detail: "aead::Error".to_owned() },
        ),
        Some(plaintext) => match utf8_to_string(plaintext) {
            Ok(password) => Ok(password),
            Err(detail) => Err(CryptoError { fault: CryptoFault::BadText, detail }),
        },
    }
}

/// A fresh random master key of 32 bytes.
pub fn generate_master_key() -> (key: Vec<u8>)
    ensures
        key.len() == KEY_LEN,
{
    random_bytes(KEY_LEN)
}

/// The key of 32 bytes derived from what the user typed and a salt, in
/// 100,000 rounds.
pub fn derive_key_from_password(password: &str, salt: &[u8]) -> (key: Vec<u8>)
    ensures
        key@ == derived_key(encode_utf8(password@), salt@, DERIVE_ROUNDS, KEY_LEN),
        key.len() == KEY_LEN,
{
    pbkdf2_sha256(password.as_bytes(), salt, DERIVE_ROUNDS, KEY_LEN)
}

} // verus!
