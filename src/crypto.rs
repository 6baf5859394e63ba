//! Deterministic password ciphertexts: AES-256-CTR whose IV is derived from
//! the plaintext itself, so equal passwords give equal ciphertexts.
use vstd::prelude::*;
use vstd::utf8::{decode_utf8, encode_utf8, valid_utf8};
use base64::Engine;
use ctr::cipher::{KeyIvInit, StreamCipher};

verus! {

#[verifier::external_type_specification]
#[verifier::external_body]
pub struct ExInvalidLength(ctr::cipher::InvalidLength);

#[verifier::external_type_specification]
#[verifier::external_body]
pub struct ExDecodeError(base64::DecodeError);

/// The SHA-256 digest of `data`.
pub uninterp spec fn sha256_of(data: Seq<u8>) -> Seq<u8>;

/// `data` run through AES-256 in CTR mode (64-bit big-endian counter) under
/// `key` and `iv`.
pub uninterp spec fn aes256_ctr_of(key: Seq<u8>, iv: Seq<u8>, data: Seq<u8>) -> Seq<u8>;

/// URL-safe base64 text of `data`, with padding.
pub uninterp spec fn base64_url_of(data: Seq<u8>) -> Seq<char>;

/// The bytes that URL-safe base64 `text` stands for, `None` when it is not
/// valid URL-safe base64.
pub uninterp spec fn base64_url_decoded(text: Seq<char>) -> Option<Seq<u8>>;

/// Relies on sha2's `Sha256::digest`: a 32-byte digest of the input alone.
#[verifier::external_body]
fn sha256(data: &[u8]) -> (r: Vec<u8>)
    ensures
        r@ == sha256_of(data@),
        r@.len() == 32,
{
    <sha2::Sha256 as sha2::Digest>::digest(data).to_vec()
}

/// Relies on ctr's `Ctr64BE::<Aes256>::new_from_slices` (an error exactly
/// when the key is not 32 bytes or the IV not 16) and `apply_keystream`,
/// which XORs the data in place with a key stream fixed by key and IV: the
/// length is kept, and applying it twice gives the data back.
#[verifier::external_body]
fn aes256_ctr(key: &[u8], iv: &[u8], data: &[u8]) -> (r: Result<
    Vec<u8>,
    ctr::cipher::InvalidLength,
>)
    ensures
        r matches Ok(v) ==> v@ == aes256_ctr_of(key@, iv@, data@),
        r is Ok <==> (key@.len() == 32 && iv@.len() == 16),
        r matches Ok(v) ==> v@.len() == data@.len(),
        r matches Ok(v) ==> forall|x: Seq<u8>| #[trigger]
            aes256_ctr_of(key@, iv@, x) == data@ ==> v@ == x,
{
    let mut cipher = ctr::Ctr64BE::<aes::Aes256>::new_from_slices(key, iv)?;
    let mut buf = data.to_vec();
    cipher.apply_keystream(&mut buf);
    Ok(buf)
}

/// Relies on base64's `URL_SAFE` engine `encode`.
#[verifier::external_body]
fn base64_url(data: &[u8]) -> (r: String)
    ensures
        r@ == base64_url_of(data@),
{
    base64::engine::general_purpose::URL_SAFE.encode(data)
}

/// Relies on base64's `URL_SAFE` engine `decode`, which accepts the padded
/// text its `encode` writes and gives the bytes back.
#[verifier::external_body]
fn base64_url_decode(text: &str) -> (r: Result<Vec<u8>, base64::DecodeError>)
    ensures
        r matches Ok(v) ==> base64_url_decoded(text@) == Some(v@),
        r is Err ==> base64_url_decoded(text@) is None,
        r matches Ok(v) ==> forall|d: Seq<u8>| #[trigger] base64_url_of(d) == text@ ==> v@ == d,
        r is Err ==> forall|d: Seq<u8>| #[trigger] base64_url_of(d) != text@,
{
    base64::engine::general_purpose::URL_SAFE.decode(text)
}

/// Relies on `String::from_utf8`: it fails exactly on bytes that are not
/// UTF-8.
#[verifier::external_body]
fn utf8_string(bytes: Vec<u8>) -> (r: Option<String>)
    ensures
        r is Some <==> valid_utf8(bytes@),
        r matches Some(s) ==> s@ == decode_utf8(bytes@),
{
    match String::from_utf8(bytes) {
        Ok(s) => Some(s),
        Err(_) => None,
    }
}

/// The IV for `text`: the first 16 bytes of the SHA-256 of its UTF-8 bytes.
pub open spec fn iv_of(text: Seq<char>) -> Seq<u8> {
    sha256_of(encode_utf8(text)).take(16)
}

/// The stored form of password `text` under `key`.
pub open spec fn ciphertext_of(text: Seq<char>, key: Seq<u8>) -> Seq<char> {
    base64_url_of(aes256_ctr_of(key, iv_of(text), encode_utf8(text)))
}

/// What `decrypt_text` yields for `encrypted`, given the plaintext `original`
/// that fixed the IV.
pub open spec fn decrypted_of(encrypted: Seq<char>, original: Seq<char>, key: Seq<u8>) -> Option<
    Seq<char>,
> {
    match base64_url_decoded(encrypted) {
        Some(b) => {
            let d = aes256_ctr_of(key, iv_of(original), b);
            if valid_utf8(d) {
                Some(decode_utf8(d))
            } else {
                None
            }
        },
        None => None,
    }
}

/// The 16-byte IV derived from `plain_text`.
pub fn generate_iv(plain_text: &str) -> (r: Vec<u8>)
    ensures
        r@ == iv_of(plain_text@),
        r@.len() == 16,
{
    let hash = sha256(plain_text.as_bytes());
    let mut iv: Vec<u8> = Vec::new();
    let mut i: usize = 0;
    while i < 16
        invariant
            hash@.len() == 32,
            i <= 16,
            iv@ == hash@.take(i as int),
        decreases 16 - i,
    {
        iv.push(hash[i]);
        i += 1;
        assert(iv@ =~= hash@.take(i as int));
    }
    iv
}

/// Encrypts `plain_text` with AES-256-CTR under `key`, the IV derived from
/// the text itself, and encodes the ciphertext as URL-safe base64. Equal
/// texts give equal results.
pub fn encrypt_text(plain_text: &str, key: &[u8]) -> (r: String)
    requires
        key@.len() == 32,
    ensures
        r@ == ciphertext_of(plain_text@, key@),
{
    let iv = generate_iv(plain_text);
    match aes256_ctr(key, iv.as_slice(), plain_text.as_bytes()) {
        Ok(data) => base64_url(data.as_slice()),
        Err(_) => String::new(),
    }
}

/// Decrypts `encrypted_text`, whose IV was derived from `original_text`.
/// `None` when the text is not URL-safe base64 or does not decrypt to UTF-8.
pub fn decrypt_text(encrypted_text: &str, original_text: &str, key: &[u8]) -> (r: Option<String>)
    requires
        key@.len() == 32,
    ensures
        match r {
            Some(s) => decrypted_of(encrypted_text@, original_text@, key@) == Some(s@),
            None => decrypted_of(encrypted_text@, original_text@, key@) is None,
        },
        encrypted_text@ == ciphertext_of(original_text@, key@) ==> (r matches Some(s) && s@
            == original_text@),
{
    broadcast use vstd::utf8::encode_utf8_decode_utf8, vstd::utf8::encode_utf8_valid_utf8;

    let iv = generate_iv(original_text);
    let data = match base64_url_decode(encrypted_text) {
        Ok(d) => d,
        Err(_) => return None,
    };
    match aes256_ctr(key, iv.as_slice(), data.as_slice()) {
        Ok(plain) => utf8_string(plain),
        Err(_) => None,
    }
}

} // verus!
