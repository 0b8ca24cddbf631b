//! Signatures of requests.

use vstd::prelude::*;
use vstd::string::*;
use vstd::utf8::encode_utf8;

use crate::chain::{encode_hex, hex_text};
use crate::text::{decimal_text, u64_text};

verus! {

/// What a text in the URL-safe alphabet of Base64 stands for, if it is one.
pub uninterp spec fn base64_url_decoded(text: Seq<char>) -> Option<Seq<u8>>;

/// What a text in the standard alphabet of Base64 stands for, if it is one.
pub uninterp spec fn base64_decoded(text: Seq<char>) -> Option<Seq<u8>>;

/// The HMAC of a message under a key, with SHA-256.
pub uninterp spec fn hmac_sha256(key: Seq<u8>, message: Seq<u8>) -> Seq<u8>;

/// Decodes a text with `base64`'s engine `URL_SAFE`. Its result is taken to be a
/// function of the text alone.
#[verifier::external_body]
fn decode_url_safe(text: &str) -> (res: Option<Vec<u8>>)
    ensures
        match res {
            Some(b) => base64_url_decoded(text@) == Some(b@),
            None => base64_url_decoded(text@) is None,
        },
{
    base64::Engine::decode(&base64::engine::general_purpose::URL_SAFE, text).ok()
}

/// Decodes a text with `base64`'s engine `STANDARD`. Its result is taken to be a
/// function of the text alone.
#[verifier::external_body]
fn decode_standard(text: &str) -> (res: Option<Vec<u8>>)
    ensures
        match res {
            Some(b) => base64_decoded(text@) == Some(b@),
            None => base64_decoded(text@) is None,
        },
{
    base64::Engine::decode(&base64::engine::general_purpose::STANDARD, text).ok()
}

/// Computes an HMAC with `hmac` and `sha2`: `Hmac::<Sha256>::new_from_slice`, which
/// takes keys of any length, then `update` and `finalize`. The result is taken to be a
/// function of key and message alone. It has 32 bytes.
#[verifier::external_body]
fn mac(key: &[u8], message: &[u8]) -> (res: Vec<u8>)
    ensures
        res@ == hmac_sha256(key@, message@),
        res@.len() == 32,
{
    let mut mac = <hmac::Hmac<sha2::Sha256> as hmac::Mac>::new_from_slice(key).expect(
        "HMAC takes keys of any length",
    );
    hmac::Mac::update(&mut mac, message);
    hmac::Mac::finalize(mac).into_bytes().to_vec()
}

/// The bytes of a secret: decoded from URL-safe Base64 where it is that, else from
/// standard Base64 where it is that, else its own bytes.
pub open spec fn secret_bytes(secret: Seq<char>) -> Seq<u8> {
    match base64_url_decoded(secret) {
        Some(bytes) => bytes,
        None => match base64_decoded(secret) {
            Some(bytes) => bytes,
            None => encode_utf8(secret),
        },
    }
}

/// The signature of a message: its HMAC in hexadecimal.
pub open spec fn signature(secret: Seq<char>, message: Seq<char>) -> Seq<char> {
    hex_text(hmac_sha256(secret_bytes(secret), encode_utf8(message)))
}

/// The bytes of a secret, given what decoding it in either alphabet has given.
pub fn choose_secret(url_safe: Option<Vec<u8>>, standard: Option<Vec<u8>>, secret: &str) -> (res:
    Vec<u8>)
    ensures
        res@ == match url_safe {
            Some(bytes) => bytes@,
            None => match standard {
                Some(bytes) => bytes@,
                None => encode_utf8(secret@),
            },
        },
{
    match url_safe {
        Some(bytes) => bytes,
        None => match standard {
            Some(bytes) => bytes,
            None => secret.as_bytes_vec(),
        },
    }
}

/// Signs a message with a secret.
pub fn sign(secret: &str, message: &str) -> (res: String)
    ensures
        res@ == signature(secret@, message@),
        res@.len() == 64,
{
    let key = choose_secret(decode_url_safe(secret), decode_standard(secret), secret);
    let code = mac(key.as_slice(), message.as_bytes());
    encode_hex(code.as_slice())
}

/// The message that the signature of a request covers.
pub open spec fn signed_message(
    method: Seq<char>,
    path: Seq<char>,
    body: Seq<char>,
    timestamp: nat,
) -> Seq<char> {
    method + path + body + decimal_text(timestamp)
}

/// The message that the signature of a request covers.
pub fn message_to_sign(method: &str, path: &str, body: &str, timestamp: u64) -> (res: String)
    ensures
        res@ == signed_message(method@, path@, body@, timestamp as nat),
{
    let mut res = method.to_owned();
    res.append(path);
    res.append(body);
    res.append(u64_text(timestamp).as_str());
    res
}

/// What is signed is the method, the path, the body and the time, one after the other; the key
/// is the secret decoded from Base64, its URL-safe alphabet before the standard one, and the
/// secret's own bytes where it is neither.
pub proof fn law_what_is_signed_and_by_what(
    secret: Seq<char>,
    method: Seq<char>,
    path: Seq<char>,
    body: Seq<char>,
    timestamp: nat,
)
    ensures
        signed_message(method, path, body, timestamp) == method + path + body + decimal_text(
            timestamp,
        ),
        base64_url_decoded(secret) matches Some(bytes) ==> secret_bytes(secret) == bytes,
        base64_url_decoded(secret) is None ==> (base64_decoded(secret) matches Some(bytes)
            ==> secret_bytes(secret) == bytes),
        base64_url_decoded(secret) is None && base64_decoded(secret) is None ==> secret_bytes(
            secret,
        ) == encode_utf8(secret),
        signature(secret, signed_message(method, path, body, timestamp)) == hex_text(
            hmac_sha256(
                secret_bytes(secret),
                encode_utf8(method + path + body + decimal_text(timestamp)),
            ),
        ),
{
}

} // verus!
