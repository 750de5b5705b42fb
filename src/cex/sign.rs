//! Signatures of authenticated exchange requests.
use vstd::prelude::*;
use vstd::string::StringExecFns;
use base64::Engine;
use hmac::Mac;

verus! {

/// HMAC-SHA256 of the UTF-8 bytes of `message` under the UTF-8 bytes of `key`.
pub uninterp spec fn hmac_sha256_of(key: Seq<char>, message: Seq<char>) -> Seq<u8>;

/// Character of a six-bit value in the standard base64 alphabet.
pub open spec fn base64_char(v: int) -> char {
    "ABCDEFGHIJKLMNOPQRSTUVWXYZabcdefghijklmnopqrstuvwxyz0123456789+/"@[v]
}

/// Standard base64 encoding of `bytes`: each group of three bytes becomes four
/// characters of six bits each; a last group of one or two bytes is padded
/// with `=`.
pub open spec fn base64_of(bytes: Seq<u8>) -> Seq<char>
    decreases bytes.len(),
{
    if bytes.len() == 0 {
        Seq::empty()
    } else if bytes.len() == 1 {
        seq![base64_char((bytes[0] as int) / 4), base64_char(((bytes[0] as int) % 4) * 16), '=', '=']
    } else if bytes.len() == 2 {
        seq![
            base64_char((bytes[0] as int) / 4),
            base64_char(((bytes[0] as int) % 4) * 16 + (bytes[1] as int) / 16),
            base64_char(((bytes[1] as int) % 16) * 4),
            '=',
        ]
    } else {
        seq![
            base64_char((bytes[0] as int) / 4),
            base64_char(((bytes[0] as int) % 4) * 16 + (bytes[1] as int) / 16),
            base64_char(((bytes[1] as int) % 16) * 4 + (bytes[2] as int) / 64),
            base64_char((bytes[2] as int) % 64),
        ] + base64_of(bytes.skip(3))
    }
}

/// Relies on `hmac::Hmac<sha2::Sha256>` (`new_from_slice`, `update`,
/// `finalize`): a 32-byte tag that depends on the key and message alone.
/// `new_from_slice` hashes over-long keys and never fails for HMAC.
#[verifier::external_body]
fn hmac_sha256(key: &str, message: &str) -> (r: Vec<u8>)
    ensures
        r@ == hmac_sha256_of(key@, message@),
        r@.len() == 32,
{
    match hmac::Hmac::<sha2::Sha256>::new_from_slice(key.as_bytes()) {
        Ok(mut mac) => {
            mac.update(message.as_bytes());
            mac.finalize().into_bytes().to_vec()
        },
        Err(_) => Vec::new(),
    }
}

/// Relies on `base64::engine::general_purpose::STANDARD.encode`: the standard
/// alphabet with padding, four characters per started group of three bytes.
/// It panics only when that length overflows `usize`, which `requires` rules out.
#[verifier::external_body]
fn base64_encode(bytes: &[u8]) -> (r: String)
    requires
        bytes@.len() <= usize::MAX / 4,
    ensures
        r@ == base64_of(bytes@),
        r@.len() == 4 * ((bytes@.len() + 2) / 3),
{
    base64::engine::general_purpose::STANDARD.encode(bytes)
}

/// The text an exchange signs: timestamp, method, path and body, joined.
pub open spec fn prehash(method: Seq<char>, endpoint: Seq<char>, body: Seq<char>, timestamp: Seq<char>) -> Seq<char> {
    timestamp + method + endpoint + body
}

/// Signature of a request: base64 of the HMAC-SHA256, under `secret`, of the
/// timestamp, method, path and body joined together.
pub fn sign(secret: &str, method: &str, endpoint: &str, body: &str, timestamp: &str) -> (r: String)
    ensures
        r@ == base64_of(hmac_sha256_of(secret@, prehash(method@, endpoint@, body@, timestamp@))),
        r@.len() == 44,
{
    let text = String::from_str(timestamp).concat(method).concat(endpoint).concat(body);
    assert(text@ == prehash(method@, endpoint@, body@, timestamp@));
    let tag = hmac_sha256(secret, text.as_str());
    base64_encode(tag.as_slice())
}

} // verus!
