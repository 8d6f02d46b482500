//! Digests, encodings, randomness and the clock.

use base64::Engine;
use hmac::Mac;
use rand::RngCore;
use vstd::prelude::*;
use crate::text::bytes_of;

verus! {

/// The HMAC-SHA256 tag of `message` under `key`.
pub uninterp spec fn hmac_sha256_of(key: Seq<u8>, message: Seq<u8>) -> Seq<u8>;

/// `hmac::Hmac<sha2::Sha256>` accepts keys of any length; `finalize` gives the
/// tag of the key and of the message handed to `update`, 32 bytes long.
#[verifier::external_body]
pub(crate) fn hmac_sha256(key: &[u8], message: &[u8]) -> (r: Vec<u8>)
    ensures
        r@ == hmac_sha256_of(key@, message@),
        r@.len() == 32,
{
    let mut mac = hmac::Hmac::<sha2::Sha256>::new_from_slice(key).expect("keys have any length");
    mac.update(message);
    mac.finalize().into_bytes().to_vec()
}

/// `verify_slice` of `hmac::Hmac<sha2::Sha256>` accepts exactly the tag that
/// `finalize` would give.
#[verifier::external_body]
pub(crate) fn hmac_sha256_verify(key: &[u8], message: &[u8], tag: &[u8]) -> (r: bool)
    ensures
        r == (tag@ == hmac_sha256_of(key@, message@)),
{
    let mut mac = hmac::Hmac::<sha2::Sha256>::new_from_slice(key).expect("keys have any length");
    mac.update(message);
    mac.verify_slice(tag).is_ok()
}

/// The SHA-256 digest of `data`.
pub uninterp spec fn sha256_of(data: Seq<u8>) -> Seq<u8>;

/// `sha2::Sha256::digest` gives the digest of its argument, 32 bytes long.
#[verifier::external_body]
pub(crate) fn sha256(data: &[u8]) -> (r: Vec<u8>)
    ensures
        r@ == sha256_of(data@),
        r@.len() == 32,
{
    <sha2::Sha256 as sha2::Digest>::digest(data).to_vec()
}

/// The MD5 digest of `data`.
pub uninterp spec fn md5_of(data: Seq<u8>) -> Seq<u8>;

/// `md5::compute` gives the digest of its argument, 16 bytes long.
#[verifier::external_body]
pub(crate) fn md5_digest(data: &[u8]) -> (r: Vec<u8>)
    ensures
        r@ == md5_of(data@),
        r@.len() == 16,
{
    md5::compute(data).0.to_vec()
}

/// The URL-safe base64 form of `data`, without padding.
pub uninterp spec fn base64url_of(data: Seq<u8>) -> Seq<char>;

/// The bytes that `encoded` stands for in URL-safe base64 without padding, or
/// what is wrong with it.
pub uninterp spec fn base64url_decoded(encoded: Seq<u8>) -> Result<Seq<u8>, Seq<char>>;

/// Whether `encoded` stands for `data`.
pub open spec fn base64url_stands_for(encoded: Seq<u8>, data: Seq<u8>) -> bool {
    base64url_decoded(encoded) == Ok::<Seq<u8>, Seq<char>>(data)
}

/// `URL_SAFE_NO_PAD.encode` of the crate `base64` gives a text from which
/// `URL_SAFE_NO_PAD.decode` gives the argument back.
#[verifier::external_body]
pub(crate) fn base64url_encode(data: &[u8]) -> (r: String)
    ensures
        r@ == base64url_of(data@),
        base64url_stands_for(bytes_of(r@), data@),
{
    base64::engine::general_purpose::URL_SAFE_NO_PAD.encode(data)
}

/// `URL_SAFE_NO_PAD.decode` of the crate `base64`; an error comes as its text.
#[verifier::external_body]
pub(crate) fn base64url_decode(encoded: &[u8]) -> (r: Result<Vec<u8>, String>)
    ensures
        match r {
            Ok(b) => base64url_decoded(encoded@) == Ok::<Seq<u8>, Seq<char>>(b@),
            Err(e) => base64url_decoded(encoded@) == Err::<Seq<u8>, Seq<char>>(e@),
        },
{
    base64::engine::general_purpose::URL_SAFE_NO_PAD.decode(encoded).map_err(|e| e.to_string())
}

/// The character of a hexadecimal digit.
pub open spec fn hex_digit(d: int) -> char {
    if d < 10 {
        ((48 + d) as u32) as char
    } else {
        ((87 + d) as u32) as char
    }
}

/// Two lower case hexadecimal digits for each byte of `data`.
pub open spec fn hex_of(data: Seq<u8>) -> Seq<char> {
    Seq::new(
        2 * data.len(),
        |i: int|
            if i % 2 == 0 {
                hex_digit(data[i / 2] as int / 16)
            } else {
                hex_digit(data[i / 2] as int % 16)
            },
    )
}

/// The value of a hexadecimal digit of either case.
pub open spec fn hex_value(c: u8) -> Option<int> {
    if 48 <= c <= 57 {
        Some(c - 48)
    } else if 97 <= c <= 102 {
        Some(c - 87)
    } else if 65 <= c <= 70 {
        Some(c - 55)
    } else {
        None
    }
}

/// Whether `text` consists of pairs of hexadecimal digits.
pub open spec fn is_hex(text: Seq<u8>) -> bool {
    text.len() % 2 == 0 && forall|i: int|
        0 <= i < text.len() ==> hex_value(#[trigger] text[i]) is Some
}

/// The bytes that pairs of hexadecimal digits write.
pub open spec fn unhexed(text: Seq<u8>) -> Seq<u8> {
    Seq::new(
        text.len() / 2,
        |i: int| (hex_value(text[2 * i])->0 * 16 + hex_value(text[2 * i + 1])->0) as u8,
    )
}

/// `hex::encode` writes two lower case digits for each byte.
#[verifier::external_body]
pub(crate) fn hex_encode(data: &[u8]) -> (r: String)
    ensures
        r@ == hex_of(data@),
{
    hex::encode(data)
}

/// `hex::decode` accepts an even number of hexadecimal digits of either case
/// and gives the bytes that they write.
#[verifier::external_body]
pub(crate) fn hex_decode(text: &[u8]) -> (r: Option<Vec<u8>>)
    ensures
        r is Some <==> is_hex(text@),
        r matches Some(b) ==> b@ == unhexed(text@),
{
    hex::decode(text).ok()
}

/// `getrandom::fill` fills a buffer with random bytes, or tells why the
/// system has none to give. Nothing is claimed of the bytes.
#[verifier::external_body]
pub(crate) fn system_random(n: usize) -> (r: Result<Vec<u8>, String>)
    ensures
        r matches Ok(b) ==> b@.len() == n,
{
    let mut out = vec![0_u8; n];
    match getrandom::fill(&mut out) {
        Ok(()) => Ok(out),
        Err(e) => Err(e.to_string()),
    }
}

/// `try_fill_bytes` of `rand::rngs::OsRng` fills a buffer with random bytes, or
/// tells why the system has none to give. Nothing is claimed of the bytes.
#[verifier::external_body]
pub(crate) fn generator_random(n: usize) -> (r: Result<Vec<u8>, String>)
    ensures
        r matches Ok(b) ==> b@.len() == n,
{
    let mut out = vec![0_u8; n];
    match rand::rngs::OsRng.try_fill_bytes(&mut out) {
        Ok(()) => Ok(out),
        Err(e) => Err(e.to_string()),
    }
}

/// `std::time::SystemTime::now`, as whole seconds since the Unix epoch, or what is
/// told of a clock that stands before it. Nothing is claimed of the time.
#[verifier::external_body]
pub(crate) fn unix_seconds() -> (r: Result<i64, String>) {
    match std::time::SystemTime::now().duration_since(std::time::UNIX_EPOCH) {
        Ok(now) => Ok(now.as_secs() as i64),
        Err(e) => Err(e.to_string()),
    }
}

/// Writing bytes in hexadecimal and reading them gives the bytes back.
pub proof fn hex_reads_back(data: Seq<u8>)
    ensures
        is_hex(bytes_of(hex_of(data))),
        unhexed(bytes_of(hex_of(data))) == data,
{
    let h = hex_of(data);
    assert forall|i: int| 0 <= i < h.len() implies 48 <= #[trigger] h[i] as int <= 102 by {}
    assert(vstd::utf8::is_ascii_chars(h));
    vstd::utf8::is_ascii_chars_encode_utf8(h);
    let b = bytes_of(h);
    assert(b.len() == 2 * data.len());
    assert forall|i: int| 0 <= i < b.len() implies hex_value(#[trigger] b[i]) == Some(
        if i % 2 == 0 {
            data[i / 2] as int / 16
        } else {
            data[i / 2] as int % 16
        },
    ) by {
        assert(b[i] == h[i] as u8);
    }
    assert forall|i: int| 0 <= i < data.len() implies unhexed(b)[i] == #[trigger] data[i] by {
        assert(hex_value(b[2 * i]) == Some(data[i] as int / 16));
        assert(hex_value(b[2 * i + 1]) == Some(data[i] as int % 16));
    }
    assert(unhexed(b) =~= data);
}

} // verus!
