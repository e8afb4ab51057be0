use vstd::prelude::*;

verus! {

/// The SHA-256 digest of a byte string.
pub uninterp spec fn sha256(data: Seq<u8>) -> Seq<u8>;

/// The base32 text (RFC 4648 alphabet in lower case, no padding) that
/// `base32::encode` gives for a byte string.
pub uninterp spec fn base32_text(data: Seq<u8>) -> Seq<char>;

/// The bytes that `base32::decode` reads from a text (RFC 4648 alphabet in
/// lower case, no padding), or nothing where it rejects the text.
pub uninterp spec fn base32_bytes(text: Seq<char>) -> Option<Seq<u8>>;

/// The bytes that the URL-safe, unpadded base64 engine reads from a text, or
/// nothing where it rejects the text.
pub uninterp spec fn base64url_bytes(text: Seq<char>) -> Option<Seq<u8>>;

/// The bytes that the base58btc codec of `multibase` reads from a text, or
/// nothing where it rejects the text.
pub uninterp spec fn base58btc_bytes(text: Seq<char>) -> Option<Seq<u8>>;

/// `Sha256::digest` of the `sha2` crate: the digest, which has 32 bytes.
#[verifier::external_body]
pub(crate) fn sha256_digest(data: &[u8]) -> (r: Vec<u8>)
    ensures
        r@ == sha256(data@),
        r@.len() == 32,
{
    <sha2::Sha256 as sha2::Digest>::digest(data).to_vec()
}

/// `base32::encode` with the alphabet `Rfc4648Lower` and no padding.
#[verifier::external_body]
pub(crate) fn base32_encode(data: &[u8]) -> (r: String)
    ensures
        r@ == base32_text(data@),
{
    base32::encode(base32::Alphabet::Rfc4648Lower { padding: false }, data)
}

/// `base32::decode` with the alphabet `Rfc4648Lower` and no padding.
#[verifier::external_body]
pub(crate) fn base32_decode(text: &str) -> (r: Option<Vec<u8>>)
    ensures
        r matches Some(bytes) ==> base32_bytes(text@) == Some(bytes@),
        r is None ==> base32_bytes(text@) is None,
{
    base32::decode(base32::Alphabet::Rfc4648Lower { padding: false }, text)
}

/// `Engine::decode` of the `base64` crate on its engine `URL_SAFE_NO_PAD`.
#[verifier::external_body]
pub(crate) fn base64url_decode(text: &str) -> (r: Option<Vec<u8>>)
    ensures
        r matches Some(bytes) ==> base64url_bytes(text@) == Some(bytes@),
        r is None ==> base64url_bytes(text@) is None,
{
    base64::Engine::decode(&base64::engine::general_purpose::URL_SAFE_NO_PAD, text).ok()
}

/// `Base::decode` of the `multibase` crate on `Base58Btc`: the text is the
/// payload alone, without the multibase selector.
#[verifier::external_body]
pub(crate) fn base58btc_decode(text: &str) -> (r: Option<Vec<u8>>)
    ensures
        r matches Some(bytes) ==> base58btc_bytes(text@) == Some(bytes@),
        r is None ==> base58btc_bytes(text@) is None,
{
    multibase::Base::Base58Btc.decode(text).ok()
}

} // verus!
