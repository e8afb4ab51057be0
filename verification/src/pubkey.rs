use vstd::prelude::*;
use vstd::string::*;
use crate::encoding::{base58btc_bytes, base58btc_decode};
use crate::error::Error;
use crate::text::{skip_chars, starts_with};

verus! {

/// The curve that a public key lies on.
#[derive(Debug, Clone, Copy, PartialEq, Eq, Structural)]
pub enum Curve {
    Secp256k1,
    P256,
}

/// A public key as a mathematical value: its curve and its compressed point.
pub struct PublicKeyModel {
    pub curve: Curve,
    pub point: Seq<u8>,
}

/// A public key taken from a `did:key:` string.
pub struct PublicKey {
    // compressed public key
    pubkey: Vec<u8>,
    // if false, it is secp256r1
    is_secp256k1: bool,
}

/// Whether `Signature::from_slice` of `k256::ecdsa` accepts the bytes.
pub uninterp spec fn k256_signature_parses(sig: Seq<u8>) -> bool;

/// Whether `VerifyingKey::from_sec1_bytes` of `k256::ecdsa` accepts the bytes.
pub uninterp spec fn k256_key_parses(point: Seq<u8>) -> bool;

/// Whether the secp256k1 key verifies the signature over the message.
pub uninterp spec fn k256_accepts(point: Seq<u8>, msg: Seq<u8>, sig: Seq<u8>) -> bool;

/// Whether `Signature::from_slice` of `p256::ecdsa` accepts the bytes.
pub uninterp spec fn p256_signature_parses(sig: Seq<u8>) -> bool;

/// Whether `VerifyingKey::from_sec1_bytes` of `p256::ecdsa` accepts the bytes.
pub uninterp spec fn p256_key_parses(point: Seq<u8>) -> bool;

/// Whether the P-256 key verifies the signature over the message.
pub uninterp spec fn p256_accepts(point: Seq<u8>, msg: Seq<u8>, sig: Seq<u8>) -> bool;

/// `k256::ecdsa::Signature::from_slice`: whether it returns a signature.
#[verifier::external_body]
fn k256_parse_signature(sig: &[u8]) -> (r: bool)
    ensures
        r == k256_signature_parses(sig@),
{
    k256::ecdsa::Signature::from_slice(sig).is_ok()
}

/// `k256::ecdsa::VerifyingKey::from_sec1_bytes`: whether it returns a key.
#[verifier::external_body]
fn k256_parse_key(point: &[u8]) -> (r: bool)
    ensures
        r == k256_key_parses(point@),
{
    k256::ecdsa::VerifyingKey::from_sec1_bytes(point).is_ok()
}

/// `Verifier::verify` of the secp256k1 key over the message, which it hashes
/// with SHA-256: whether it accepts the signature. Key and signature are
/// parsed as above, so both must parse.
#[verifier::external_body]
fn k256_verify(point: &[u8], msg: &[u8], sig: &[u8]) -> (r: bool)
    requires
        k256_key_parses(point@),
        k256_signature_parses(sig@),
    ensures
        r == k256_accepts(point@, msg@, sig@),
{
    let key = k256::ecdsa::VerifyingKey::from_sec1_bytes(point).unwrap();
    let sig = k256::ecdsa::Signature::from_slice(sig).unwrap();
    k256::ecdsa::signature::Verifier::verify(&key, msg, &sig).is_ok()
}

/// `p256::ecdsa::Signature::from_slice`: whether it returns a signature.
#[verifier::external_body]
fn p256_parse_signature(sig: &[u8]) -> (r: bool)
    ensures
        r == p256_signature_parses(sig@),
{
    p256::ecdsa::Signature::from_slice(sig).is_ok()
}

/// `p256::ecdsa::VerifyingKey::from_sec1_bytes`: whether it returns a key.
#[verifier::external_body]
fn p256_parse_key(point: &[u8]) -> (r: bool)
    ensures
        r == p256_key_parses(point@),
{
    p256::ecdsa::VerifyingKey::from_sec1_bytes(point).is_ok()
}

/// `Verifier::verify` of the P-256 key over the message, which it hashes with
/// SHA-256: whether it accepts the signature. Key and signature are parsed as
/// above, so both must parse.
#[verifier::external_body]
fn p256_verify(point: &[u8], msg: &[u8], sig: &[u8]) -> (r: bool)
    requires
        p256_key_parses(point@),
        p256_signature_parses(sig@),
    ensures
        r == p256_accepts(point@, msg@, sig@),
{
    let key = p256::ecdsa::VerifyingKey::from_sec1_bytes(point).unwrap();
    let sig = p256::ecdsa::Signature::from_slice(sig).unwrap();
    p256::ecdsa::signature::Verifier::verify(&key, msg, &sig).is_ok()
}

/// The bytes behind a multibase string: the selector must be `z`, base58btc.
pub open spec fn multibase_payload(text: Seq<char>) -> Option<Seq<u8>> {
    if text.len() > 0 && text[0] == 'z' {
        base58btc_bytes(text.skip(1))
    } else {
        None
    }
}

/// The key that a multicodec-tagged byte string holds: a two-byte tag for
/// the curve, then a compressed point of 33 bytes.
pub open spec fn tagged_key(raw: Seq<u8>) -> Option<PublicKeyModel> {
    if raw.len() != 35 {
        None
    } else if raw[0] == 0xE7 && raw[1] == 0x01 {
        Some(PublicKeyModel { curve: Curve::Secp256k1, point: raw.skip(2) })
    } else if raw[0] == 0x80 && raw[1] == 0x24 {
        Some(PublicKeyModel { curve: Curve::P256, point: raw.skip(2) })
    } else {
        None
    }
}

/// The key that a `did:key:` string names, if it names one.
pub open spec fn did_key(text: Seq<char>) -> Option<PublicKeyModel> {
    if "did:key:"@.is_prefix_of(text) {
        match multibase_payload(text.skip("did:key:"@.len() as int)) {
            Some(raw) => tagged_key(raw),
            None => None,
        }
    } else {
        None
    }
}

/// What verifying a signature over a message with a key gives.
pub open spec fn verification(key: PublicKeyModel, msg: Seq<u8>, sig: Seq<u8>) -> Result<(), Error> {
    match key.curve {
        Curve::Secp256k1 => {
            if !k256_signature_parses(sig) {
                Err(Error::InvalidSignature)
            } else if !k256_key_parses(key.point) {
                Err(Error::InvalidKey)
            } else if k256_accepts(key.point, msg, sig) {
                Ok(())
            } else {
                Err(Error::VerifySignatureFailed)
            }
        },
        Curve::P256 => {
            if !p256_signature_parses(sig) {
                Err(Error::InvalidSignature)
            } else if !p256_key_parses(key.point) {
                Err(Error::InvalidKey)
            } else if p256_accepts(key.point, msg, sig) {
                Ok(())
            } else {
                Err(Error::VerifySignatureFailed)
            }
        },
    }
}

/// Decodes a multibase string. Only base58btc is supported.
pub fn decode_base58btc(input: &str) -> (r: Result<Vec<u8>, Error>)
    ensures
        match r {
            Ok(bytes) => multibase_payload(input@) == Some(bytes@),
            Err(e) => e == Error::InvalidKey && multibase_payload(input@) is None,
        },
{
    let n = input.unicode_len();
    if n == 0 {
        return Err(Error::InvalidKey);
    }
    let code = input.get_char(0);
    if code != 'z' {
        return Err(Error::InvalidKey);
    }
    match base58btc_decode(skip_chars(input, 1)) {
        Some(decoded) => Ok(decoded),
        None => Err(Error::InvalidKey),
    }
}

impl View for PublicKey {
    type V = PublicKeyModel;

    closed spec fn view(&self) -> PublicKeyModel {
        PublicKeyModel {
            curve: if self.is_secp256k1 { Curve::Secp256k1 } else { Curve::P256 },
            point: self.pubkey@,
        }
    }
}

impl PublicKey {
    #[verifier::type_invariant]
    spec fn well_formed(&self) -> bool {
        self.pubkey@.len() == 33
    }

    /// The compressed point.
    pub fn raw(&self) -> (r: &[u8])
        ensures
            r@ == self@.point,
            r@.len() == 33,
    {
        proof {
            use_type_invariant(self);
        }
        self.pubkey.as_slice()
    }

    /// The curve of the key.
    pub fn curve(&self) -> (r: Curve)
        ensures
            r == self@.curve,
    {
        if self.is_secp256k1 { Curve::Secp256k1 } else { Curve::P256 }
    }

    /// Parses a `did:key:` string.
    pub fn from_str(key: &str) -> (r: Result<Self, Error>)
        ensures
            match r {
                Ok(k) => did_key(key@) == Some(k@),
                Err(e) => e == Error::InvalidKey && did_key(key@) is None,
            },
    {
        proof {
            reveal_strlit("did:key:");
        }
        if !starts_with(key, "did:key:") {
            return Err(Error::InvalidKey);
        }
        let key = skip_chars(key, 8);
        let raw_pubkey = match decode_base58btc(key) {
            Ok(raw) => raw,
            Err(e) => { return Err(e); },
        };
        if raw_pubkey.len() != 35 {
            return Err(Error::InvalidKey);
        }
        let is_secp256k1 = raw_pubkey[0] == 0xE7 && raw_pubkey[1] == 0x01;
        if !is_secp256k1 && (raw_pubkey[0] != 0x80 || raw_pubkey[1] != 0x24) {
            return Err(Error::InvalidKey);
        }
        let pubkey = vstd::slice::slice_to_vec(vstd::slice::slice_subrange(raw_pubkey.as_slice(), 2, 35));
        assert(pubkey@ =~= raw_pubkey@.skip(2));
        Ok(PublicKey { pubkey, is_secp256k1 })
    }

    /// Verifies a signature over a message.
    pub fn verify(&self, msg: &[u8], sig: &[u8]) -> (r: Result<(), Error>)
        ensures
            r == verification(self@, msg@, sig@),
    {
        if self.is_secp256k1 {
            if !k256_parse_signature(sig) {
                return Err(Error::InvalidSignature);
            }
            if !k256_parse_key(self.pubkey.as_slice()) {
                return Err(Error::InvalidKey);
            }
            if k256_verify(self.pubkey.as_slice(), msg, sig) {
                Ok(())
            } else {
                Err(Error::VerifySignatureFailed)
            }
        } else {
            if !p256_parse_signature(sig) {
                return Err(Error::InvalidSignature);
            }
            if !p256_parse_key(self.pubkey.as_slice()) {
                return Err(Error::InvalidKey);
            }
            if p256_verify(self.pubkey.as_slice(), msg, sig) {
                Ok(())
            } else {
                Err(Error::VerifySignatureFailed)
            }
        }
    }
}

} // verus!
