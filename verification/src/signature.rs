//! Authentication of webhook deliveries: the platform signs the body of
//! each delivery with a secret that it shares with the application.

use hmac::{Hmac, Mac};
use sha2::Sha256;
use vstd::prelude::*;
use vstd::slice::slice_subrange;

verus! {

/// Length of what stands before the digits in a signature header: the name
/// of the scheme and an equals sign.
pub const SIGNATURE_PREFIX_LEN: usize = 7;

/// The value of a hexadecimal digit, given as its character code.
pub open spec fn hex_value(c: u8) -> Option<int> {
    if 0x30 <= c <= 0x39 {
        Some(c - 0x30)
    } else if 0x41 <= c <= 0x46 {
        Some(c - 0x41 + 10)
    } else if 0x61 <= c <= 0x66 {
        Some(c - 0x61 + 10)
    } else {
        None
    }
}

/// The bytes that a text of hexadecimal digits stands for, two digits to a
/// byte and the higher digit first; `None` where the text has an odd length
/// or holds anything but digits in upper or lower case.
pub open spec fn hex_decoded(text: Seq<u8>) -> Option<Seq<u8>>
    decreases text.len(),
{
    if text.len() == 0 {
        Some(Seq::empty())
    } else if text.len() == 1 {
        None
    } else {
        match (hex_value(text[0]), hex_value(text[1]), hex_decoded(text.skip(2))) {
            (Some(high), Some(low), Some(rest)) => Some(seq![(high * 16 + low) as u8] + rest),
            _ => None,
        }
    }
}

/// The HMAC-SHA256 code of a message under a key.
pub uninterp spec fn hmac_sha256(key: Seq<u8>, message: Seq<u8>) -> Seq<u8>;

/// Calls `hex::decode`, which turns pairs of hexadecimal digits into bytes
/// and fails on an odd length or on any other character.
#[verifier::external_body]
fn hex_decode(text: &[u8]) -> (bytes: Option<Vec<u8>>)
    ensures
        match bytes {
            Some(decoded) => hex_decoded(text@) == Some(decoded@),
            None => hex_decoded(text@) is None,
        },
{
    hex::decode(text).ok()
}

/// Computes the HMAC-SHA256 code of `message` under `key` with the `hmac`
/// and `sha2` crates and compares it with `tag` through `Mac::verify_slice`,
/// which accepts a tag exactly where it equals the code.
#[verifier::external_body]
fn hmac_sha256_accepts(key: &[u8], message: &[u8], tag: &[u8]) -> (accepted: bool)
    ensures
        accepted == (hmac_sha256(key@, message@) == tag@),
{
    match Hmac::<Sha256>::new_from_slice(key) {
        Ok(mut mac) => {
            mac.update(message);
            mac.verify_slice(tag).is_ok()
        },
        Err(_) => false,
    }
}

/// What the signature of a delivery shows.
#[derive(Debug, Clone, Copy, PartialEq, Eq, Structural)]
pub enum SignatureVerdict {
    /// The delivery carries no signature.
    Missing,
    /// The signature is too short or its digits are not hexadecimal.
    Malformed,
    /// The signature is not the code of the body under the secret.
    Forged,
    /// The signature is the code of the body under the secret.
    Authentic,
}

/// What the signature header of a delivery shows, given the secret and the
/// body: the header holds a prefix of seven characters and then the code of
/// the body under the secret in hexadecimal digits.
pub open spec fn signature_verdict(
    secret: Seq<u8>,
    body: Seq<u8>,
    header: Option<Seq<u8>>,
    code: Seq<u8>,
) -> SignatureVerdict {
    match header {
        None => SignatureVerdict::Missing,
        Some(value) => if value.len() < SIGNATURE_PREFIX_LEN {
            SignatureVerdict::Malformed
        } else {
            match hex_decoded(value.skip(SIGNATURE_PREFIX_LEN as int)) {
                None => SignatureVerdict::Malformed,
                Some(tag) => if tag == code {
                    SignatureVerdict::Authentic
                } else {
                    SignatureVerdict::Forged
                },
            }
        },
    }
}

/// The bytes of a header, where there is one.
pub open spec fn optional_bytes(header: Option<&[u8]>) -> Option<Seq<u8>> {
    match header {
        Some(value) => Some(value@),
        None => None,
    }
}

/// Checks the signature header of a delivery against its body and the shared
/// secret.
pub fn check_signature(secret: &[u8], body: &[u8], header: Option<&[u8]>) -> (verdict:
    SignatureVerdict)
    ensures
        verdict == signature_verdict(
            secret@,
            body@,
            optional_bytes(header),
            hmac_sha256(secret@, body@),
        ),
{
    match header {
        None => SignatureVerdict::Missing,
        Some(value) => {
            if value.len() < SIGNATURE_PREFIX_LEN {
                return SignatureVerdict::Malformed;
            }
            let digits = slice_subrange(value, SIGNATURE_PREFIX_LEN, value.len());
            match hex_decode(digits) {
                None => SignatureVerdict::Malformed,
                Some(tag) => {
                    if hmac_sha256_accepts(secret, body, tag.as_slice()) {
                        SignatureVerdict::Authentic
                    } else {
                        SignatureVerdict::Forged
                    }
                },
            }
        },
    }
}

} // verus!
