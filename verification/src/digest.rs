use vstd::prelude::*;

use crate::serialize::spec_hex_digit;
use hmac::{KeyInit, Mac};
use sha2::Digest;
use subtle::ConstantTimeEq;

verus! {

/// The cryptographic primitives the connector relies on, each behind a
/// contract: SHA-256, HMAC-SHA256, lower-case hex encoding, and a
/// constant-time byte comparison.

/// The SHA-256 digest of a byte sequence: a function of the bytes alone.
pub uninterp spec fn spec_sha256(data: Seq<u8>) -> Seq<u8>;

/// Relies on `sha2::Sha256` (through `digest::Digest::digest`): returns the
/// 32-byte SHA-256 digest of `data`, a function of `data` alone.
#[verifier::external_body]
pub fn sha256_digest(data: &[u8]) -> (r: Vec<u8>)
    ensures
        r@ == spec_sha256(data@),
        r@.len() == 32,
{
    sha2::Sha256::digest(data).to_vec()
}

/// The HMAC-SHA256 tag for a key and a message: a function of both alone.
pub uninterp spec fn spec_hmac_sha256(key: Seq<u8>, data: Seq<u8>) -> Seq<u8>;

/// Relies on `hmac::Hmac<sha2::Sha256>`: returns the 32-byte HMAC-SHA256
/// tag of `data` under `key`. HMAC accepts keys of any length, so
/// `new_from_slice` cannot fail here.
#[verifier::external_body]
pub fn hmac_sha256(key: &[u8], data: &[u8]) -> (r: Vec<u8>)
    ensures
        r@ == spec_hmac_sha256(key@, data@),
        r@.len() == 32,
{
    let mut mac = <hmac::Hmac<sha2::Sha256>>::new_from_slice(key)
        .expect("HMAC accepts keys of any length");
    mac.update(data);
    mac.finalize().into_bytes().to_vec()
}

/// Lower-case hexadecimal: two digits per byte, high nibble first.
pub open spec fn spec_hex_of(b: Seq<u8>) -> Seq<char>
    decreases b.len(),
{
    if b.len() == 0 {
        Seq::empty()
    } else {
        seq![spec_hex_digit(b[0] as int / 16), spec_hex_digit(b[0] as int % 16)]
            + spec_hex_of(b.skip(1))
    }
}

/// Relies on `hex::encode`: two lower-case hex digits per input byte, in
/// input order.
#[verifier::external_body]
pub fn hex_encode(b: &[u8]) -> (r: String)
    ensures
        r@ == spec_hex_of(b@),
{
    hex::encode(b)
}

/// Relies on `subtle::ConstantTimeEq` for byte slices: true exactly when
/// the two slices are equal, in time independent of their contents (it
/// short-circuits only on a length mismatch).
#[verifier::external_body]
pub fn constant_time_eq(a: &[u8], b: &[u8]) -> (r: bool)
    ensures
        r == (a@ == b@),
{
    a.ct_eq(b).into()
}

} // verus!
