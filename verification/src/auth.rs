use vstd::prelude::*;

use crate::digest::{constant_time_eq, hex_encode, hmac_sha256, spec_hex_of, spec_hmac_sha256};
use crate::error::AppError;
use crate::json::str_eq;
use vstd::string::StrSliceExecFns;
use vstd::string::StringSliceAdditionalSpecFns;

verus! {

/// HMAC-SHA256 webhook authentication: the signature header must read
/// `sha256=` followed by the lower-case hex HMAC of the raw body under the
/// shared secret, and the comparison runs in constant time.

pub struct HmacValidator {
    secret: String,
    header_name: String,
}

/// A header value in the accepted shape: the literal prefix `sha256=`,
/// then anything.
pub open spec fn spec_has_sig_prefix(header: Seq<char>) -> bool {
    header.len() >= 7 && header.take(7) == "sha256="@
}

/// The signature a valid header must carry for `body` under `secret`: the
/// hex HMAC-SHA256 tag over the body bytes.
pub open spec fn spec_expected_signature(secret: Seq<char>, body: Seq<u8>) -> Seq<char> {
    spec_hex_of(spec_hmac_sha256(vstd::utf8::encode_utf8(secret), body))
}

/// When validation accepts: the prefix is present and what follows it is
/// exactly the expected signature.
pub open spec fn spec_validate_ok(secret: Seq<char>, body: Seq<u8>, header: Seq<char>) -> bool {
    spec_has_sig_prefix(header) && header.skip(7) == spec_expected_signature(secret, body)
}

impl HmacValidator {
    pub closed spec fn spec_secret(&self) -> Seq<char> {
        self.secret@
    }

    pub closed spec fn spec_header_name(&self) -> Seq<char> {
        self.header_name@
    }

    pub fn new(secret: String, header_name: String) -> (r: Self)
        ensures
            r.spec_secret() == secret@,
            r.spec_header_name() == header_name@,
    {
        HmacValidator { secret, header_name }
    }

    /// The name of the header the signature is read from.
    pub fn header_name(&self) -> (r: &str)
        ensures
            r@ == self.spec_header_name(),
    {
        self.header_name.as_str()
    }

    /// Validates a raw body against a signature header. Accepts exactly
    /// when the header is `sha256=` followed by the hex HMAC-SHA256 of
    /// `body` under the secret; a header without the prefix is a format
    /// error, one with a wrong signature an authentication error.
    pub fn validate(&self, body: &[u8], signature_header: &str) -> (r: Result<(), AppError>)
        ensures
            r is Ok <==> spec_validate_ok(self.spec_secret(), body@, signature_header@),
            r matches Err(e) ==> if spec_has_sig_prefix(signature_header@) {
                e == AppError::HmacValidation
            } else {
                e == AppError::InvalidSignatureFormat
            },
    {
        let n = signature_header.unicode_len();
        if n < 7 {
            return Err(AppError::InvalidSignatureFormat);
        }
        let prefix = signature_header.substring_char(0, 7);
        if !str_eq(prefix, "sha256=") {
            proof {
                assert(signature_header@.subrange(0, 7) =~= signature_header@.take(7));
            }
            return Err(AppError::InvalidSignatureFormat);
        }
        proof {
            assert(signature_header@.subrange(0, 7) =~= signature_header@.take(7));
        }
        let signature = signature_header.substring_char(7, n);
        proof {
            assert(signature_header@.subrange(7, n as int) =~= signature_header@.skip(7));
        }
        self.validate_body(body, signature)
    }

    /// Compares the presented hex signature against the computed one in
    /// constant time.
    fn validate_body(&self, body: &[u8], expected_signature: &str) -> (r: Result<(), AppError>)
        ensures
            r is Ok <==> expected_signature@ == spec_expected_signature(
                self.spec_secret(),
                body@,
            ),
            r matches Err(e) ==> e == AppError::HmacValidation,
    {
        let tag = hmac_sha256(self.secret.as_str().as_bytes(), body);
        let computed = hex_encode(tag.as_slice());
        let matches = constant_time_eq(
            computed.as_str().as_bytes(),
            expected_signature.as_bytes(),
        );
        proof {
            vstd::utf8::encode_utf8_decode_utf8(computed@);
            vstd::utf8::encode_utf8_decode_utf8(expected_signature@);
            assert(vstd::utf8::encode_utf8(computed@) == vstd::utf8::encode_utf8(
                expected_signature@,
            ) ==> computed@ == expected_signature@);
        }
        if matches {
            Ok(())
        } else {
            Err(AppError::HmacValidation)
        }
    }
}

} // verus!
