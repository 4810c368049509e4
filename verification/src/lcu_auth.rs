//! The credentials sent to the client's local API.
use vstd::prelude::*;

use crate::text::concat2;

verus! {

/// The standard Base64 encoding (RFC 4648 alphabet, with padding) of the UTF-8
/// bytes of `text`.
pub uninterp spec fn base64_standard(text: Seq<char>) -> Seq<char>;

/// Encodes the UTF-8 bytes of `text` in standard Base64.
///
/// Trusted: calls `Engine::encode` of `base64::engine::general_purpose::STANDARD`;
/// its result is taken to depend on the text alone. The size bound keeps the
/// computation of the output length, which panics on overflow, in range.
#[verifier::external_body]
fn base64_encode_text(text: &str) -> (r: String)
    requires
        text@.len() * 6 + 4 <= usize::MAX,
    ensures
        r@ == base64_standard(text@),
{
    base64::Engine::encode(&base64::engine::general_purpose::STANDARD, text)
}

/// The `Authorization` value for already encoded credentials.
pub fn auth_header_from_encoded(encoded: &str) -> (r: String)
    ensures
        r@ == "Basic "@ + encoded@,
{
    concat2("Basic ", encoded)
}

/// The `Authorization` value for the client's API: Basic authentication of the
/// user `riot` with the session token.
pub fn build_auth_header(token: &str) -> (r: String)
    requires
        ("riot:"@ + token@).len() * 6 + 4 <= usize::MAX,
    ensures
        r@ == "Basic "@ + base64_standard("riot:"@ + token@),
{
    let credentials = concat2("riot:", token);
    let encoded = base64_encode_text(credentials.as_str());
    auth_header_from_encoded(encoded.as_str())
}

} // verus!
