//! Screenshots handed to the model as `data:` URLs.
use vstd::prelude::*;

use crate::text::{to_chars, to_text};

verus! {

/// The padded standard-alphabet Base64 text of some bytes.
pub uninterp spec fn base64_of(b: Seq<u8>) -> Seq<char>;

/// A character of the standard Base64 alphabet, or the padding `=`.
pub open spec fn is_base64_char(c: char) -> bool {
    ('A' <= c && c <= 'Z') || ('a' <= c && c <= 'z') || ('0' <= c && c <= '9') || c == '+' || c
        == '/' || c == '='
}

/// Relies on `base64::engine::general_purpose::STANDARD.encode`: the padded
/// standard-alphabet Base64 of the bytes, four characters for each started
/// group of three bytes; it panics only where the encoded length overflows
/// `usize`.
#[verifier::external_body]
fn encode_base64(b: &[u8]) -> (r: String)
    requires
        b@.len() <= usize::MAX / 2,
    ensures
        r@ == base64_of(b@),
        r@.len() == 4 * ((b@.len() + 2) / 3),
        forall|i: int| 0 <= i < r@.len() ==> is_base64_char(#[trigger] r@[i]),
{
    base64::Engine::encode(&base64::engine::general_purpose::STANDARD, b)
}

/// The `data:` URL that carries a PNG image.
pub fn png_data_url(png: &Vec<u8>) -> (r: String)
    requires
        png@.len() <= usize::MAX / 2,
    ensures
        r@ == "data:image/png;base64,"@ + base64_of(png@),
        base64_of(png@).len() == 4 * ((png@.len() + 2) / 3),
{
    let mut v = to_chars("data:image/png;base64,");
    let encoded = encode_base64(png.as_slice());
    let mut tail = to_chars(encoded.as_str());
    v.append(&mut tail);
    to_text(v.as_slice())
}

} // verus!
