//! Images as text: Base64 with the standard alphabet and padding.

use vstd::prelude::*;

verus! {

/// The Base64 text of a byte string, standard alphabet, padded, as the
/// `base64` crate writes it.
pub uninterp spec fn base64_text(data: Seq<u8>) -> Seq<char>;

/// Whether the Base64 text of `length` bytes has a length that fits in
/// `usize`.
pub open spec fn fits_base64(length: nat) -> bool {
    (length / 3) * 4 + (if length % 3 > 0 {
        4int
    } else {
        0int
    }) <= usize::MAX
}

/// Calls `encode` of `base64::engine::general_purpose::STANDARD` on `data`.
/// The call panics where the length of the text does not fit in `usize`.
#[verifier::external_body]
fn base64_encode(data: &[u8]) -> (text: String)
    requires
        fits_base64(data@.len()),
    ensures
        text@ == base64_text(data@),
{
    base64::Engine::encode(&base64::engine::general_purpose::STANDARD, data)
}

/// The text of an image, where there is an image.
pub open spec fn image_text(blob: Option<Seq<u8>>) -> Option<Seq<char>> {
    match blob {
        Some(data) => Some(base64_text(data)),
        None => None,
    }
}

/// The view of bytes that may be absent.
pub open spec fn blob_view(blob: Option<&Vec<u8>>) -> Option<Seq<u8>> {
    match blob {
        Some(data) => Some(data@),
        None => None,
    }
}

/// The view of a text that may be absent.
pub open spec fn owned_text_view(text: Option<String>) -> Option<Seq<char>> {
    match text {
        Some(t) => Some(t@),
        None => None,
    }
}

/// Writes a stored image as Base64 text. No image gives no text.
pub fn encode_image(blob: Option<&Vec<u8>>) -> (text: Option<String>)
    requires
        blob matches Some(data) ==> fits_base64(data@.len()),
    ensures
        owned_text_view(text) == image_text(blob_view(blob)),
{
    match blob {
        Some(data) => Some(base64_encode(data.as_slice())),
        None => None,
    }
}

} // verus!
