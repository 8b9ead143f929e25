use crate::payload::{base64_text, base64_len, encode_payload};
use vstd::prelude::*;

verus! {

/// image's decoded picture, carried through opaquely from the decoder to the
/// encoder.
#[verifier::external_type_specification]
#[verifier::external_body]
pub struct ExDynamicImage(image::DynamicImage);

/// Outcome of one conversion. On success it carries the output path, the
/// sizes and the encoded bytes as text; on failure an error message, with
/// no path, payload or new size.
pub struct ConversionResult {
    pub success: bool,
    pub output_path: String,
    pub original_size: usize,
    pub new_size: usize,
    pub error: Option<String>,
    pub base64_data: Option<String>,
}

impl ConversionResult {
    /// Exactly one of the error and the payload is present, as the success
    /// flag says.
    pub open spec fn wf(&self) -> bool {
        if self.success {
            self.error is None && self.base64_data is Some
        } else {
            &&& self.error is Some
            &&& self.base64_data is None
            &&& self.new_size == 0
            &&& self.output_path@.len() == 0
        }
    }
}

/// `r` reports a failed conversion of `original_size` bytes with `message`.
pub open spec fn is_failure(r: &ConversionResult, original_size: usize, message: Seq<char>) -> bool {
    &&& !r.success
    &&& r.output_path@.len() == 0
    &&& r.original_size == original_size
    &&& r.new_size == 0
    &&& r.error matches Some(e) && e@ == message
    &&& r.base64_data is None
}

/// `r` reports a successful conversion of `original_size` bytes into `data`,
/// to be stored at `output_path`.
pub open spec fn is_success(
    r: &ConversionResult,
    original_size: usize,
    output_path: Seq<char>,
    data: Seq<u8>,
) -> bool {
    &&& r.success
    &&& r.output_path@ == output_path
    &&& r.original_size == original_size
    &&& r.new_size == data.len()
    &&& r.error is None
    &&& r.base64_data matches Some(t) && t@ == base64_text(data)
}

fn failure(original_size: usize, message: String) -> (r: ConversionResult)
    ensures
        is_failure(&r, original_size, message@),
        r.wf(),
{
    ConversionResult {
        success: false,
        output_path: String::new(),
        original_size,
        new_size: 0,
        error: Some(message),
        base64_data: None,
    }
}

/// The record for image bytes that could not be decoded.
pub fn load_failure(original_size: usize, detail: &str) -> (r: ConversionResult)
    ensures
        is_failure(&r, original_size, "Failed to load image: "@ + detail@),
        r.wf(),
{
    failure(original_size, String::from_str("Failed to load image: ").concat(detail))
}

/// The record for a decoded image that could not be encoded as WebP.
pub fn encode_failure(original_size: usize, detail: &str) -> (r: ConversionResult)
    ensures
        is_failure(&r, original_size, "Failed to encode WebP: "@ + detail@),
        r.wf(),
{
    failure(original_size, String::from_str("Failed to encode WebP: ").concat(detail))
}

/// The record for `webp_data`, converted from `original_size` bytes and to be
/// stored at `output_path`.
pub fn conversion_success(original_size: usize, webp_data: &Vec<u8>, output_path: String) -> (r:
    ConversionResult)
    requires
        base64_len(webp_data@.len()) <= usize::MAX,
    ensures
        is_success(&r, original_size, output_path@, webp_data@),
        r.wf(),
{
    let text = encode_payload(webp_data);
    ConversionResult {
        success: true,
        output_path,
        original_size,
        new_size: webp_data.len(),
        error: None,
        base64_data: Some(text),
    }
}

/// Whether image's decoder rejects `bytes`, which it judges by their content
/// alone.
pub uninterp spec fn image_rejects(bytes: Seq<u8>) -> bool;

/// Relies on image's `load_from_memory`: it guesses the format from the bytes
/// and decodes them. A rejection is rendered as text.
#[verifier::external_body]
fn decode_image(data: &[u8]) -> (r: Result<image::DynamicImage, String>)
    ensures
        r is Err <==> image_rejects(data@),
{
    match image::load_from_memory(data) {
        Ok(img) => Ok(img),
        Err(e) => Err(e.to_string()),
    }
}

/// Decodes image bytes. Where the decoder rejects them, the failure record is
/// returned instead: not successful, with a non-empty message and no new
/// size.
pub fn load_image(image_data: &Vec<u8>) -> (r: Result<image::DynamicImage, ConversionResult>)
    ensures
        r is Err <==> image_rejects(image_data@),
        r matches Err(f) ==> {
            &&& f.wf()
            &&& exists|detail: Seq<char>|
                is_failure(&f, image_data@.len() as usize, "Failed to load image: "@ + detail)
            &&& f.error matches Some(e) && e@.len() > 0
        },
{
    match decode_image(image_data.as_slice()) {
        Ok(img) => Ok(img),
        Err(detail) => {
            let f = load_failure(image_data.len(), detail.as_str());
            proof {
                reveal_strlit("Failed to load image: ");
            }
            Err(f)
        },
    }
}

} // verus!
