use base64::Engine;
use vstd::prelude::*;

verus! {

/// The padded, standard-alphabet base64 text of `bytes`.
pub uninterp spec fn base64_text(bytes: Seq<u8>) -> Seq<char>;

/// Number of characters in the padded base64 text of `n` bytes.
pub open spec fn base64_len(n: nat) -> nat {
    4 * ((n + 2) / 3)
}

/// Relies on base64's `STANDARD` engine `encode`: padded standard-alphabet
/// text, four characters for each started group of three bytes. It panics
/// when that length overflows `usize`.
#[verifier::external_body]
fn encode_base64(bytes: &[u8]) -> (r: String)
    requires
        base64_len(bytes@.len()) <= usize::MAX,
    ensures
        r@ == base64_text(bytes@),
        r@.len() == base64_len(bytes@.len()),
{
    base64::engine::general_purpose::STANDARD.encode(bytes)
}

/// Relies on base64's `STANDARD` engine `decode`, which requires canonical
/// padding and no trailing bits: it accepts exactly the texts that its
/// `encode` produces and gives back the bytes they encode. A rejection is
/// rendered as text.
#[verifier::external_body]
fn decode_base64(text: &str) -> (r: Result<Vec<u8>, String>)
    ensures
        r is Ok <==> exists|b: Seq<u8>| #[trigger] base64_text(b) == text@,
        r matches Ok(d) ==> base64_text(d@) == text@,
        r matches Ok(d) ==> forall|b: Seq<u8>| #[trigger] base64_text(b) == text@ ==> b == d@,
{
    match base64::engine::general_purpose::STANDARD.decode(text) {
        Ok(d) => Ok(d),
        Err(e) => Err(e.to_string()),
    }
}

/// Encodes bytes as the text payload handed to a display layer.
pub fn encode_payload(data: &Vec<u8>) -> (r: String)
    requires
        base64_len(data@.len()) <= usize::MAX,
    ensures
        r@ == base64_text(data@),
        r@.len() == base64_len(data@.len()),
{
    encode_base64(data.as_slice())
}

/// Decodes a text payload back into bytes. It succeeds exactly on the texts
/// that `encode_payload` produces, and then gives back the bytes encoded.
pub fn decode_payload(text: &str) -> (r: Result<Vec<u8>, String>)
    ensures
        forall|b: Seq<u8>| #[trigger] base64_text(b) == text@ ==> (r matches Ok(d) && d@ == b),
        r matches Ok(d) ==> base64_text(d@) == text@,
        r is Err <==> !exists|b: Seq<u8>| #[trigger] base64_text(b) == text@,
        r matches Err(e) ==> exists|detail: Seq<char>|
            e@ == "Failed to decode base64: "@ + detail,
{
    match decode_base64(text) {
        Ok(d) => Ok(d),
        Err(detail) => {
            let e = String::from_str("Failed to decode base64: ").concat(detail.as_str());
            Err(e)
        },
    }
}

} // verus!
