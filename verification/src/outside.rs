//! The calls this library makes into other crates. Nothing in this file is
//! proved: each contract restates what the called crate documents.

use vstd::prelude::*;
use base64::Engine;

verus! {

/// The text that the standard, padded base64 alphabet gives for `bytes`.
pub uninterp spec fn base64_text(bytes: Seq<u8>) -> Seq<char>;

/// The bytes that `text` stands for in standard, padded base64, or `None`
/// where `text` is not such an encoding.
pub uninterp spec fn base64_bytes(text: Seq<char>) -> Option<Seq<u8>>;

/// `base64::engine::general_purpose::STANDARD.encode`: the result is a
/// function of the input bytes alone, named `base64_text`.
#[verifier::external_body]
pub(crate) fn base64_encode(bytes: &Vec<u8>) -> (text: String)
    ensures
        text@ == base64_text(bytes@),
{
    base64::engine::general_purpose::STANDARD.encode(bytes)
}

/// `base64::engine::general_purpose::STANDARD.decode`: it gives the decoded
/// bytes or an error, and which of the two depends on the text alone. The
/// outcome is named `base64_bytes`; the error's detail is dropped.
#[verifier::external_body]
pub(crate) fn base64_decode(text: &str) -> (bytes: Option<Vec<u8>>)
    ensures
        bytes.is_some() == base64_bytes(text@).is_some(),
        bytes.is_some() ==> bytes.unwrap()@ == base64_bytes(text@).unwrap(),
{
    base64::engine::general_purpose::STANDARD.decode(text).ok()
}

/// `uuid::Uuid::new_v4` rendered with `to_string`: a random identifier in
/// the hyphenated form, which is always 36 characters long. Nothing else is
/// claimed of it, and two calls are free to differ.
#[verifier::external_body]
pub(crate) fn random_id() -> (id: String)
    ensures
        id@.len() == 36,
{
    uuid::Uuid::new_v4().to_string()
}

/// `chrono::Utc::now` rendered with `to_rfc3339`: the current time as text.
/// It depends on the clock, so nothing is claimed of the result.
#[verifier::external_body]
pub(crate) fn timestamp_now() -> String {
    chrono::Utc::now().to_rfc3339()
}

} // verus!
