//! Which files in a store's inbox count as receipts.

use vstd::prelude::*;

verus! {

/// The lower-case form of a text, as `str::to_lowercase` computes it.
pub uninterp spec fn lowercase_of(s: Seq<char>) -> Seq<char>;

/// Relies on `str::to_lowercase`: its result depends on the text alone.
#[verifier::external_body]
fn lowercase(s: &str) -> (r: String)
    ensures
        r@ == lowercase_of(s@),
{
    s.to_lowercase()
}

/// The lower-case extensions of receipt files.
pub open spec fn is_receipt_extension(lower: Seq<char>) -> bool {
    lower == "png"@ || lower == "jpg"@ || lower == "jpeg"@ || lower == "pdf"@
}

/// Whether an extension already in lower case is one of a receipt file.
pub fn is_lowercase_receipt_extension(lower: &String) -> (r: bool)
    ensures
        r == is_receipt_extension(lower@),
{
    let png = String::from_str("png");
    let jpg = String::from_str("jpg");
    let jpeg = String::from_str("jpeg");
    let pdf = String::from_str("pdf");
    *lower == png || *lower == jpg || *lower == jpeg || *lower == pdf
}

/// Whether a file extension, in any case, is one of a receipt file.
pub fn is_receipt_file_extension(ext: &str) -> (r: bool)
    ensures
        r == is_receipt_extension(lowercase_of(ext@)),
{
    let lower = lowercase(ext);
    is_lowercase_receipt_extension(&lower)
}

} // verus!
