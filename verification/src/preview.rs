//! The text under which the content of a file is shown in a preview.

use vstd::prelude::*;

verus! {

/// The base64 text of `data`: standard alphabet, with padding.
pub uninterp spec fn base64_text(data: Seq<u8>) -> Seq<char>;

/// Calls `base64::encode`, which encodes the bytes with the crate's
/// `STANDARD` engine. The text is a function of the bytes alone, named
/// `base64_text`; nothing more is claimed of it.
#[allow(deprecated)]
#[verifier::external_body]
fn encode(data: &[u8]) -> (r: String)
    ensures
        r@ == base64_text(data@),
{
    base64::encode(data)
}

/// The preview text of a file's content: its bytes in base64.
pub fn preview_text(data: &Vec<u8>) -> (r: String)
    ensures
        r@ == base64_text(data@),
{
    encode(data.as_slice())
}

} // verus!
