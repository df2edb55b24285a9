//! Entity decoding, consumed as a black-box transform of text runs.

use vstd::prelude::*;

verus! {

/// What entity decoding yields on a given run of units; the decoding is a
/// pure function of the text alone.
pub uninterp spec fn decoded_units_of(s: Seq<u16>) -> Seq<u16>;

/// Relies on html_escape::decode_html_entities: decodes exact named and
/// numeric character references; the result depends only on the input text,
/// and an empty input is returned unchanged.
#[verifier::external_body]
pub(crate) fn decode_entities(s: &Vec<u16>) -> (r: Vec<u16>)
    ensures
        r@ == decoded_units_of(s@),
        s@.len() == 0 ==> r@ == s@,
{
    let text = String::from_utf16_lossy(s);
    let decoded = html_escape::decode_html_entities(&text);
    decoded.encode_utf16().collect()
}

} // verus!
