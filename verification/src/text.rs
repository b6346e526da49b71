//! Recovery of text from bytes that may not be valid UTF-8.

use vstd::prelude::*;
use vstd::utf8::*;

verus! {

/// What `String::from_utf8_lossy` makes of `bytes`: the text they encode,
/// with every ill-formed stretch replaced by U+FFFD.
pub uninterp spec fn utf8_lossy(bytes: Seq<u8>) -> Seq<char>;

/// The text recovered from `bytes`: their decoding where they are valid
/// UTF-8, the lossy repair otherwise.
pub open spec fn recovered_text(bytes: Seq<u8>) -> Seq<char> {
    if valid_utf8(bytes) {
        decode_utf8(bytes)
    } else {
        utf8_lossy(bytes)
    }
}

/// Calls `String::from_utf8_lossy` and takes ownership of what it returns.
///
/// Trusted: the result depends on `bytes` alone, and valid UTF-8 comes back
/// as the very text it encodes (std then borrows the input unchanged).
#[verifier::external_body]
fn from_utf8_lossy(bytes: &[u8]) -> (text: String)
    ensures
        text@ == utf8_lossy(bytes@),
        valid_utf8(bytes@) ==> text@ == decode_utf8(bytes@),
{
    String::from_utf8_lossy(bytes).into_owned()
}

/// Recovers text from `bytes`, never failing: invalid sequences are
/// replaced rather than reported.
pub fn recover_text(bytes: &[u8]) -> (text: String)
    ensures
        text@ == recovered_text(bytes@),
{
    from_utf8_lossy(bytes)
}

} // verus!
