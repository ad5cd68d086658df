//! Text carried in byte-string parameters.

use vstd::prelude::*;
use vstd::utf8::{decode_utf8, valid_utf8};

verus! {

/// The text that bytes which are not valid UTF-8 stand for when they are
/// read tolerantly: each invalid sequence gives way to a replacement
/// character.
pub uninterp spec fn lossy_text(bytes: Seq<u8>) -> Seq<char>;

/// The text that a byte string stands for: what it spells in UTF-8, and
/// for bytes that spell nothing, what tolerant reading makes of them.
pub open spec fn text_model(bytes: Seq<u8>) -> Seq<char> {
    if valid_utf8(bytes) {
        decode_utf8(bytes)
    } else {
        lossy_text(bytes)
    }
}

/// Reads a byte string as text, tolerating invalid UTF-8.
///
/// Calls `String::from_utf8_lossy`. The contract says that bytes which are
/// valid UTF-8 are decoded as they stand, which is what the standard
/// library documents; of invalid input it says no more than that the
/// outcome depends on the bytes alone, and gives it a name.
#[verifier::external_body]
pub(crate) fn text_of(bytes: &[u8]) -> (res: String)
    ensures
        res@ == text_model(bytes@),
        !valid_utf8(bytes@) ==> res@ == lossy_text(bytes@),
{
    String::from_utf8_lossy(bytes).into_owned()
}

} // verus!
