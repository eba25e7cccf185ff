//! Bytes as text.

use vstd::prelude::*;
use vstd::utf8::{encode_utf8, valid_utf8};

verus! {

/// The text that `bytes` spell in UTF-8, if they spell any.
///
/// Calls `String::from_utf8` of the standard library on a copy of the bytes.
/// Trusted: that it accepts exactly the valid UTF-8 sequences, and that the
/// string it gives then consists of the very bytes it was given.
#[verifier::external_body]
pub(crate) fn utf8_text(bytes: &[u8]) -> (text: Option<String>)
    ensures
        text.is_some() == valid_utf8(bytes@),
        text.is_some() ==> encode_utf8(text.unwrap()@) == bytes@,
{
    String::from_utf8(bytes.to_vec()).ok()
}

} // verus!
