//! Bytes as text: the one place where a buffer is asked whether it is UTF-8.

use vstd::prelude::*;
use vstd::utf8::*;

verus! {

/// `String::from_utf8`, on a copy of the buffer and with the error dropped.
/// std accepts the bytes exactly when they are well-formed UTF-8, and the
/// string it returns is then made of those very bytes.
#[verifier::external_body]
pub(crate) fn utf8_text(buffer: &Vec<u8>) -> (text: Option<String>)
    ensures
        text.is_some() == valid_utf8(buffer@),
        text matches Some(s) ==> encode_utf8(s@) == buffer@,
{
    String::from_utf8(buffer.clone()).ok()
}

} // verus!
