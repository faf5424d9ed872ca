//! Bytes as text.

use vstd::prelude::*;
use vstd::utf8::{decode_utf8, valid_utf8};

verus! {

/// Calls `core::str::from_utf8`. The contract claims what its documentation
/// says: the bytes are accepted exactly when they are valid UTF-8, and the
/// text returned is the one they encode.
#[verifier::external_body]
pub(crate) fn text_of<'a>(bytes: &'a [u8]) -> (r: Option<&'a str>)
    ensures
        r is Some <==> valid_utf8(bytes@),
        r matches Some(s) ==> s@ == decode_utf8(bytes@),
{
    match core::str::from_utf8(bytes) {
        Ok(s) => Some(s),
        Err(_) => None,
    }
}

} // verus!
