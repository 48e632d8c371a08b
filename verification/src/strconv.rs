//! Turning byte sequences built by verified code back into strings.

use vstd::prelude::*;

use vstd::utf8::{valid_utf8, encode_utf8};

verus! {

/// Relies on String::from_utf8: it succeeds exactly on valid UTF-8 input and
/// the returned string holds exactly the input bytes.
#[verifier::external_body]
pub(crate) fn string_from_utf8(v: Vec<u8>) -> (r: Option<String>)
    ensures
        r is Some <==> valid_utf8(v@),
        r matches Some(s) ==> encode_utf8(s@) == v@,
{
    String::from_utf8(v).ok()
}

} // verus!
