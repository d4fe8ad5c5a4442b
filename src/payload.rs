use vstd::prelude::*;
use vstd::utf8::{decode_utf8, valid_utf8};
use crate::errors::ErrorKind;

verus! {

/// Relies on String::from_utf8: it succeeds exactly on well-formed UTF-8, holding the
/// text the bytes encode.
#[verifier::external_body]
fn utf8_string(bytes: Vec<u8>) -> (r: Option<String>)
    ensures
        match r {
            Some(s) => valid_utf8(bytes@) && s@ == decode_utf8(bytes@),
            None => !valid_utf8(bytes@),
        },
{
    String::from_utf8(bytes).ok()
}

/// The secret value a payload from the remote store encodes; a payload that is not
/// UTF-8 is an error.
pub fn decode_payload(bytes: Vec<u8>) -> (r: Result<String, ErrorKind>)
    ensures
        match r {
            Ok(s) => valid_utf8(bytes@) && s@ == decode_utf8(bytes@),
            Err(e) => e == ErrorKind::ValueNotUtf8 && !valid_utf8(bytes@),
        },
{
    match utf8_string(bytes) {
        Some(s) => Ok(s),
        None => Err(ErrorKind::ValueNotUtf8),
    }
}

} // verus!
