//! Interpreting file bytes as text.
//!
//! A whole-file read hands back raw bytes; turning them into a string is a
//! separate decision with its own distinct failure, so that unreadable
//! content is never confused with an I/O error.

use vstd::prelude::*;

use crate::errors::FsError;
use crate::errors::FsErrorKind;

verus! {

/// The text that UTF-8 decoding gives for `bytes` when they are valid
/// UTF-8, and `None` when they are not.  The result depends on the bytes
/// alone.
pub uninterp spec fn utf8_decoding(bytes: Seq<u8>) -> Option<Seq<char>>;

/// Relies on String::from_utf8: it returns the decoded string exactly when
/// the bytes are valid UTF-8 and an error otherwise, and the outcome is a
/// function of the bytes alone.
#[verifier::external_body]
fn decode_utf8(bytes: Vec<u8>) -> (r: Option<String>)
    ensures
        r is Some <==> utf8_decoding(bytes@) is Some,
        r is Some ==> r->0@ == utf8_decoding(bytes@)->0,
{
    match String::from_utf8(bytes) {
        Ok(s) => Some(s),
        Err(_) => None,
    }
}

/// Interprets the bytes read from the regular file at `path` as text: the
/// whole content decoded as UTF-8, or a decode failure naming the file —
/// never an I/O failure.
pub fn decode_text(path: &str, bytes: Vec<u8>) -> (r: Result<String, FsError>)
    ensures
        r is Ok <==> utf8_decoding(bytes@) is Some,
        r is Ok ==> r->Ok_0@ == utf8_decoding(bytes@)->0,
        r is Err ==> r->Err_0.kind == FsErrorKind::DecodeFailure && r->Err_0.path@ == path@,
{
    match decode_utf8(bytes) {
        Option::Some(s) => Result::Ok(s),
        Option::None => Result::Err(FsError::new(FsErrorKind::DecodeFailure, path)),
    }
}

} // verus!
