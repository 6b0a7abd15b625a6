//! Bytes read as UTF-8 text.

use crate::response::Error;
use vstd::prelude::*;
use vstd::utf8::{decode_utf8, valid_utf8};

verus! {

/// The error of `String::from_utf8`, carried through as it is.
#[verifier::external_type_specification]
#[verifier::external_body]
pub struct ExFromUtf8Error(std::string::FromUtf8Error);

/// The bytes that a `FromUtf8Error` keeps: those that `String::from_utf8` was
/// given when it failed, which `FromUtf8Error::as_bytes` hands out.
pub uninterp spec fn rejected_bytes(e: std::string::FromUtf8Error) -> Seq<u8>;

/// The text that the `FromUtf8Error` of a failed conversion of `bytes`
/// displays: why they are not UTF-8.
pub uninterp spec fn utf8_error_text(bytes: Seq<u8>) -> Seq<char>;

/// `String::from_utf8` succeeds on the bytes that are valid UTF-8, and on no
/// others; the string then holds the characters that they encode. The error
/// of a failure keeps the bytes.
pub assume_specification[ String::from_utf8 ](vec: Vec<u8>) -> (r: Result<
    String,
    std::string::FromUtf8Error,
>)
    ensures
        r is Ok <==> valid_utf8(vec@),
        r matches Ok(s) ==> s@ == decode_utf8(vec@),
        r matches Err(e) ==> rejected_bytes(e) == vec@,
;

/// The text that `FromUtf8Error` displays, got by `to_string`. It says where
/// the bytes stop being UTF-8, so it depends on nothing but the bytes that the
/// error keeps.
#[verifier::external_body]
fn error_text(e: &std::string::FromUtf8Error) -> (r: String)
    ensures
        r@ == utf8_error_text(rejected_bytes(*e)),
{
    e.to_string()
}

/// Reads `bytes` as UTF-8 text. Bytes that are not valid UTF-8 give a failure
/// whose message says why.
pub fn decode(bytes: Vec<u8>) -> (r: Result<String, Error>)
    ensures
        match r {
            Ok(s) => valid_utf8(bytes@) && s@ == decode_utf8(bytes@),
            Err(e) => !valid_utf8(bytes@) && e@ == utf8_error_text(bytes@),
        },
{
    match String::from_utf8(bytes) {
        Ok(s) => Ok(s),
        Err(e) => Err(Error::msg(error_text(&e).as_str())),
    }
}

} // verus!
