//! Turning the bytes of a file into text.
use std::borrow::Cow;

use vstd::prelude::*;

use crate::platform;

verus! {

/// Decodes bytes as UTF-8, replacing invalid sequences with `\u{FFFD}`.
pub fn decode_lossy(bytes: &[u8]) -> (text: String)
    ensures
        text@ == platform::utf8_lossy(bytes@),
        vstd::utf8::valid_utf8(bytes@) ==> text@ == vstd::utf8::decode_utf8(bytes@),
        !vstd::utf8::valid_utf8(bytes@) ==> text@.contains('\u{FFFD}'),
        platform::keeps_valid_start(bytes@, text@),
{
    match String::from_utf8_lossy(bytes) {
        Cow::Borrowed(text) => text.to_owned(),
        Cow::Owned(text) => text,
    }
}

/// Decodes what reading a file gave as UTF-8, replacing invalid sequences with
/// `\u{FFFD}`.
///
/// Kept for callers that intentionally want lossy decoding. For normal use,
/// prefer [`read_text`].
///
/// # Errors
///
/// Hands on the error of the read.
pub fn read_text_lossy<E>(read: Result<Vec<u8>, E>) -> (result: Result<String, E>)
    ensures
        match read {
            Ok(bytes) => result matches Ok(text) && {
                &&& text@ == platform::utf8_lossy(bytes@)
                &&& vstd::utf8::valid_utf8(bytes@) ==> text@ == vstd::utf8::decode_utf8(bytes@)
                &&& !vstd::utf8::valid_utf8(bytes@) ==> text@.contains('\u{FFFD}')
                &&& platform::keeps_valid_start(bytes@, text@)
            },
            Err(error) => result == Err::<String, E>(error),
        },
{
    match read {
        Ok(bytes) => Ok(decode_lossy(bytes.as_slice())),
        Err(error) => Err(error),
    }
}

/// Decodes what reading a file gave as strict UTF-8.
///
/// Returns `Ok(None)` if the file holds invalid UTF-8 (binary content), so
/// that the caller can skip it without halting.
///
/// # Errors
///
/// Hands on the error of the read.
pub fn read_text<E>(read: Result<Vec<u8>, E>) -> (result: Result<Option<String>, E>)
    ensures
        match read {
            Ok(bytes) => match result {
                Ok(Some(text)) => vstd::utf8::valid_utf8(bytes@) && text@
                    == vstd::utf8::decode_utf8(bytes@),
                Ok(None) => !vstd::utf8::valid_utf8(bytes@),
                Err(_) => false,
            },
            Err(error) => result == Err::<Option<String>, E>(error),
        },
{
    match read {
        Ok(bytes) => match String::from_utf8(bytes) {
            Ok(text) => Ok(Some(text)),
            Err(_) => Ok(None),
        },
        Err(error) => Err(error),
    }
}

} // verus!
