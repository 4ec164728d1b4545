//! Paths as they are shown and matched.
use vstd::prelude::*;

use crate::platform;
use crate::reading;

verus! {

/// `text` with every `\` turned into `/`.
pub open spec fn forward_slashes(text: Seq<char>) -> Seq<char> {
    text.map_values(
        |c: char|
            if c == '\\' {
                '/'
            } else {
                c
            },
    )
}

/// Turns every `\` of `text` into `/`.
pub fn to_forward_slashes(text: &str) -> (result: String)
    ensures
        result@ == forward_slashes(text@),
        result@.len() == text@.len(),
        forall|i: int|
            0 <= i < text@.len() ==> #[trigger] result@[i] == (if text@[i] == '\\' {
                '/'
            } else {
                text@[i]
            }),
{
    let mut result = String::new();
    for c in it: text.chars()
        invariant
            it.seq() == text@,
            result@ == forward_slashes(text@.take(it.index() as int)),
    {
        if c == '\\' {
            result.push('/');
        } else {
            result.push(c);
        }
        assert(result@ =~= forward_slashes(text@.take(it.index() + 1)));
    }
    assert(text@.take(text@.len() as int) =~= text@);
    result
}

/// Normalizes a path to text with forward slashes.
///
/// `path` holds the bytes of the path where the platform's paths are bytes, and
/// the UTF-8 of its text where they are not. Bytes that are not UTF-8 are shown
/// as `\u{FFFD}`. A path without `\` is unchanged; where `\` separates
/// components, this makes output and glob matching the same as elsewhere.
#[must_use]
pub fn normalize_path(path: &[u8]) -> (text: String)
    ensures
        text@ == forward_slashes(platform::utf8_lossy(path@)),
        vstd::utf8::valid_utf8(path@) ==> text@ == forward_slashes(
            vstd::utf8::decode_utf8(path@),
        ),
        text@.len() == platform::utf8_lossy(path@).len(),
        forall|i: int|
            0 <= i < text@.len() ==> #[trigger] text@[i] == (if platform::utf8_lossy(path@)[i]
                == '\\' {
                '/'
            } else {
                platform::utf8_lossy(path@)[i]
            }),
{
    to_forward_slashes(reading::decode_lossy(path).as_str())
}

/// The name that a file given by itself is shown and matched under: its bare
/// name, or nothing where the path ends in none that is text.
pub fn bare_name<'a>(name: Option<&'a str>) -> (shown: &'a str)
    ensures
        shown@ == (match name {
            Some(text) => text@,
            None => ""@,
        }),
{
    match name {
        Some(text) => text,
        None => "",
    }
}

/// A normalized path holds no `\`, has as many characters as before, and keeps
/// every character that was not `\`.
pub proof fn law_no_backslash(text: Seq<char>)
    ensures
        !forward_slashes(text).contains('\\'),
        forward_slashes(text).len() == text.len(),
        forall|i: int|
            0 <= i < text.len() && text[i] != '\\' ==> #[trigger] forward_slashes(text)[i]
                == text[i],
{
}

/// A path without `\` is left as it is.
pub proof fn law_forward_slashes_unchanged(text: Seq<char>)
    requires
        !text.contains('\\'),
    ensures
        forward_slashes(text) == text,
{
    assert forall|i: int| 0 <= i < text.len() implies forward_slashes(text)[i] == text[i] by {
        assert(text.contains(text[i]));
    }
    assert(forward_slashes(text) =~= text);
}

/// Normalizing a normalized path changes nothing: the bytes of the result are
/// valid UTF-8, and normalizing them gives the result again.
pub proof fn law_normalize_idempotent(text: Seq<char>)
    ensures
        vstd::utf8::valid_utf8(vstd::utf8::encode_utf8(forward_slashes(text))),
        forward_slashes(
            vstd::utf8::decode_utf8(vstd::utf8::encode_utf8(forward_slashes(text))),
        ) == forward_slashes(text),
{
    vstd::utf8::encode_utf8_valid_utf8(forward_slashes(text));
    vstd::utf8::encode_utf8_decode_utf8(forward_slashes(text));
    assert(forward_slashes(forward_slashes(text)) =~= forward_slashes(text));
}

/// Every character of a normalized path comes from the one at its place: `/`
/// from `\`, and any other from itself.
pub proof fn law_slashes_by_character(text: Seq<char>, i: int)
    requires
        0 <= i < text.len(),
    ensures
        forward_slashes(text).len() == text.len(),
        text[i] == '\\' ==> forward_slashes(text)[i] == '/',
        text[i] != '\\' ==> forward_slashes(text)[i] == text[i],
{
}

} // verus!
