//! What this library takes from the standard library without proof.
use std::borrow::Cow;

use vstd::prelude::*;

verus! {

/// `String::push` appends one character.
pub assume_specification[ String::push ](text: &mut String, c: char)
    ensures
        final(text)@ == old(text)@.push(c),
;

/// The error of `String::from_utf8`; nothing is read from it.
#[verifier::external_type_specification]
#[verifier::external_body]
pub struct ExFromUtf8Error(std::string::FromUtf8Error);

/// `String::from_utf8` succeeds on valid UTF-8 and on nothing else, and then
/// holds the characters that the bytes encode.
pub assume_specification[ String::from_utf8 ](bytes: Vec<u8>) -> (result: Result<
    String,
    std::string::FromUtf8Error,
>)
    ensures
        result is Ok <==> vstd::utf8::valid_utf8(bytes@),
        result matches Ok(text) ==> text@ == vstd::utf8::decode_utf8(bytes@),
;

/// The characters that `String::from_utf8_lossy` makes of some bytes.
pub uninterp spec fn utf8_lossy(bytes: Seq<u8>) -> Seq<char>;

/// Whether `text` starts with what any valid start of `bytes` decodes to.
pub open spec fn keeps_valid_start(bytes: Seq<u8>, text: Seq<char>) -> bool {
    forall|n: int|
        #![trigger bytes.take(n)]
        0 <= n <= bytes.len() && vstd::utf8::valid_utf8(bytes.take(n))
            ==> vstd::utf8::decode_utf8(bytes.take(n)).is_prefix_of(text)
}

/// `String::from_utf8_lossy` is a function of the bytes. Valid UTF-8 is
/// decoded as it stands, up to the first invalid sequence if there is one; the
/// replacement character takes the place of what is invalid. How many replacement characters a run of invalid bytes
/// gives is left unsaid.
pub assume_specification<'a>[ String::from_utf8_lossy ](bytes: &'a [u8]) -> (text: Cow<'a, str>)
    ensures
        text@ == utf8_lossy(bytes@),
        vstd::utf8::valid_utf8(bytes@) ==> text@ == vstd::utf8::decode_utf8(bytes@),
        !vstd::utf8::valid_utf8(bytes@) ==> text@.contains('\u{FFFD}'),
        keeps_valid_start(bytes@, text@),
;

/// The characters that `str::to_lowercase` makes of some text.
pub uninterp spec fn unicode_lowercase(text: Seq<char>) -> Seq<char>;

/// The lowercase form of an ASCII letter; any other character as it is.
pub open spec fn ascii_lowercase(c: char) -> char {
    if 'A' <= c <= 'Z' {
        ((c as u32) + 32) as char
    } else {
        c
    }
}

/// `str::to_lowercase` is a function of the characters. Text that is all ASCII
/// has its letters `A` to `Z` mapped to `a` to `z`; what Unicode says of other
/// characters is left unsaid.
pub assume_specification[ str::to_lowercase ](text: &str) -> (lower: String)
    ensures
        lower@ == unicode_lowercase(text@),
        vstd::utf8::is_ascii_chars(text@) ==> lower@ == text@.map_values(
            |c: char| ascii_lowercase(c),
        ),
;

/// The part of `text` behind the last occurrence of `c`, if there is one.
pub open spec fn after_last(text: Seq<char>, c: char) -> Option<Seq<char>>
    decreases text.len(),
{
    if text.len() == 0 {
        None
    } else if text.last() == c {
        Some(Seq::empty())
    } else {
        match after_last(text.drop_last(), c) {
            Some(tail) => Some(tail.push(text.last())),
            None => None,
        }
    }
}

/// What stands behind the last `/` of a path.
pub open spec fn last_segment(path: Seq<char>) -> Seq<char> {
    match after_last(path, '/') {
        Some(name) => name,
        None => path,
    }
}

/// The extension of a file name: what stands behind its last `.`, unless there
/// is no `.` or the only one is the first character.
pub open spec fn name_extension(name: Seq<char>) -> Option<Seq<char>> {
    match after_last(name, '.') {
        Some(ext) => if ext.len() + 1 < name.len() {
            Some(ext)
        } else {
            None
        },
        None => None,
    }
}

/// A relative path that ends in a file name and is read alike on every
/// platform: it does not start with `/`, holds no `\` or `:`, and its last
/// segment is neither empty nor `.` nor `..`.
pub open spec fn is_plain_relative(path: Seq<char>) -> bool {
    &&& path.len() > 0 && path[0] != '/'
    &&& !path.contains('\\') && !path.contains(':')
    &&& last_segment(path).len() > 0
    &&& last_segment(path) != seq!['.']
    &&& last_segment(path) != seq!['.', '.']
}

/// The extension that `Path::extension` finds in a path.
pub uninterp spec fn path_extension(path: Seq<char>) -> Option<Seq<char>>;

/// `Path::extension` on a path given as text. The result is a function of the
/// text. Of a plain relative path it is the part of the last segment behind
/// its final `.`, and absent where there is no `.` or the only one begins the
/// segment. How other paths are taken apart is left unsaid.
#[verifier::external_body]
pub(crate) fn extension_of(path: &str) -> (ext: Option<String>)
    ensures
        ext is Some <==> path_extension(path@) is Some,
        ext matches Some(text) ==> Some(text@) == path_extension(path@),
        is_plain_relative(path@) ==> (ext is Some <==> name_extension(
            last_segment(path@),
        ) is Some),
        is_plain_relative(path@) ==> (ext matches Some(text) ==> Some(text@) == name_extension(
            last_segment(path@),
        )),
{
    std::path::Path::new(path).extension().and_then(|e| e.to_str()).map(|e| e.to_owned())
}

} // verus!
