//! What this library takes from the `globset` crate without proof.
//!
//! The contracts speak of one target platform at a time: `globset` treats `\`
//! as an escape where it does not separate path components, and as a separator
//! where it does, and its limit on the size of a compiled set is counted in
//! bytes of memory. Running out of memory or stack is not covered.
use globset::{Glob, GlobSet, GlobSetBuilder};

use vstd::prelude::*;

use crate::limits;

verus! {

/// A set of compiled globs.
#[verifier::external_type_specification]
#[verifier::external_body]
pub struct ExGlobSet(globset::GlobSet);

/// A set of globs that is still being filled.
#[verifier::external_type_specification]
#[verifier::external_body]
pub struct ExGlobSetBuilder(globset::GlobSetBuilder);

/// The error of parsing or compiling a glob; it is carried and never read.
#[verifier::external_type_specification]
#[verifier::external_body]
pub struct ExGlobsetError(globset::Error);

/// The patterns, each parsed by `Glob::new`, that a builder has been given, in
/// order.
pub uninterp spec fn builder_patterns(builder: GlobSetBuilder) -> Seq<Seq<char>>;

/// The paths that a set matches.
pub uninterp spec fn globset_paths(set: GlobSet) -> Set<Seq<char>>;

/// Whether `Glob::new` accepts a pattern.
pub uninterp spec fn glob_is_valid(pattern: Seq<char>) -> bool;

/// The error that `Glob::new` gives for a pattern that it does not accept.
pub uninterp spec fn glob_error(pattern: Seq<char>) -> globset::Error;

/// Whether `GlobSetBuilder::build` can compile a list of accepted patterns.
pub uninterp spec fn globset_compiles(patterns: Seq<Seq<char>>) -> bool;

/// The error that `GlobSetBuilder::build` gives for an accepted pattern that it
/// cannot compile, where the builder has no other.
pub uninterp spec fn lone_set_error(pattern: Seq<char>) -> globset::Error;

/// Whether one glob, by itself, matches a path.
pub uninterp spec fn glob_matches(pattern: Seq<char>, path: Seq<char>) -> bool;

/// Whether any of some globs matches a path.
pub open spec fn any_matches(patterns: Seq<Seq<char>>, path: Seq<char>) -> bool {
    exists|i: int| 0 <= i < patterns.len() && glob_matches(#[trigger] patterns[i], path)
}

/// The paths that any of some globs matches.
pub open spec fn matched_by(patterns: Seq<Seq<char>>) -> Set<Seq<char>> {
    Set::new(|path: Seq<char>| any_matches(patterns, path))
}

/// A character that glob syntax gives no meaning of its own, and that is
/// neither `.` nor a path separator.
pub open spec fn is_plain_char(c: char) -> bool {
    &&& c != '*' && c != '?' && c != '[' && c != ']'
    &&& c != '{' && c != '}' && c != ','
    &&& c != '\\' && c != '/' && c != '.'
}

/// A file extension that stands for itself in a glob.
pub open spec fn is_plain_extension(ext: Seq<char>) -> bool {
    ext.len() > 0 && forall|i: int| 0 <= i < ext.len() ==> is_plain_char(#[trigger] ext[i])
}

/// Whether a pattern is the glob of a plain extension, `*.EXT` or `**/*.EXT`.
pub open spec fn is_extension_glob(pattern: Seq<char>, ext: Seq<char>) -> bool {
    &&& is_plain_extension(ext)
    &&& pattern == seq!['*', '.'] + ext || pattern == seq!['*', '*', '/', '*', '.'] + ext
}

/// Whether a path ends in `.EXT`.
pub open spec fn ends_in_extension(path: Seq<char>, ext: Seq<char>) -> bool {
    (seq!['.'] + ext).is_suffix_of(path)
}

/// Whether a pattern is the glob of some plain extension.
pub open spec fn is_some_extension_glob(pattern: Seq<char>) -> bool {
    exists|ext: Seq<char>| is_extension_glob(pattern, ext)
}

/// Whether a pattern is the glob of a plain extension that a path ends in.
pub open spec fn extension_accepts(pattern: Seq<char>, path: Seq<char>) -> bool {
    exists|ext: Seq<char>| #[trigger]
        is_extension_glob(pattern, ext) && ends_in_extension(path, ext)
}

/// Whether a pattern is the glob of a plain extension that a path does not end
/// in.
pub open spec fn extension_rejects(pattern: Seq<char>, path: Seq<char>) -> bool {
    exists|ext: Seq<char>| #[trigger]
        is_extension_glob(pattern, ext) && !ends_in_extension(path, ext)
}

/// Whether some pattern of a list accepts a path by its extension.
pub open spec fn any_extension_accepts(patterns: Seq<Seq<char>>, path: Seq<char>) -> bool {
    exists|i: int| 0 <= i < patterns.len() && extension_accepts(#[trigger] patterns[i], path)
}

/// Whether every pattern of a list rejects a path by its extension.
pub open spec fn all_extensions_reject(patterns: Seq<Seq<char>>, path: Seq<char>) -> bool {
    forall|i: int| 0 <= i < patterns.len() ==> extension_rejects(#[trigger] patterns[i], path)
}

/// Whether every pattern of a list is the glob of a plain extension.
pub open spec fn all_extension_globs(patterns: Seq<Seq<char>>) -> bool {
    forall|i: int| 0 <= i < patterns.len() ==> is_some_extension_glob(#[trigger] patterns[i])
}

/// Whether a set of paths agrees with a list of patterns as far as extensions
/// decide: it holds the paths that some pattern accepts by extension, and not
/// those that all of them reject by extension.
pub open spec fn respects_extensions(
    paths: Set<Seq<char>>,
    patterns: Seq<Seq<char>>,
) -> bool {
    forall|path: Seq<char>|
        #![trigger paths.contains(path)]
        (any_extension_accepts(patterns, path) ==> paths.contains(path)) && (
        all_extensions_reject(patterns, path) ==> !paths.contains(path))
}

/// `GlobSetBuilder::new` starts without patterns.
#[verifier::external_body]
pub(crate) fn new_builder() -> (builder: GlobSetBuilder)
    ensures
        builder_patterns(builder) == Seq::<Seq<char>>::empty(),
{
    GlobSetBuilder::new()
}

/// `Glob::new`, and `GlobSetBuilder::add` on the glob that it gives. Whether
/// the pattern is accepted is a function of the pattern; the glob of a plain
/// extension is. So is the error for a pattern that is refused. An accepted
/// pattern comes behind those that the builder had; a refused one leaves the
/// builder as it was.
#[verifier::external_body]
pub(crate) fn add_glob(builder: &mut GlobSetBuilder, pattern: &str) -> (result: Result<
    (),
    globset::Error,
>)
    ensures
        result is Ok <==> glob_is_valid(pattern@),
        is_some_extension_glob(pattern@) ==> result is Ok,
        result matches Err(error) ==> error == glob_error(pattern@),
        builder_patterns(*final(builder)) == (if result is Ok {
            builder_patterns(*old(builder)).push(pattern@)
        } else {
            builder_patterns(*old(builder))
        }),
{
    builder.add(Glob::new(pattern)?);
    Ok(())
}

/// `GlobSetBuilder::build` makes a set that matches a path if and only if one
/// of the builder's globs does. The glob of a plain extension matches the paths
/// that end in `.EXT` and no others; which paths any other glob matches is left
/// to `globset`.
///
/// Whether it succeeds is a function of the patterns: it fails where the
/// regular expressions that they need exceed the compiler's limits on size and
/// nesting. A list of nothing but globs of plain extensions needs none, nor does
/// the empty list, and then it succeeds. The error for a single pattern is a
/// function of the pattern; of several that cannot be compiled, the walk over a
/// hash map decides which one the error is about, and that is left unsaid.
///
/// It panics on some lists of very many or very long patterns; none of them is
/// within the limits.
#[verifier::external_body]
pub(crate) fn build_set(builder: &GlobSetBuilder) -> (result: Result<GlobSet, globset::Error>)
    requires
        limits::within_limits(builder_patterns(*builder)),
    ensures
        result is Ok <==> globset_compiles(builder_patterns(*builder)),
        all_extension_globs(builder_patterns(*builder)) ==> result is Ok,
        builder_patterns(*builder).len() == 1 ==> (result matches Err(error) ==> error
            == lone_set_error(builder_patterns(*builder)[0])),
        result matches Ok(set) ==> forall|path: Seq<char>| #[trigger]
            globset_paths(set).contains(path) <==> exists|i: int|
                0 <= i < builder_patterns(*builder).len() && glob_matches(
                    #[trigger] builder_patterns(*builder)[i],
                    path,
                ),
        result matches Ok(set) ==> respects_extensions(
            globset_paths(set),
            builder_patterns(*builder),
        ),
{
    builder.build()
}

/// `GlobSet::is_match` tells whether the set matches the path.
#[verifier::external_body]
pub(crate) fn set_matches(set: &GlobSet, path: &str) -> (matched: bool)
    ensures
        matched == globset_paths(*set).contains(path@),
{
    set.is_match(path)
}

/// The glob of a plain extension in characters: `*.` or `**/*.`, and behind it
/// one or more characters, none of which has a meaning of its own in a glob or
/// is `.` or a path separator.
pub proof fn law_extension_glob_in_characters(pattern: Seq<char>, ext: Seq<char>)
    ensures
        is_extension_glob(pattern, ext) <==> {
            &&& ext.len() > 0
            &&& pattern == seq!['*', '.'] + ext || pattern == seq!['*', '*', '/', '*', '.'] + ext
            &&& !ext.contains('*') && !ext.contains('?') && !ext.contains('[') && !ext.contains(']')
            &&& !ext.contains('{') && !ext.contains('}') && !ext.contains(',')
            &&& !ext.contains('\\') && !ext.contains('/') && !ext.contains('.')
        },
        is_extension_glob(pattern, ext) ==> is_some_extension_glob(pattern),
{
    if ext.len() > 0 && !ext.contains('*') && !ext.contains('?') && !ext.contains('[')
        && !ext.contains(']') && !ext.contains('{') && !ext.contains('}') && !ext.contains(',')
        && !ext.contains('\\') && !ext.contains('/') && !ext.contains('.') {
        assert forall|i: int| 0 <= i < ext.len() implies is_plain_char(#[trigger] ext[i]) by {
            assert(ext.contains(ext[i]));
        }
    }
}

/// A path ends in an extension if `.` and the extension stand at its end.
pub proof fn law_extension_ends_the_path(front: Seq<char>, ext: Seq<char>, path: Seq<char>)
    ensures
        ends_in_extension(front.push('.') + ext, ext),
        ends_in_extension(path, ext) ==> path == path.take(path.len() - ext.len() - 1).push('.')
            + ext && path.len() > ext.len(),
{
    let whole = front.push('.') + ext;
    let tail = seq!['.'] + ext;
    assert(whole.subrange(whole.len() - tail.len(), whole.len() as int) =~= tail);
    if ends_in_extension(path, ext) {
        assert(path.subrange(path.len() - tail.len(), path.len() as int) == tail);
        assert forall|i: int| 0 <= i < tail.len() implies tail[i] == path[path.len() - tail.len()
            + i] by {
            assert(path.subrange(path.len() - tail.len(), path.len() as int)[i] == tail[i]);
        }
        assert(path =~= path.take(path.len() - ext.len() - 1).push('.') + ext) by {
            assert forall|i: int| 0 <= i < path.len() implies path[i] == (path.take(
                path.len() - ext.len() - 1,
            ).push('.') + ext)[i] by {
                let k = i - (path.len() - tail.len());
                if k >= 0 {
                    assert(tail[k] == path[i]);
                }
            }
        }
    }
}

} // verus!
