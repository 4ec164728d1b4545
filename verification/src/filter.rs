//! Which files are shown, by include and exclude globs.
use globset::GlobSet;

use vstd::prelude::*;

use crate::glob;
use crate::limits;
use crate::strings;

verus! {

/// Why a list of glob patterns could not be turned into a set.
#[derive(Debug)]
pub enum GlobError {
    /// The pattern at `index` of the list is not a valid glob.
    InvalidPattern { index: usize, source: globset::Error },
    /// Every pattern is a valid glob, but the set of them does not compile.
    InvalidSet { source: globset::Error },
}

/// Whether every pattern of a list is a valid glob.
pub open spec fn all_valid(patterns: Seq<Seq<char>>) -> bool {
    forall|i: int| 0 <= i < patterns.len() ==> glob::glob_is_valid(#[trigger] patterns[i])
}

/// Whether a set can be built of a list of patterns.
pub open spec fn builds(patterns: Seq<Seq<char>>) -> bool {
    all_valid(patterns) && glob::globset_compiles(patterns)
}

impl GlobError {
    /// Whether this is the error that a list of patterns gives: the first
    /// pattern that is not a valid glob, with the error of that very pattern, or
    /// else that the set does not compile.
    pub open spec fn explains(self, patterns: Seq<Seq<char>>) -> bool {
        match self {
            GlobError::InvalidPattern { index, source } => {
                &&& index < patterns.len()
                &&& all_valid(patterns.take(index as int))
                &&& !glob::glob_is_valid(patterns[index as int])
                &&& source == glob::glob_error(patterns[index as int])
            },
            GlobError::InvalidSet { source } => {
                &&& all_valid(patterns)
                &&& !glob::globset_compiles(patterns)
                &&& !glob::all_extension_globs(patterns)
                &&& patterns.len() == 1 ==> source == glob::lone_set_error(patterns[0])
            },
        }
    }
}

/// Whether a result is what building a set of a list of patterns gives.
pub open spec fn is_built_from(
    result: Result<GlobSet, GlobError>,
    patterns: Seq<Seq<char>>,
) -> bool {
    &&& result is Ok <==> builds(patterns)
    &&& glob::all_extension_globs(patterns) ==> result is Ok
    &&& match result {
        Ok(set) => {
            &&& glob::globset_paths(set) == glob::matched_by(patterns)
            &&& glob::respects_extensions(glob::globset_paths(set), patterns)
        },
        Err(error) => error.explains(patterns),
    }
}

/// Whether a list of patterns is too large to be sure of a set: every pattern is
/// a valid glob, so that all of them would be compiled, and they are past the
/// limits.
pub open spec fn too_large(patterns: Seq<Seq<char>>) -> bool {
    all_valid(patterns) && !limits::within_limits(patterns)
}

/// Compiles a list of glob pattern strings into a [`GlobSet`] for efficient
/// multi-pattern matching.
///
/// # Errors
///
/// Returns the first pattern that is syntactically invalid, if there is one,
/// with the [`globset::Error`] that parsing it gives, and otherwise the failure
/// to compile the set.
pub fn build_globset(patterns: &[String]) -> (result: Result<GlobSet, GlobError>)
    requires
        !too_large(strings::texts(patterns@)),
    ensures
        is_built_from(result, strings::texts(patterns@)),
        result is Ok <==> (forall|i: int|
            0 <= i < patterns@.len() ==> glob::glob_is_valid((#[trigger] patterns@[i])@))
            && glob::globset_compiles(strings::texts(patterns@)),
        result matches Ok(set) ==> forall|path: Seq<char>| #[trigger]
            glob::globset_paths(set).contains(path) <==> exists|i: int|
                0 <= i < patterns@.len() && glob::glob_matches((#[trigger] patterns@[i])@, path),
        result matches Err(GlobError::InvalidPattern { index, source }) ==> {
            &&& index < patterns@.len()
            &&& !glob::glob_is_valid(patterns@[index as int]@)
            &&& source == glob::glob_error(patterns@[index as int]@)
            &&& forall|i: int| 0 <= i < index ==> glob::glob_is_valid((#[trigger] patterns@[i])@)
        },
        result matches Err(GlobError::InvalidSet { .. }) ==> forall|i: int|
            0 <= i < patterns@.len() ==> glob::glob_is_valid((#[trigger] patterns@[i])@),
{
    let ghost all = strings::texts(patterns@);
    let mut builder = glob::new_builder();
    let mut i: usize = 0;
    assert(all.take(0) =~= Seq::empty());
    while i < patterns.len()
        invariant
            i <= patterns@.len(),
            all == strings::texts(patterns@),
            glob::builder_patterns(builder) == all.take(i as int),
            all_valid(all.take(i as int)),
            forall|j: int| 0 <= j < i ==> glob::glob_is_valid((#[trigger] patterns@[j])@),
        decreases patterns@.len() - i,
    {
        assert(all[i as int] == patterns@[i as int]@);
        match glob::add_glob(&mut builder, patterns[i].as_str()) {
            Ok(()) => {
                assert(all.take(i + 1) =~= all.take(i as int).push(all[i as int]));
                assert forall|j: int| 0 <= j < i + 1 implies glob::glob_is_valid(
                    #[trigger] all.take(i + 1)[j],
                ) by {
                    if j < i {
                        assert(glob::glob_is_valid(all.take(i as int)[j]));
                    }
                }
            },
            Err(source) => {
                assert(!glob::glob_is_valid(all[i as int]));
                return Err(GlobError::InvalidPattern { index: i, source });
            },
        }
        i += 1;
    }
    assert(all.take(all.len() as int) =~= all);
    match glob::build_set(&builder) {
        Ok(set) => {
            assert(glob::globset_paths(set) =~= glob::matched_by(all));
            proof {
                assert forall|path: Seq<char>| #[trigger]
                    glob::globset_paths(set).contains(path) <==> exists|i: int|
                        0 <= i < patterns@.len() && glob::glob_matches(
                            (#[trigger] patterns@[i])@,
                            path,
                        ) by {
                    if glob::globset_paths(set).contains(path) {
                        let i = choose|i: int|
                            0 <= i < all.len() && glob::glob_matches(#[trigger] all[i], path);
                        assert(all[i] == patterns@[i]@);
                    }
                    if exists|i: int|
                        0 <= i < patterns@.len() && glob::glob_matches(
                            (#[trigger] patterns@[i])@,
                            path,
                        ) {
                        let i = choose|i: int|
                            0 <= i < patterns@.len() && glob::glob_matches(
                                (#[trigger] patterns@[i])@,
                                path,
                            );
                        assert(glob::glob_matches(all[i], path));
                    }
                }
            }
            Ok(set)
        },
        Err(source) => Err(GlobError::InvalidSet { source }),
    }
}

/// Tells whether every pattern of a list is a valid glob.
fn all_parse(patterns: &[String]) -> (valid: bool)
    ensures
        valid == all_valid(strings::texts(patterns@)),
{
    let ghost all = strings::texts(patterns@);
    let mut i: usize = 0;
    while i < patterns.len()
        invariant
            i <= patterns@.len(),
            all == strings::texts(patterns@),
            forall|j: int| 0 <= j < i ==> glob::glob_is_valid(#[trigger] all[j]),
        decreases patterns@.len() - i,
    {
        assert(all[i as int] == patterns@[i as int]@);
        let mut builder = glob::new_builder();
        if glob::add_glob(&mut builder, patterns[i].as_str()).is_err() {
            return false;
        }
        i += 1;
    }
    true
}

/// Does what [`build_globset`] does, for every list of patterns that is not too
/// large, and returns `None` for one that is.
pub fn try_build_globset(patterns: &[String]) -> (result: Option<Result<GlobSet, GlobError>>)
    ensures
        result is None <==> too_large(strings::texts(patterns@)),
        result matches Some(built) ==> is_built_from(built, strings::texts(patterns@)),
{
    if limits::fits_limits(patterns) || !all_parse(patterns) {
        Some(build_globset(patterns))
    } else {
        None
    }
}

/// Decides whether a file should be included in output based on glob include
/// and exclude sets.
///
/// Each file is tested by both its relative path from the walk root (e.g.
/// `src/lib/util.rs`) and its bare filename (e.g. `util.rs`), so patterns
/// like `*.rs` work without needing a `**/` prefix.
///
/// Exclusions take priority: a file matching both an include and an exclude
/// pattern is always rejected.
pub struct GlobSetFilter {
    includes: Option<GlobSet>,
    excludes: GlobSet,
}

/// A filter as the paths that its two sets match.
#[verifier::ext_equal]
pub struct FilterView {
    /// What the include patterns match, if there is an include list at all.
    pub includes: Option<Set<Seq<char>>>,
    /// What the exclude patterns match.
    pub excludes: Set<Seq<char>>,
}

impl View for GlobSetFilter {
    type V = FilterView;

    closed spec fn view(&self) -> FilterView {
        FilterView {
            includes: match self.includes {
                Some(set) => Some(glob::globset_paths(set)),
                None => None,
            },
            excludes: glob::globset_paths(self.excludes),
        }
    }
}

/// Whether a file is among some paths, by its relative path or its bare name.
pub open spec fn file_matches(paths: Set<Seq<char>>, rel: Seq<char>, name: Seq<char>) -> bool {
    paths.contains(rel) || paths.contains(name)
}

impl FilterView {
    /// Whether the filter lets a file through.
    pub open spec fn allows(self, rel: Seq<char>, name: Seq<char>) -> bool {
        &&& !file_matches(self.excludes, rel, name)
        &&& self.includes matches Some(paths) ==> file_matches(paths, rel, name)
    }
}

impl GlobSetFilter {
    /// Creates a new filter.
    ///
    /// Pass `None` for `includes` to allow all files that are not excluded.
    #[must_use]
    pub fn new(includes: Option<GlobSet>, excludes: GlobSet) -> (filter: Self)
        ensures
            filter@.includes == (match includes {
                Some(set) => Some(glob::globset_paths(set)),
                None => None,
            }),
            filter@.excludes == glob::globset_paths(excludes),
    {
        Self { includes, excludes }
    }

    /// Returns `true` if the file at `rel` (relative path) with bare `name`
    /// should be included in output.
    #[must_use]
    pub fn allows(&self, rel: &str, name: &str) -> (allowed: bool)
        ensures
            allowed == self@.allows(rel@, name@),
            self@.excludes.contains(rel@) ==> !allowed,
            self@.excludes.contains(name@) ==> !allowed,
            !self@.excludes.contains(rel@) && !self@.excludes.contains(name@) ==> match self@.includes {
                Some(paths) => allowed <==> paths.contains(rel@) || paths.contains(name@),
                None => allowed,
            },
    {
        let excluded = glob::set_matches(&self.excludes, rel) || glob::set_matches(
            &self.excludes,
            name,
        );
        if excluded {
            return admits(true, None);
        }
        match &self.includes {
            None => admits(false, None),
            Some(set) => {
                let included = glob::set_matches(set, rel) || glob::set_matches(set, name);
                admits(false, Some(included))
            },
        }
    }

    /// Compiles the include and the exclude patterns of a filter. Without
    /// include patterns, every file that is not excluded is allowed.
    ///
    /// Returns `None` if the include patterns are too large a list or, if they
    /// can be compiled, the exclude patterns are.
    ///
    /// # Errors
    ///
    /// Returns what is wrong with the include patterns or, if nothing is, with
    /// the exclude patterns.
    pub fn from_patterns(includes: &[String], excludes: &[String]) -> (result: Option<
        Result<Self, FilterError>,
    >)
        ensures
            result is None <==> too_large(strings::texts(includes@)) || includes_build(
                strings::texts(includes@),
            ) && too_large(strings::texts(excludes@)),
            glob::all_extension_globs(strings::texts(includes@)) && glob::all_extension_globs(
                strings::texts(excludes@),
            ) ==> result matches Some(Ok(_)),
            match result {
                None => true,
                Some(Ok(filter)) => {
                    &&& includes_build(strings::texts(includes@))
                    &&& builds(strings::texts(excludes@))
                    &&& filter@.includes == (if includes@.len() == 0 {
                        None
                    } else {
                        Some(glob::matched_by(strings::texts(includes@)))
                    })
                    &&& filter@.excludes == glob::matched_by(strings::texts(excludes@))
                    &&& filter@.includes matches Some(paths) ==> glob::respects_extensions(
                        paths,
                        strings::texts(includes@),
                    )
                    &&& glob::respects_extensions(filter@.excludes, strings::texts(excludes@))
                },
                Some(Err(FilterError::Includes(error))) => {
                    &&& !includes_build(strings::texts(includes@))
                    &&& error.explains(strings::texts(includes@))
                },
                Some(Err(FilterError::Excludes(error))) => {
                    &&& includes_build(strings::texts(includes@))
                    &&& !builds(strings::texts(excludes@))
                    &&& error.explains(strings::texts(excludes@))
                },
            },
    {
        let include_set = if includes.len() == 0 {
            None
        } else {
            match try_build_globset(includes) {
                Some(Ok(set)) => Some(set),
                Some(Err(error)) => {
                    return Some(Err(FilterError::Includes(error)));
                },
                None => {
                    return None;
                },
            }
        };
        match try_build_globset(excludes) {
            Some(Ok(exclude_set)) => Some(Ok(GlobSetFilter::new(include_set, exclude_set))),
            Some(Err(error)) => Some(Err(FilterError::Excludes(error))),
            None => None,
        }
    }
}

/// Whether the include patterns of a filter can be compiled; without any there
/// is nothing to compile.
pub open spec fn includes_build(patterns: Seq<Seq<char>>) -> bool {
    patterns.len() == 0 || builds(patterns)
}

/// Decides on a file from what the globs say of it: an excluded file is
/// rejected, and otherwise the include list decides where there is one.
pub fn admits(excluded: bool, included: Option<bool>) -> (allowed: bool)
    ensures
        allowed == (!excluded && included != Some(false)),
{
    if excluded {
        return false;
    }
    match included {
        None => true,
        Some(included) => included,
    }
}

/// Which of the two pattern lists of a filter is at fault.
#[derive(Debug)]
pub enum FilterError {
    /// The include patterns.
    Includes(GlobError),
    /// The exclude patterns.
    Excludes(GlobError),
}

/// The include pattern that a file extension is short for.
pub open spec fn extension_pattern(ext: Seq<char>) -> Seq<char> {
    "**/*."@ + ext
}

/// The include patterns that explicit patterns and extensions ask for.
pub open spec fn merged_includes(
    explicit: Seq<Seq<char>>,
    extensions: Seq<Seq<char>>,
) -> Seq<Seq<char>> {
    explicit + extensions.map_values(|ext: Seq<char>| extension_pattern(ext))
}

/// Merges file extensions into the include patterns: an extension `EXT` is
/// shorthand for the pattern `**/*.EXT` behind the explicit ones.
pub fn include_patterns(explicit: &[String], extensions: &[String]) -> (merged: Vec<String>)
    ensures
        strings::texts(merged@) == merged_includes(
            strings::texts(explicit@),
            strings::texts(extensions@),
        ),
        merged@.len() == explicit@.len() + extensions@.len(),
        forall|i: int| 0 <= i < explicit@.len() ==> (#[trigger] merged@[i])@ == explicit@[i]@,
        forall|j: int|
            0 <= j < extensions@.len() ==> (#[trigger] merged@[explicit@.len() + j])@ == seq![
                '*',
                '*',
                '/',
                '*',
                '.',
            ] + extensions@[j]@,
{
    let ghost first = strings::texts(explicit@);
    let ghost second = strings::texts(extensions@);
    let mut merged: Vec<String> = Vec::new();
    let mut i: usize = 0;
    while i < explicit.len()
        invariant
            i <= explicit@.len(),
            first == strings::texts(explicit@),
            strings::texts(merged@) == first.take(i as int),
        decreases explicit@.len() - i,
    {
        let ghost done = strings::texts(merged@);
        let pattern = explicit[i].as_str().to_owned();
        let ghost added = pattern@;
        merged.push(pattern);
        assert(strings::texts(merged@) =~= done.push(added));
        i += 1;
        assert(strings::texts(merged@) =~= first.take(i as int));
    }
    let mut j: usize = 0;
    assert(first.take(first.len() as int) =~= first);
    assert(merged_includes(first, second.take(0)) =~= first);
    while j < extensions.len()
        invariant
            j <= extensions@.len(),
            second == strings::texts(extensions@),
            strings::texts(merged@) == merged_includes(first, second.take(j as int)),
        decreases extensions@.len() - j,
    {
        let ghost done = strings::texts(merged@);
        let mut pattern = "**/*.".to_owned();
        pattern.append(extensions[j].as_str());
        let ghost added = pattern@;
        assert(added == extension_pattern(second[j as int]));
        merged.push(pattern);
        assert(strings::texts(merged@) =~= done.push(added));
        j += 1;
        assert(strings::texts(merged@) =~= merged_includes(first, second.take(j as int)));
    }
    assert(second.take(second.len() as int) =~= second);
    proof {
        law_merged_patterns(first, second);
        assert(strings::texts(merged@).len() == merged@.len());
        assert forall|i: int| 0 <= i < explicit@.len() implies (#[trigger] merged@[i])@
            == explicit@[i]@ by {
            assert(strings::texts(merged@)[i] == first[i]);
        }
        assert forall|j: int| 0 <= j < extensions@.len() implies (#[trigger] merged@[explicit@.len()
            + j])@ == seq!['*', '*', '/', '*', '.'] + extensions@[j]@ by {
            assert(strings::texts(merged@)[first.len() + j] == seq!['*', '*', '/', '*', '.']
                + second[j]);
        }
    }
    merged
}

/// The first invalid pattern is reported, with its own error, wherever it stands
/// and whatever the patterns behind it are; none is silently skipped.
pub proof fn law_first_invalid_pattern_is_reported(
    result: Result<GlobSet, GlobError>,
    patterns: Seq<Seq<char>>,
    first: int,
)
    requires
        is_built_from(result, patterns),
        0 <= first < patterns.len(),
        all_valid(patterns.take(first)),
        !glob::glob_is_valid(patterns[first]),
    ensures
        !too_large(patterns),
        result matches Err(GlobError::InvalidPattern { index, source }) && index == first
            && source == glob::glob_error(patterns[first]),
{
    assert(!all_valid(patterns));
    let error = result->Err_0;
    if let GlobError::InvalidPattern { index, .. } = error {
        if index < first {
            assert(patterns.take(first)[index as int] == patterns[index as int]);
        } else if first < index {
            assert(patterns.take(index as int)[first] == patterns[first]);
        }
    }
}

/// What building a set of a list of patterns gives, pattern by pattern. It is a
/// set if and only if each pattern is valid and they compile together, and the
/// set has the paths that one of the patterns matches and no others. Otherwise
/// it is the error of a pattern that is not valid, with none such before it, or
/// that valid patterns do not compile.
pub proof fn law_built_set(result: Result<GlobSet, GlobError>, patterns: Seq<Seq<char>>)
    requires
        is_built_from(result, patterns),
    ensures
        result is Ok <==> (forall|i: int|
            0 <= i < patterns.len() ==> glob::glob_is_valid(#[trigger] patterns[i]))
            && glob::globset_compiles(patterns),
        match result {
            Ok(set) => forall|path: Seq<char>| #[trigger]
                glob::globset_paths(set).contains(path) <==> exists|i: int|
                    0 <= i < patterns.len() && glob::glob_matches(#[trigger] patterns[i], path),
            Err(GlobError::InvalidPattern { index, source }) => {
                &&& index < patterns.len()
                &&& !glob::glob_is_valid(patterns[index as int])
                &&& source == glob::glob_error(patterns[index as int])
                &&& forall|i: int| 0 <= i < index ==> glob::glob_is_valid(#[trigger] patterns[i])
            },
            Err(GlobError::InvalidSet { .. }) => {
                &&& forall|i: int|
                    0 <= i < patterns.len() ==> glob::glob_is_valid(#[trigger] patterns[i])
                &&& !glob::globset_compiles(patterns)
            },
        },
{
    if let Err(GlobError::InvalidPattern { index, .. }) = result {
        assert forall|i: int| 0 <= i < index implies glob::glob_is_valid(#[trigger] patterns[i]) by {
            assert(patterns.take(index as int)[i] == patterns[i]);
        }
    }
}

/// What the error of a filter says of the list at fault, and when a list can be
/// compiled: each pattern is valid, and they compile together.
pub proof fn law_list_at_fault(error: GlobError, patterns: Seq<Seq<char>>)
    ensures
        builds(patterns) <==> (forall|i: int|
            0 <= i < patterns.len() ==> glob::glob_is_valid(#[trigger] patterns[i]))
            && glob::globset_compiles(patterns),
        includes_build(patterns) <==> patterns.len() == 0 || (forall|i: int|
            0 <= i < patterns.len() ==> glob::glob_is_valid(#[trigger] patterns[i]))
            && glob::globset_compiles(patterns),
        too_large(patterns) <==> (forall|i: int|
            0 <= i < patterns.len() ==> glob::glob_is_valid(#[trigger] patterns[i]))
            && !limits::within_limits(patterns),
        error.explains(patterns) ==> match error {
            GlobError::InvalidPattern { index, source } => {
                &&& index < patterns.len()
                &&& !glob::glob_is_valid(patterns[index as int])
                &&& source == glob::glob_error(patterns[index as int])
                &&& forall|i: int| 0 <= i < index ==> glob::glob_is_valid(#[trigger] patterns[i])
            },
            GlobError::InvalidSet { .. } => {
                &&& forall|i: int|
                    0 <= i < patterns.len() ==> glob::glob_is_valid(#[trigger] patterns[i])
                &&& !glob::globset_compiles(patterns)
            },
        },
{
    if error.explains(patterns) {
        if let GlobError::InvalidPattern { index, .. } = error {
            assert forall|i: int| 0 <= i < index implies glob::glob_is_valid(
                #[trigger] patterns[i],
            ) by {
                assert(patterns.take(index as int)[i] == patterns[i]);
            }
        }
    }
}

/// The paths of a list of patterns are those that one of them matches.
pub proof fn law_matched_paths(patterns: Seq<Seq<char>>, path: Seq<char>)
    ensures
        glob::matched_by(patterns).contains(path) <==> exists|i: int|
            0 <= i < patterns.len() && glob::glob_matches(#[trigger] patterns[i], path),
{
}

/// The merged include patterns one by one: first the explicit ones as they are,
/// and then for each extension, in order, `**/*.` with the extension behind it.
pub proof fn law_merged_patterns(explicit: Seq<Seq<char>>, extensions: Seq<Seq<char>>)
    ensures
        merged_includes(explicit, extensions).len() == explicit.len() + extensions.len(),
        forall|i: int|
            0 <= i < explicit.len() ==> #[trigger] merged_includes(explicit, extensions)[i]
                == explicit[i],
        forall|j: int|
            0 <= j < extensions.len() ==> #[trigger] merged_includes(
                explicit,
                extensions,
            )[explicit.len() + j] == seq!['*', '*', '/', '*', '.'] + extensions[j],
{
    reveal_strlit("**/*.");
    assert("**/*."@ =~= seq!['*', '*', '/', '*', '.']);
}

/// Exclusions take priority: a file that matches an exclude pattern, by its
/// path or its name, is rejected whatever the include patterns are.
pub proof fn law_exclusion_has_priority(filter: FilterView, rel: Seq<char>, name: Seq<char>)
    requires
        file_matches(filter.excludes, rel, name),
    ensures
        !filter.allows(rel, name),
{
}

/// Both names of a file count, whatever the other one is: a file is left out if
/// the exclude set has its path, and if it has its bare name; and otherwise,
/// where there is an include set, it is let through if that has its path, if it
/// has its bare name, and in no other case.
pub proof fn law_path_and_name_both_count(filter: FilterView, rel: Seq<char>, name: Seq<char>)
    ensures
        filter.excludes.contains(rel) ==> !filter.allows(rel, name),
        filter.excludes.contains(name) ==> !filter.allows(rel, name),
        !filter.excludes.contains(rel) && !filter.excludes.contains(name) ==> match filter.includes {
            Some(paths) => filter.allows(rel, name) <==> paths.contains(rel) || paths.contains(name),
            None => filter.allows(rel, name),
        },
{
}

/// Without an include list, exactly the files that are not excluded pass; and
/// with nothing to exclude either, every file does.
pub proof fn law_no_includes(filter: FilterView, rel: Seq<char>, name: Seq<char>)
    requires
        filter.includes is None,
    ensures
        filter.allows(rel, name) <==> !file_matches(filter.excludes, rel, name),
        filter.excludes == Set::<Seq<char>>::empty() ==> filter.allows(rel, name),
{
}

/// A set without patterns matches nothing.
pub proof fn law_empty_set_matches_nothing()
    ensures
        glob::matched_by(Seq::empty()) == Set::<Seq<char>>::empty(),
{
    assert(glob::matched_by(Seq::empty()) =~= Set::<Seq<char>>::empty());
}

/// Several patterns act as their union: a list matches what either part of it
/// matches.
pub proof fn law_patterns_are_a_union(a: Seq<Seq<char>>, b: Seq<Seq<char>>)
    ensures
        glob::matched_by(a + b) == glob::matched_by(a).union(glob::matched_by(b)),
{
    assert forall|path: Seq<char>|
        glob::any_matches(a + b, path) <==> glob::any_matches(a, path) || glob::any_matches(
            b,
            path,
        ) by {
        if glob::any_matches(a, path) {
            let i = choose|i: int| 0 <= i < a.len() && glob::glob_matches(#[trigger] a[i], path);
            assert((a + b)[i] == a[i]);
        }
        if glob::any_matches(b, path) {
            let i = choose|i: int| 0 <= i < b.len() && glob::glob_matches(#[trigger] b[i], path);
            assert((a + b)[a.len() + i] == b[i]);
        }
    }
    assert(glob::matched_by(a + b) =~= glob::matched_by(a).union(glob::matched_by(b)));
}

/// Another include pattern never hides a file, and another exclude pattern
/// never shows one.
pub proof fn law_filters_are_monotonic(
    includes: Seq<Seq<char>>,
    excludes: Seq<Seq<char>>,
    pattern: Seq<char>,
    rel: Seq<char>,
    name: Seq<char>,
)
    ensures
        ({
            let shown = Some(glob::matched_by(includes));
            let hidden = glob::matched_by(excludes);
            let filter = FilterView { includes: shown, excludes: hidden };
            let wider = FilterView {
                includes: Some(glob::matched_by(includes.push(pattern))),
                excludes: hidden,
            };
            let stricter = FilterView {
                includes: shown,
                excludes: glob::matched_by(excludes.push(pattern)),
            };
            &&& filter.allows(rel, name) ==> wider.allows(rel, name)
            &&& stricter.allows(rel, name) ==> filter.allows(rel, name)
        }),
{
    assert(includes.push(pattern) =~= includes + seq![pattern]);
    assert(excludes.push(pattern) =~= excludes + seq![pattern]);
    law_patterns_are_a_union(includes, seq![pattern]);
    law_patterns_are_a_union(excludes, seq![pattern]);
}

/// Extensions stack with explicit include patterns: the merged list matches
/// what the explicit patterns match and what the patterns `**/*.EXT` of the
/// extensions match.
pub proof fn law_extensions_are_shorthand(explicit: Seq<Seq<char>>, extensions: Seq<Seq<char>>)
    ensures
        glob::matched_by(merged_includes(explicit, extensions)) == glob::matched_by(
            explicit,
        ).union(
            glob::matched_by(extensions.map_values(|ext: Seq<char>| extension_pattern(ext))),
        ),
{
    law_patterns_are_a_union(
        explicit,
        extensions.map_values(|ext: Seq<char>| extension_pattern(ext)),
    );
}

proof fn lemma_extension_pattern(ext: Seq<char>)
    requires
        glob::is_plain_extension(ext),
    ensures
        glob::is_extension_glob(extension_pattern(ext), ext),
{
    reveal_strlit("**/*.");
    assert("**/*."@ =~= seq!['*', '*', '/', '*', '.']);
}

/// The include patterns of plain extensions are globs of plain extensions, of
/// which a filter can always be built.
pub proof fn law_extension_patterns_build(extensions: Seq<Seq<char>>)
    requires
        forall|i: int|
            0 <= i < extensions.len() ==> glob::is_plain_extension(#[trigger] extensions[i]),
    ensures
        glob::all_extension_globs(merged_includes(Seq::empty(), extensions)),
        forall|i: int|
            0 <= i < extensions.len() ==> glob::is_extension_glob(
                #[trigger] merged_includes(Seq::empty(), extensions)[i],
                extensions[i],
            ),
{
    let patterns = merged_includes(Seq::empty(), extensions);
    assert forall|i: int| 0 <= i < patterns.len() implies {
        &&& glob::is_some_extension_glob(#[trigger] patterns[i])
        &&& glob::is_extension_glob(patterns[i], extensions[i])
    } by {
        assert(glob::is_plain_extension(extensions[i]));
        lemma_extension_pattern(extensions[i]);
        assert(patterns[i] == extension_pattern(extensions[i]));
    }
}

/// Extensions select by extension: where only plain extensions are asked for,
/// the include patterns match exactly the paths that end in `.` and one of the
/// extensions.
pub proof fn law_extensions_select_by_extension(
    extensions: Seq<Seq<char>>,
    paths: Set<Seq<char>>,
    path: Seq<char>,
)
    requires
        forall|i: int|
            0 <= i < extensions.len() ==> glob::is_plain_extension(#[trigger] extensions[i]),
        glob::respects_extensions(paths, merged_includes(Seq::empty(), extensions)),
    ensures
        paths.contains(path) <==> exists|i: int|
            0 <= i < extensions.len() && glob::ends_in_extension(path, #[trigger] extensions[i]),
{
    let patterns = merged_includes(Seq::empty(), extensions);
    law_extension_patterns_build(extensions);
    if exists|i: int|
        0 <= i < extensions.len() && glob::ends_in_extension(path, #[trigger] extensions[i]) {
        let i = choose|i: int|
            0 <= i < extensions.len() && glob::ends_in_extension(path, #[trigger] extensions[i]);
        assert(glob::extension_accepts(patterns[i], path));
        assert(glob::any_extension_accepts(patterns, path));
    } else {
        assert forall|i: int| 0 <= i < patterns.len() implies glob::extension_rejects(
            #[trigger] patterns[i],
            path,
        ) by {
            assert(!glob::ends_in_extension(path, extensions[i]));
        }
    }
}

} // verus!
