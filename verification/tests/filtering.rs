use globset::{Glob, GlobSet, GlobSetBuilder};
use pdir::filter::admits;
use pdir::limits::is_extension_pattern;
use pdir::{
    build_globset, fits_limits, include_patterns, try_build_globset, FilterError, GlobError,
    GlobSetFilter,
};

fn strings(items: &[&str]) -> Vec<String> {
    items.iter().map(|s| s.to_string()).collect()
}

fn globset(patterns: &[&str]) -> GlobSet {
    build_globset(&strings(patterns)).expect("valid glob pattern")
}

fn filter(includes: &[&str], excludes: &[&str]) -> GlobSetFilter {
    let inc = if includes.is_empty() { None } else { Some(globset(includes)) };
    GlobSetFilter::new(inc, globset(excludes))
}

#[test]
fn no_includes_no_excludes_allows_everything() {
    let f = filter(&[], &[]);
    assert!(f.allows("src/main.rs", "main.rs"));
    assert!(f.allows("Cargo.toml", "Cargo.toml"));
}

#[test]
fn exclude_by_rel_path() {
    let f = filter(&[], &["**/target/**"]);
    assert!(!f.allows("target/release/pdir", "pdir"));
    assert!(f.allows("src/main.rs", "main.rs"));
}

#[test]
fn exclude_by_filename() {
    let f = filter(&[], &["*.lock"]);
    assert!(!f.allows("Cargo.lock", "Cargo.lock"));
    assert!(f.allows("Cargo.toml", "Cargo.toml"));
}

#[test]
fn include_filters_to_matching_files() {
    let f = filter(&["**/*.rs"], &[]);
    assert!(f.allows("src/main.rs", "main.rs"));
    assert!(!f.allows("Cargo.toml", "Cargo.toml"));
}

#[test]
fn include_matches_by_filename_without_path() {
    let f = filter(&["*.toml"], &[]);
    assert!(f.allows("Cargo.toml", "Cargo.toml"));
    assert!(!f.allows("src/main.rs", "main.rs"));
}

#[test]
fn exclude_takes_priority_over_include() {
    let f = filter(&["**/*.rs"], &["**/generated/**"]);
    assert!(!f.allows("src/generated/bindings.rs", "bindings.rs"));
}

#[test]
fn multiple_includes_act_as_union() {
    let f = filter(&["**/*.rs", "**/*.toml"], &[]);
    assert!(f.allows("src/main.rs", "main.rs"));
    assert!(f.allows("Cargo.toml", "Cargo.toml"));
    assert!(!f.allows("README.md", "README.md"));
}

#[test]
fn build_globset_invalid_pattern_errors() {
    let result = build_globset(&["[invalid".to_string()]);
    assert!(result.is_err());
}

#[test]
fn build_globset_empty_matches_nothing() {
    let gs = build_globset(&[]).unwrap();
    assert!(!gs.is_match("anything.rs"));
}

#[test]
fn build_globset_reports_first_invalid_pattern() {
    let result = build_globset(&strings(&["*.rs", "[a", "{b"]));
    match result {
        Err(GlobError::InvalidPattern { index, source }) => {
            assert_eq!(index, 1);
            assert_eq!(source.glob(), Some("[a"));
            assert_eq!(source, Glob::new("[a").unwrap_err());
        }
        _ => panic!("expected an invalid pattern"),
    }
}

#[test]
fn build_globset_set_that_does_not_compile() {
    // Each pattern is a valid glob, but its regex is past the compiler's limit.
    let mut pattern = String::new();
    for _ in 0..300 {
        pattern.push('{');
    }
    pattern.push_str("a*b");
    for _ in 0..300 {
        pattern.push('}');
    }
    let mut builder = GlobSetBuilder::new();
    builder.add(Glob::new(&pattern).unwrap());
    match build_globset(&[pattern]) {
        Err(GlobError::InvalidSet { source }) => {
            assert_eq!(source, builder.build().unwrap_err());
        }
        _ => panic!("expected a set that does not compile"),
    }
}

#[test]
fn set_keeps_every_pattern() {
    let gs = globset(&["a.txt", "**/b.txt", "*.c", "d*", "*e", "f?.g", "[hi]"]);
    assert_eq!(gs.len(), 7);
    for path in ["a.txt", "x/b.txt", "y.c", "dd", "ee", "f1.g", "h", "i"] {
        assert!(gs.is_match(path));
    }
    assert!(!gs.is_match("x/a.txt"));
}

#[test]
fn matches_by_path_or_by_name() {
    // Only the bare name matches a pattern without a directory part ...
    assert!(filter(&["main.rs"], &[]).allows("src/main.rs", "main.rs"));
    // ... and only the path matches one with a directory part.
    assert!(filter(&["src/main.rs"], &[]).allows("src/main.rs", "main.rs"));
    assert!(!filter(&[], &["main.rs"]).allows("src/main.rs", "main.rs"));
    assert!(!filter(&[], &["src/main.rs"]).allows("src/main.rs", "main.rs"));
}

#[test]
fn more_includes_show_more_and_more_excludes_show_less() {
    let files = ["src/main.rs", "Cargo.toml", "README.md"];
    for file in files {
        if filter(&["*.rs"], &[]).allows(file, file) {
            assert!(filter(&["*.rs", "*.md"], &[]).allows(file, file));
        }
        if filter(&["*.rs", "*.md"], &["*.md", "*.toml"]).allows(file, file) {
            assert!(filter(&["*.rs", "*.md"], &["*.md"]).allows(file, file));
        }
    }
    assert!(filter(&["*.rs", "*.md"], &[]).allows("README.md", "README.md"));
}

#[test]
fn decision_table() {
    assert!(admits(false, None));
    assert!(admits(false, Some(true)));
    assert!(!admits(false, Some(false)));
    assert!(!admits(true, None));
    assert!(!admits(true, Some(true)));
    assert!(!admits(true, Some(false)));
}

#[test]
fn extensions_are_merged_behind_patterns() {
    let merged = include_patterns(&strings(&["src/**"]), &strings(&["rs", "toml"]));
    assert_eq!(merged, strings(&["src/**", "**/*.rs", "**/*.toml"]));
    assert!(include_patterns(&[], &[]).is_empty());
}

#[test]
fn extension_is_shorthand_for_pattern() {
    let merged = include_patterns(&[], &strings(&["rs"]));
    let short = GlobSetFilter::from_patterns(&merged, &[]).unwrap().unwrap();
    let pattern = strings(&["**/*.rs"]);
    let long = GlobSetFilter::from_patterns(&pattern, &[]).unwrap().unwrap();
    for file in ["main.rs", "src/main.rs", "rs", "a.rs.txt", "Cargo.toml"] {
        assert_eq!(short.allows(file, file), long.allows(file, file));
    }
    assert!(short.allows("src/main.rs", "main.rs"));
    assert!(!short.allows("Cargo.toml", "Cargo.toml"));
}

#[test]
fn filter_without_includes_allows_what_is_not_excluded() {
    let lock = strings(&["*.lock"]);
    let f = GlobSetFilter::from_patterns(&[], &lock).unwrap().unwrap();
    assert!(f.allows("Cargo.toml", "Cargo.toml"));
    assert!(!f.allows("Cargo.lock", "Cargo.lock"));
}

#[test]
fn filter_reports_the_list_at_fault() {
    let bad = strings(&["a", "[b"]);
    let good = strings(&["a"]);
    assert!(matches!(
        GlobSetFilter::from_patterns(&bad, &bad),
        Some(Err(FilterError::Includes(GlobError::InvalidPattern { index: 1, .. })))
    ));
    assert!(matches!(
        GlobSetFilter::from_patterns(&good, &bad),
        Some(Err(FilterError::Excludes(GlobError::InvalidPattern { index: 1, .. })))
    ));
    assert!(matches!(
        GlobSetFilter::from_patterns(&[], &bad),
        Some(Err(FilterError::Excludes(GlobError::InvalidPattern { index: 1, .. })))
    ));
}

#[test]
fn invalid_pattern_error_is_that_of_the_first_one() {
    for bad in ["[a", "{b", "c}", "[z-y]", "d\\"] {
        for patterns in [vec![bad], vec!["*.rs", bad], vec!["x", "**/y", bad, "[", "{"]] {
            let position = patterns.iter().position(|p| *p == bad).unwrap();
            match build_globset(&strings(&patterns)) {
                Err(GlobError::InvalidPattern { index, source }) => {
                    assert_eq!(index, position);
                    assert_eq!(source, Glob::new(bad).unwrap_err());
                }
                _ => panic!("expected an invalid pattern"),
            }
        }
    }
}

/// Valid patterns that are past the limits as a list.
fn too_many() -> Vec<String> {
    (0..60000).map(|_| "a*".to_string()).collect()
}

#[test]
fn invalid_pattern_is_reported_past_the_limits_too() {
    for (position, bad) in [(0, "[a"), (30000, "{b"), (59999, "c}")] {
        let mut many = too_many();
        many[position] = bad.to_string();
        assert!(!fits_limits(&many));
        let results = [Some(build_globset(&many)), try_build_globset(&many)];
        for result in results {
            match result {
                Some(Err(GlobError::InvalidPattern { index, source })) => {
                    assert_eq!(index, position);
                    assert_eq!(source, Glob::new(bad).unwrap_err());
                }
                _ => panic!("expected an invalid pattern"),
            }
        }
        assert!(matches!(
            GlobSetFilter::from_patterns(&many, &too_many()),
            Some(Err(FilterError::Includes(GlobError::InvalidPattern { .. })))
        ));
        assert!(matches!(
            GlobSetFilter::from_patterns(&strings(&["a"]), &many),
            Some(Err(FilterError::Excludes(GlobError::InvalidPattern { .. })))
        ));
    }
}

#[test]
fn list_that_is_too_large_is_left_alone() {
    assert!(try_build_globset(&too_many()).is_none());
    assert!(GlobSetFilter::from_patterns(&too_many(), &[]).is_none());
    assert!(GlobSetFilter::from_patterns(&[], &too_many()).is_none());
    assert!(GlobSetFilter::from_patterns(&strings(&["a"]), &too_many()).is_none());
    let set = try_build_globset(&strings(&["a*"])).unwrap().unwrap();
    assert!(set.is_match("ab"));
    assert!(!set.is_match("b"));
}

#[test]
fn limits_count_each_pattern_and_its_bytes() {
    let at_most: Vec<String> = (0..26584).map(|_| "a*".to_string()).collect();
    assert!(fits_limits(&at_most));
    let one_more: Vec<String> = (0..26585).map(|_| "a*".to_string()).collect();
    assert!(!fits_limits(&one_more));
}

#[test]
fn empty_patterns_match_the_empty_path() {
    let set = globset(&["", ""]);
    assert!(set.is_match(""));
    assert!(!set.is_match("a"));
}

#[test]
fn limits_admit_ordinary_lists_and_refuse_huge_ones() {
    assert!(fits_limits(&[]));
    assert!(fits_limits(&strings(&["**/*.rs", "**/target/**"])));
    let long = "a".repeat(1 << 20);
    assert!(fits_limits(&[long.clone()]));
    let many: Vec<String> = (0..64).map(|_| long.clone()).collect();
    assert!(!fits_limits(&many));
}

#[test]
fn limits_admit_many_distinct_patterns() {
    let many: Vec<String> = (0..15000).map(|i| format!("dir{i:012}/**")).collect();
    assert!(fits_limits(&many));
    let gs = build_globset(&many).unwrap();
    assert!(gs.is_match("dir000000014999/x"));
    assert!(!gs.is_match("dir000000015000/x"));
}

#[test]
fn limits_admit_any_number_of_extensions() {
    let mut many: Vec<String> = (0..60000).map(|_| "*.rs".to_string()).collect();
    assert!(fits_limits(&many));
    // Many short repeated patterns beside a long one are another matter.
    many = (0..60000).map(|_| "a*".to_string()).collect();
    many.push(format!("{}*", "a".repeat(60000)));
    assert!(!fits_limits(&many));
}

#[test]
fn extension_patterns() {
    for pattern in ["*.rs", "**/*.rs", "*.c++", "**/*.\u{e9}"] {
        assert!(is_extension_pattern(pattern));
    }
    for pattern in ["", "*.", "**/*.", "*.tar.gz", "*.r?", "*.{a,b}", ".rs", "a*.rs", "**/.rs", "*/x"] {
        assert!(!is_extension_pattern(pattern));
    }
}

#[test]
fn extension_globs_match_by_the_end_of_the_path() {
    let paths = [
        "a.rs", "src/a.rs", ".rs", "x/.rs", "a.b.rs", "rs", "ars", "a.rs/b", "a.RS", "a.rs.bak", "",
        "..", "a.", "a.rst",
    ];
    for pattern in ["*.rs", "**/*.rs"] {
        let gs = globset(&[pattern]);
        for path in paths {
            assert_eq!(gs.is_match(path), path.ends_with(".rs"));
        }
    }
    let gs = globset(&["*.rs", "**/*.c++", "*.\u{e9}-1!"]);
    for path in ["x.c++", "d/x.\u{e9}-1!", "x.c", "x.\u{e9}", "b.rs"] {
        let expected = path.ends_with(".rs") || path.ends_with(".c++") || path.ends_with(".\u{e9}-1!");
        assert_eq!(gs.is_match(path), expected);
    }
}
