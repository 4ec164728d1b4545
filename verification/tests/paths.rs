use pdir::path::to_forward_slashes;
use pdir::{bare_name, listed_paths, normalize_path};

#[test]
fn normalize_path_unix_unchanged() {
    let p = "src/main.rs".as_bytes();
    assert_eq!(normalize_path(p), "src/main.rs");
}

#[test]
fn normalize_path_converts_backslashes() {
    let p = "src\\lib\\util.rs".as_bytes();
    assert_eq!(normalize_path(p), "src/lib/util.rs");
}

#[test]
fn normalize_path_is_idempotent() {
    let once = normalize_path(b"a\\b/c\\");
    assert_eq!(once, "a/b/c/");
    assert_eq!(normalize_path(once.as_bytes()), once);
}

#[test]
fn normalize_path_decodes_lossily() {
    assert_eq!(normalize_path(b"a\\\xff.rs"), "a/\u{FFFD}.rs");
    assert_eq!(normalize_path("d\u{e9}j\u{e0}\\vu".as_bytes()), "d\u{e9}j\u{e0}/vu");
    assert_eq!(normalize_path(b""), "");
}

#[test]
fn forward_slashes_keep_other_characters() {
    assert_eq!(to_forward_slashes("\\a\u{1F600}\\\n"), "/a\u{1F600}/\n");
}

#[test]
fn listing_by_lines() {
    assert_eq!(listed_paths("a\nb c\r\n\n\nd", false), vec!["a", "b c", "d"]);
    assert_eq!(listed_paths("a\n", false), vec!["a"]);
    assert!(listed_paths("", false).is_empty());
    assert!(listed_paths("\n\n\r\n", false).is_empty());
    // A carriage return that ends no line is part of the name, and so is NUL.
    assert_eq!(listed_paths("a\0b\nc\r", false), vec!["a\0b", "c\r"]);
}

#[test]
fn listing_by_nul() {
    assert_eq!(listed_paths("a\0b\nc\0\0", true), vec!["a", "b\nc"]);
    assert_eq!(listed_paths("a", true), vec!["a"]);
    assert!(listed_paths("", true).is_empty());
    assert!(listed_paths("\0\0", true).is_empty());
}

#[test]
fn listings_round_trip() {
    let names = vec!["src", "a b.txt", "x/y\tz"];
    let by_nul: String = names.iter().map(|n| format!("{n}\0")).collect();
    let by_line: String = names.iter().map(|n| format!("{n}\n")).collect();
    assert_eq!(listed_paths(&by_nul, true), names);
    assert_eq!(listed_paths(&by_line, false), names);
}

#[test]
fn bare_names() {
    assert_eq!(bare_name(Some("main.rs")), "main.rs");
    assert_eq!(bare_name(None), "");
}
