use pdir::{OutputFormat, PrintOptions, Session};

fn session(format: OutputFormat, separator: bool) -> Session<'static> {
    let opts =
        PrintOptions { header_prefix: "--- ", header_suffix: " ---", format, line_numbers: false };
    Session::new(opts, separator)
}

fn run(format: OutputFormat, separator: bool, files: &[(&str, &[u8])]) -> String {
    let mut out = String::new();
    let mut session = session(format, separator);
    session.open(&mut out);
    for (rel, bytes) in files {
        let read: Result<Vec<u8>, ()> = Ok(bytes.to_vec());
        session.print_entry(&mut out, read, rel).unwrap();
    }
    session.close(&mut out);
    out
}

#[test]
fn plain_run() {
    let files: [(&str, &[u8]); 2] = [("Cargo.toml", b"[package]\n"), ("a.rs", b"fn a() {}")];
    assert_eq!(
        run(OutputFormat::Plain, false, &files),
        "--- Cargo.toml ---\n[package]\n\n--- a.rs ---\nfn a() {}\n\n"
    );
    assert_eq!(run(OutputFormat::Plain, false, &[]), "");
}

#[test]
fn plain_run_with_separator() {
    let files: [(&str, &[u8]); 3] = [("a", b"1"), ("b", b"2"), ("c", b"3")];
    assert_eq!(
        run(OutputFormat::Plain, true, &files),
        "--- a ---\n1\n\n\n--- b ---\n2\n\n\n--- c ---\n3\n\n"
    );
}

#[test]
fn separator_in_front_of_a_skipped_file() {
    let files: [(&str, &[u8]); 4] = [("x", b"\xff"), ("a", b"1"), ("y", b"\xff"), ("b", b"2")];
    assert_eq!(
        run(OutputFormat::Plain, true, &files),
        "--- a ---\n1\n\n\n\n--- b ---\n2\n\n"
    );
}

#[test]
fn markdown_run_has_no_blank_lines() {
    let files: [(&str, &[u8]); 2] = [("a.rs", b"1"), ("b", b"2")];
    assert_eq!(
        run(OutputFormat::Markdown, true, &files),
        "## a.rs\n```rust\n1\n```\n## b\n```\n2\n```\n"
    );
}

#[test]
fn cxml_run_is_wrapped_and_indexed() {
    let files: [(&str, &[u8]); 3] = [("a", b"1"), ("bin", b"\xff\xfe"), ("b", b"2")];
    assert_eq!(
        run(OutputFormat::Cxml, true, &files),
        "<documents>\n\
         <document index=\"1\">\n<source>a</source>\n<document_content>\n1\n</document_content>\n</document>\n\
         <document index=\"2\">\n<source>b</source>\n<document_content>\n2\n</document_content>\n</document>\n\
         </documents>\n"
    );
    assert_eq!(run(OutputFormat::Cxml, false, &[]), "<documents>\n</documents>\n");
}

#[test]
fn skipped_files_leave_no_trace() {
    let all: [(&str, &[u8]); 3] = [("bin", b"\xc0"), ("a.py", b"1\n"), ("c", b"\x80")];
    let text: [(&str, &[u8]); 1] = [("a.py", b"1\n")];
    for format in [OutputFormat::Plain, OutputFormat::Markdown, OutputFormat::Cxml] {
        assert_eq!(run(format, false, &all), run(format, false, &text));
    }
}

#[test]
fn indices_count_printed_files() {
    let mut out = String::new();
    let mut session = session(OutputFormat::Cxml, false);
    assert_eq!(session.doc_index(), 1);
    assert_eq!(session.print_entry(&mut out, Ok::<Vec<u8>, ()>(b"a".to_vec()), "a"), Ok(true));
    assert_eq!(session.doc_index(), 2);
    assert_eq!(session.print_entry(&mut out, Ok::<Vec<u8>, ()>(b"\xff".to_vec()), "b"), Ok(false));
    assert_eq!(session.doc_index(), 2);
}

#[test]
fn failed_read_ends_an_entry_behind_its_separator() {
    let mut out = String::new();
    let mut session = session(OutputFormat::Plain, true);
    assert_eq!(session.print_entry(&mut out, Err::<Vec<u8>, u8>(1), "a"), Err(1));
    assert_eq!(out, "");
    assert_eq!(session.print_entry(&mut out, Ok::<Vec<u8>, u8>(b"x".to_vec()), "b"), Ok(true));
    assert_eq!(session.print_entry(&mut out, Err::<Vec<u8>, u8>(2), "c"), Err(2));
    assert_eq!(out, "--- b ---\nx\n\n\n");
    assert_eq!(session.doc_index(), 2);
}

#[test]
fn separators_over_files_of_any_kind() {
    let kinds: [&[u8]; 2] = [b"t", b"\xff"];
    for pick in 0..16 {
        let files: Vec<(&str, &[u8])> = (0..4).map(|i| ("f", kinds[(pick >> i) & 1])).collect();
        let mut expected = String::new();
        let mut printed = 0;
        for (_, bytes) in &files {
            if printed > 0 {
                expected.push('\n');
            }
            if *bytes == b"t" {
                expected.push_str("--- f ---\nt\n\n");
                printed += 1;
            }
        }
        assert_eq!(run(OutputFormat::Plain, true, &files), expected);
    }
}
