use pdir::render::{path_to_language, print_text};
use pdir::{ext_to_language, print_file, select_format, OutputFormat, PrintOptions};

fn options(format: OutputFormat, line_numbers: bool) -> PrintOptions<'static> {
    PrintOptions { header_prefix: "--- ", header_suffix: " ---", format, line_numbers }
}

fn render(format: OutputFormat, line_numbers: bool, bytes: &[u8], rel: &str, index: usize) -> String {
    let mut out = String::new();
    let read: Result<Vec<u8>, ()> = Ok(bytes.to_vec());
    assert_eq!(print_file(&mut out, read, rel, &options(format, line_numbers), index), Ok(true));
    out
}

#[test]
fn known_extensions_map_correctly() {
    assert_eq!(ext_to_language("rs"), "rust");
    assert_eq!(ext_to_language("py"), "python");
    assert_eq!(ext_to_language("ts"), "typescript");
    assert_eq!(ext_to_language("toml"), "toml");
}

#[test]
fn unknown_extension_returns_empty() {
    assert_eq!(ext_to_language("xyz"), "");
    assert_eq!(ext_to_language(""), "");
}

#[test]
fn every_extension_has_its_tag() {
    let table = [
        ("rust", "rs"),
        ("python", "py pyw"),
        ("javascript", "js mjs cjs"),
        ("typescript", "ts mts cts"),
        ("jsx", "jsx"),
        ("tsx", "tsx"),
        ("html", "html htm"),
        ("css", "css"),
        ("scss", "scss sass"),
        ("toml", "toml"),
        ("json", "json jsonc"),
        ("yaml", "yaml yml"),
        ("xml", "xml"),
        ("markdown", "md mdx markdown"),
        ("bash", "sh bash zsh ksh"),
        ("fish", "fish"),
        ("powershell", "ps1"),
        ("c", "c"),
        ("cpp", "cpp cc cxx h hpp hxx"),
        ("go", "go"),
        ("java", "java"),
        ("ruby", "rb"),
        ("php", "php"),
        ("swift", "swift"),
        ("kotlin", "kt kts"),
        ("csharp", "cs"),
        ("lua", "lua"),
        ("r", "r"),
        ("sql", "sql"),
        ("svelte", "svelte"),
        ("vue", "vue"),
        ("elixir", "ex exs"),
        ("haskell", "hs lhs"),
        ("nix", "nix"),
        ("hcl", "tf tfvars"),
        ("protobuf", "proto"),
        ("graphql", "graphql gql"),
    ];
    for (tag, extensions) in table {
        for ext in extensions.split(' ') {
            assert_eq!(ext_to_language(ext), tag);
            assert_eq!(ext_to_language(&ext.to_uppercase()), "");
        }
    }
}

#[test]
fn language_of_a_path() {
    assert_eq!(path_to_language("src/main.rs"), "rust");
    assert_eq!(path_to_language("A.b/MAIN.RS"), "rust");
    assert_eq!(path_to_language("archive.tar.Py"), "python");
    // U+212A KELVIN SIGN is lowercased to `k`.
    assert_eq!(path_to_language("a.\u{212a}T"), "kotlin");
    assert_eq!(path_to_language("Makefile"), "");
    assert_eq!(path_to_language(".rs"), "");
    assert_eq!(path_to_language("dir.rs/file"), "");
    assert_eq!(path_to_language("file."), "");
    assert_eq!(path_to_language(""), "");
    assert_eq!(path_to_language(".."), "");
    assert_eq!(path_to_language("a/.hidden.rs"), "rust");
    assert_eq!(path_to_language("/abs/main.rs"), "rust");
}

#[test]
fn format_selection() {
    assert_eq!(select_format(false, false), OutputFormat::Plain);
    assert_eq!(select_format(true, false), OutputFormat::Markdown);
    assert_eq!(select_format(false, true), OutputFormat::Cxml);
    assert_eq!(select_format(true, true), OutputFormat::Markdown);
    assert_eq!(OutputFormat::default(), OutputFormat::Plain);
}

#[test]
fn plain_file() {
    assert_eq!(
        render(OutputFormat::Plain, false, b"fn main() {}\n", "src/main.rs", 1),
        "--- src/main.rs ---\nfn main() {}\n"
    );
    assert_eq!(render(OutputFormat::Plain, false, b"x", "a", 1), "--- a ---\nx\n");
    assert_eq!(render(OutputFormat::Plain, false, b"", "a", 1), "--- a ---\n\n");
}

#[test]
fn plain_file_with_line_numbers() {
    assert_eq!(render(OutputFormat::Plain, true, b"a\nb", "f", 1), "--- f ---\n1\ta\n2\tb\n");
    assert_eq!(render(OutputFormat::Plain, true, b"", "f", 1), "--- f ---\n1\t\n");
}

#[test]
fn markdown_file() {
    assert_eq!(
        render(OutputFormat::Markdown, false, b"fn main() {}", "src/main.RS", 1),
        "## src/main.RS\n```rust\nfn main() {}\n```\n"
    );
    assert_eq!(render(OutputFormat::Markdown, true, b"x\n", "LICENSE", 1), "## LICENSE\n```\n1\tx\n```\n");
}

#[test]
fn cxml_file() {
    assert_eq!(
        render(OutputFormat::Cxml, false, b"a < b\n", "m.rs", 12),
        "<document index=\"12\">\n<source>m.rs</source>\n<document_content>\na < b\n</document_content>\n</document>\n"
    );
}

#[test]
fn output_is_appended() {
    let mut out = "before\n".to_string();
    let read: Result<Vec<u8>, ()> = Ok(b"x".to_vec());
    assert_eq!(print_file(&mut out, read, "a", &options(OutputFormat::Plain, false), 1), Ok(true));
    assert_eq!(out, "before\n--- a ---\nx\n");
}

#[test]
fn binary_file_is_not_printed() {
    let mut out = "before".to_string();
    let read: Result<Vec<u8>, ()> = Ok(b"\xff\xfe\x00\x01".to_vec());
    assert_eq!(print_file(&mut out, read, "a", &options(OutputFormat::Cxml, false), 1), Ok(false));
    assert_eq!(out, "before");
}

#[test]
fn failed_read_prints_nothing() {
    let mut out = "before".to_string();
    let read: Result<Vec<u8>, String> = Err("gone".to_string());
    let result = print_file(&mut out, read, "a", &options(OutputFormat::Plain, false), 1);
    assert_eq!(result, Err("gone".to_string()));
    assert_eq!(out, "before");
}

#[test]
fn options_apply_to_their_format() {
    for format in [OutputFormat::Plain, OutputFormat::Markdown] {
        assert_eq!(render(format, false, b"x", "a.c", 1), render(format, false, b"x", "a.c", 99));
    }
    for format in [OutputFormat::Markdown, OutputFormat::Cxml] {
        let mut out = String::new();
        let opts = PrintOptions { header_prefix: "#", header_suffix: "", format, line_numbers: false };
        let read: Result<Vec<u8>, ()> = Ok(b"x".to_vec());
        assert_eq!(print_file(&mut out, read, "a.c", &opts, 3), Ok(true));
        assert_eq!(out, render(format, false, b"x", "a.c", 3));
    }
}

#[test]
fn given_language_tag_is_shown() {
    let mut out = String::new();
    let opts = options(OutputFormat::Markdown, false);
    print_text(&mut out, "x".to_string(), "a", "lang", &opts, 1);
    assert_eq!(out, "## a\n```lang\nx\n```\n");
}

#[test]
fn documents_end_in_a_line_feed() {
    for format in [OutputFormat::Plain, OutputFormat::Markdown, OutputFormat::Cxml] {
        for text in ["", "a", "a\n", "a\r", "\n\n"] {
            for numbers in [false, true] {
                assert!(render(format, numbers, text.as_bytes(), "f.rs", 1).ends_with('\n'));
            }
        }
    }
}
