//! The language tag that labels a fenced code block.
use vstd::prelude::*;

use crate::strings::same_text;

verus! {

/// The language tag of a lowercase file extension; empty for an extension
/// that is not known.
pub open spec fn language(ext: Seq<char>) -> Seq<char> {
    if ext == "rs"@ {
        "rust"@
    } else if ext == "py"@ || ext == "pyw"@ {
        "python"@
    } else if ext == "js"@ || ext == "mjs"@ || ext == "cjs"@ {
        "javascript"@
    } else if ext == "ts"@ || ext == "mts"@ || ext == "cts"@ {
        "typescript"@
    } else if ext == "jsx"@ {
        "jsx"@
    } else if ext == "tsx"@ {
        "tsx"@
    } else if ext == "html"@ || ext == "htm"@ {
        "html"@
    } else if ext == "css"@ {
        "css"@
    } else if ext == "scss"@ || ext == "sass"@ {
        "scss"@
    } else if ext == "toml"@ {
        "toml"@
    } else if ext == "json"@ || ext == "jsonc"@ {
        "json"@
    } else if ext == "yaml"@ || ext == "yml"@ {
        "yaml"@
    } else if ext == "xml"@ {
        "xml"@
    } else if ext == "md"@ || ext == "mdx"@ || ext == "markdown"@ {
        "markdown"@
    } else if ext == "sh"@ || ext == "bash"@ || ext == "zsh"@ || ext == "ksh"@ {
        "bash"@
    } else if ext == "fish"@ {
        "fish"@
    } else if ext == "ps1"@ {
        "powershell"@
    } else if ext == "c"@ {
        "c"@
    } else if ext == "cpp"@
        || ext == "cc"@
        || ext == "cxx"@
        || ext == "h"@
        || ext == "hpp"@
        || ext == "hxx"@
    {
        "cpp"@
    } else if ext == "go"@ {
        "go"@
    } else if ext == "java"@ {
        "java"@
    } else if ext == "rb"@ {
        "ruby"@
    } else if ext == "php"@ {
        "php"@
    } else if ext == "swift"@ {
        "swift"@
    } else if ext == "kt"@ || ext == "kts"@ {
        "kotlin"@
    } else if ext == "cs"@ {
        "csharp"@
    } else if ext == "lua"@ {
        "lua"@
    } else if ext == "r"@ {
        "r"@
    } else if ext == "sql"@ {
        "sql"@
    } else if ext == "svelte"@ {
        "svelte"@
    } else if ext == "vue"@ {
        "vue"@
    } else if ext == "ex"@ || ext == "exs"@ {
        "elixir"@
    } else if ext == "hs"@ || ext == "lhs"@ {
        "haskell"@
    } else if ext == "nix"@ {
        "nix"@
    } else if ext == "tf"@ || ext == "tfvars"@ {
        "hcl"@
    } else if ext == "proto"@ {
        "protobuf"@
    } else if ext == "graphql"@ || ext == "gql"@ {
        "graphql"@
    } else {
        ""@
    }
}

/// Maps a lowercase file extension to a Markdown fenced-block language tag.
///
/// Returns an empty string for unrecognised extensions, producing an
/// unlabelled fence.
#[must_use]
pub fn ext_to_language(ext: &str) -> (tag: &'static str)
    ensures
        tag@ == language(ext@),
        ext@ == "rs"@ ==> tag@ == "rust"@,
        ext@ == "py"@ || ext@ == "pyw"@ ==> tag@ == "python"@,
        ext@ == "js"@ || ext@ == "mjs"@ || ext@ == "cjs"@ ==> tag@ == "javascript"@,
        ext@ == "ts"@ || ext@ == "mts"@ || ext@ == "cts"@ ==> tag@ == "typescript"@,
        ext@ == "jsx"@ ==> tag@ == "jsx"@,
        ext@ == "tsx"@ ==> tag@ == "tsx"@,
        ext@ == "html"@ || ext@ == "htm"@ ==> tag@ == "html"@,
        ext@ == "css"@ ==> tag@ == "css"@,
        ext@ == "scss"@ || ext@ == "sass"@ ==> tag@ == "scss"@,
        ext@ == "toml"@ ==> tag@ == "toml"@,
        ext@ == "json"@ || ext@ == "jsonc"@ ==> tag@ == "json"@,
        ext@ == "yaml"@ || ext@ == "yml"@ ==> tag@ == "yaml"@,
        ext@ == "xml"@ ==> tag@ == "xml"@,
        ext@ == "md"@ || ext@ == "mdx"@ || ext@ == "markdown"@ ==> tag@ == "markdown"@,
        ext@ == "sh"@ || ext@ == "bash"@
            || ext@ == "zsh"@ || ext@ == "ksh"@ ==> tag@ == "bash"@,
        ext@ == "fish"@ ==> tag@ == "fish"@,
        ext@ == "ps1"@ ==> tag@ == "powershell"@,
        ext@ == "c"@ ==> tag@ == "c"@,
        ext@ == "cpp"@ || ext@ == "cc"@ || ext@ == "cxx"@
            || ext@ == "h"@ || ext@ == "hpp"@ || ext@ == "hxx"@ ==> tag@ == "cpp"@,
        ext@ == "go"@ ==> tag@ == "go"@,
        ext@ == "java"@ ==> tag@ == "java"@,
        ext@ == "rb"@ ==> tag@ == "ruby"@,
        ext@ == "php"@ ==> tag@ == "php"@,
        ext@ == "swift"@ ==> tag@ == "swift"@,
        ext@ == "kt"@ || ext@ == "kts"@ ==> tag@ == "kotlin"@,
        ext@ == "cs"@ ==> tag@ == "csharp"@,
        ext@ == "lua"@ ==> tag@ == "lua"@,
        ext@ == "r"@ ==> tag@ == "r"@,
        ext@ == "sql"@ ==> tag@ == "sql"@,
        ext@ == "svelte"@ ==> tag@ == "svelte"@,
        ext@ == "vue"@ ==> tag@ == "vue"@,
        ext@ == "ex"@ || ext@ == "exs"@ ==> tag@ == "elixir"@,
        ext@ == "hs"@ || ext@ == "lhs"@ ==> tag@ == "haskell"@,
        ext@ == "nix"@ ==> tag@ == "nix"@,
        ext@ == "tf"@ || ext@ == "tfvars"@ ==> tag@ == "hcl"@,
        ext@ == "proto"@ ==> tag@ == "protobuf"@,
        ext@ == "graphql"@ || ext@ == "gql"@ ==> tag@ == "graphql"@,
        tag@ != ""@ ==> {
            ||| ext@ == "rs"@
            ||| ext@ == "py"@ || ext@ == "pyw"@
            ||| ext@ == "js"@ || ext@ == "mjs"@ || ext@ == "cjs"@
            ||| ext@ == "ts"@ || ext@ == "mts"@ || ext@ == "cts"@
            ||| ext@ == "jsx"@
            ||| ext@ == "tsx"@
            ||| ext@ == "html"@ || ext@ == "htm"@
            ||| ext@ == "css"@
            ||| ext@ == "scss"@ || ext@ == "sass"@
            ||| ext@ == "toml"@
            ||| ext@ == "json"@ || ext@ == "jsonc"@
            ||| ext@ == "yaml"@ || ext@ == "yml"@
            ||| ext@ == "xml"@
            ||| ext@ == "md"@ || ext@ == "mdx"@ || ext@ == "markdown"@
            ||| ext@ == "sh"@ || ext@ == "bash"@ || ext@ == "zsh"@ || ext@ == "ksh"@
            ||| ext@ == "fish"@
            ||| ext@ == "ps1"@
            ||| ext@ == "c"@
            ||| ext@ == "cpp"@ || ext@ == "cc"@ || ext@ == "cxx"@
            ||| ext@ == "h"@ || ext@ == "hpp"@ || ext@ == "hxx"@
            ||| ext@ == "go"@
            ||| ext@ == "java"@
            ||| ext@ == "rb"@
            ||| ext@ == "php"@
            ||| ext@ == "swift"@
            ||| ext@ == "kt"@ || ext@ == "kts"@
            ||| ext@ == "cs"@
            ||| ext@ == "lua"@
            ||| ext@ == "r"@
            ||| ext@ == "sql"@
            ||| ext@ == "svelte"@
            ||| ext@ == "vue"@
            ||| ext@ == "ex"@ || ext@ == "exs"@
            ||| ext@ == "hs"@ || ext@ == "lhs"@
            ||| ext@ == "nix"@
            ||| ext@ == "tf"@ || ext@ == "tfvars"@
            ||| ext@ == "proto"@
            ||| ext@ == "graphql"@ || ext@ == "gql"@
        },
{
    proof {
        law_languages(ext@);
    }
    if same_text(ext, "rs") {
        "rust"
    } else if same_text(ext, "py") || same_text(ext, "pyw") {
        "python"
    } else if same_text(ext, "js") || same_text(ext, "mjs") || same_text(ext, "cjs") {
        "javascript"
    } else if same_text(ext, "ts") || same_text(ext, "mts") || same_text(ext, "cts") {
        "typescript"
    } else if same_text(ext, "jsx") {
        "jsx"
    } else if same_text(ext, "tsx") {
        "tsx"
    } else if same_text(ext, "html") || same_text(ext, "htm") {
        "html"
    } else if same_text(ext, "css") {
        "css"
    } else if same_text(ext, "scss") || same_text(ext, "sass") {
        "scss"
    } else if same_text(ext, "toml") {
        "toml"
    } else if same_text(ext, "json") || same_text(ext, "jsonc") {
        "json"
    } else if same_text(ext, "yaml") || same_text(ext, "yml") {
        "yaml"
    } else if same_text(ext, "xml") {
        "xml"
    } else if same_text(ext, "md") || same_text(ext, "mdx") || same_text(ext, "markdown") {
        "markdown"
    } else if same_text(ext, "sh")
        || same_text(ext, "bash")
        || same_text(ext, "zsh")
        || same_text(ext, "ksh")
    {
        "bash"
    } else if same_text(ext, "fish") {
        "fish"
    } else if same_text(ext, "ps1") {
        "powershell"
    } else if same_text(ext, "c") {
        "c"
    } else if same_text(ext, "cpp")
        || same_text(ext, "cc")
        || same_text(ext, "cxx")
        || same_text(ext, "h")
        || same_text(ext, "hpp")
        || same_text(ext, "hxx")
    {
        "cpp"
    } else if same_text(ext, "go") {
        "go"
    } else if same_text(ext, "java") {
        "java"
    } else if same_text(ext, "rb") {
        "ruby"
    } else if same_text(ext, "php") {
        "php"
    } else if same_text(ext, "swift") {
        "swift"
    } else if same_text(ext, "kt") || same_text(ext, "kts") {
        "kotlin"
    } else if same_text(ext, "cs") {
        "csharp"
    } else if same_text(ext, "lua") {
        "lua"
    } else if same_text(ext, "r") {
        "r"
    } else if same_text(ext, "sql") {
        "sql"
    } else if same_text(ext, "svelte") {
        "svelte"
    } else if same_text(ext, "vue") {
        "vue"
    } else if same_text(ext, "ex") || same_text(ext, "exs") {
        "elixir"
    } else if same_text(ext, "hs") || same_text(ext, "lhs") {
        "haskell"
    } else if same_text(ext, "nix") {
        "nix"
    } else if same_text(ext, "tf") || same_text(ext, "tfvars") {
        "hcl"
    } else if same_text(ext, "proto") {
        "protobuf"
    } else if same_text(ext, "graphql") || same_text(ext, "gql") {
        "graphql"
    } else {
        ""
    }
}

/// Only lowercase extensions are known: one that holds a capital letter has no
/// tag.
pub proof fn law_capitals_have_no_tag(ext: Seq<char>, i: int)
    requires
        0 <= i < ext.len(),
        'A' <= ext[i] <= 'Z',
    ensures
        language(ext) == ""@,
{
    reveal_strlit("rs");
    reveal_strlit("py");
    reveal_strlit("pyw");
    reveal_strlit("js");
    reveal_strlit("mjs");
    reveal_strlit("cjs");
    reveal_strlit("ts");
    reveal_strlit("mts");
    reveal_strlit("cts");
    reveal_strlit("jsx");
    reveal_strlit("tsx");
    reveal_strlit("html");
    reveal_strlit("htm");
    reveal_strlit("css");
    reveal_strlit("scss");
    reveal_strlit("sass");
    reveal_strlit("toml");
    reveal_strlit("json");
    reveal_strlit("jsonc");
    reveal_strlit("yaml");
    reveal_strlit("yml");
    reveal_strlit("xml");
    reveal_strlit("md");
    reveal_strlit("mdx");
    reveal_strlit("markdown");
    reveal_strlit("sh");
    reveal_strlit("bash");
    reveal_strlit("zsh");
    reveal_strlit("ksh");
    reveal_strlit("fish");
    reveal_strlit("ps1");
    reveal_strlit("c");
    reveal_strlit("cpp");
    reveal_strlit("cc");
    reveal_strlit("cxx");
    reveal_strlit("h");
    reveal_strlit("hpp");
    reveal_strlit("hxx");
    reveal_strlit("go");
    reveal_strlit("java");
    reveal_strlit("rb");
    reveal_strlit("php");
    reveal_strlit("swift");
    reveal_strlit("kt");
    reveal_strlit("kts");
    reveal_strlit("cs");
    reveal_strlit("lua");
    reveal_strlit("r");
    reveal_strlit("sql");
    reveal_strlit("svelte");
    reveal_strlit("vue");
    reveal_strlit("ex");
    reveal_strlit("exs");
    reveal_strlit("hs");
    reveal_strlit("lhs");
    reveal_strlit("nix");
    reveal_strlit("tf");
    reveal_strlit("tfvars");
    reveal_strlit("proto");
    reveal_strlit("graphql");
    reveal_strlit("gql");
}

/// What every extension is labelled with: each listed extension with its
/// language, and any other with nothing.
pub proof fn law_languages(ext: Seq<char>)
    ensures
        ext == "rs"@ ==> language(ext) == "rust"@,
        ext == "py"@ || ext == "pyw"@ ==> language(ext) == "python"@,
        ext == "js"@ || ext == "mjs"@ || ext == "cjs"@ ==> language(ext) == "javascript"@,
        ext == "ts"@ || ext == "mts"@ || ext == "cts"@ ==> language(ext) == "typescript"@,
        ext == "jsx"@ ==> language(ext) == "jsx"@,
        ext == "tsx"@ ==> language(ext) == "tsx"@,
        ext == "html"@ || ext == "htm"@ ==> language(ext) == "html"@,
        ext == "css"@ ==> language(ext) == "css"@,
        ext == "scss"@ || ext == "sass"@ ==> language(ext) == "scss"@,
        ext == "toml"@ ==> language(ext) == "toml"@,
        ext == "json"@ || ext == "jsonc"@ ==> language(ext) == "json"@,
        ext == "yaml"@ || ext == "yml"@ ==> language(ext) == "yaml"@,
        ext == "xml"@ ==> language(ext) == "xml"@,
        ext == "md"@ || ext == "mdx"@ || ext == "markdown"@ ==> language(ext) == "markdown"@,
        ext == "sh"@ || ext == "bash"@ || ext == "zsh"@ || ext == "ksh"@ ==> language(ext) == "bash"@,
        ext == "fish"@ ==> language(ext) == "fish"@,
        ext == "ps1"@ ==> language(ext) == "powershell"@,
        ext == "c"@ ==> language(ext) == "c"@,
        ext == "cpp"@ || ext == "cc"@ || ext == "cxx"@
            || ext == "h"@ || ext == "hpp"@ || ext == "hxx"@ ==> language(ext) == "cpp"@,
        ext == "go"@ ==> language(ext) == "go"@,
        ext == "java"@ ==> language(ext) == "java"@,
        ext == "rb"@ ==> language(ext) == "ruby"@,
        ext == "php"@ ==> language(ext) == "php"@,
        ext == "swift"@ ==> language(ext) == "swift"@,
        ext == "kt"@ || ext == "kts"@ ==> language(ext) == "kotlin"@,
        ext == "cs"@ ==> language(ext) == "csharp"@,
        ext == "lua"@ ==> language(ext) == "lua"@,
        ext == "r"@ ==> language(ext) == "r"@,
        ext == "sql"@ ==> language(ext) == "sql"@,
        ext == "svelte"@ ==> language(ext) == "svelte"@,
        ext == "vue"@ ==> language(ext) == "vue"@,
        ext == "ex"@ || ext == "exs"@ ==> language(ext) == "elixir"@,
        ext == "hs"@ || ext == "lhs"@ ==> language(ext) == "haskell"@,
        ext == "nix"@ ==> language(ext) == "nix"@,
        ext == "tf"@ || ext == "tfvars"@ ==> language(ext) == "hcl"@,
        ext == "proto"@ ==> language(ext) == "protobuf"@,
        ext == "graphql"@ || ext == "gql"@ ==> language(ext) == "graphql"@,
        language(ext) != ""@ ==> {
            ||| ext == "rs"@
            ||| ext == "py"@ || ext == "pyw"@
            ||| ext == "js"@ || ext == "mjs"@ || ext == "cjs"@
            ||| ext == "ts"@ || ext == "mts"@ || ext == "cts"@
            ||| ext == "jsx"@
            ||| ext == "tsx"@
            ||| ext == "html"@ || ext == "htm"@
            ||| ext == "css"@
            ||| ext == "scss"@ || ext == "sass"@
            ||| ext == "toml"@
            ||| ext == "json"@ || ext == "jsonc"@
            ||| ext == "yaml"@ || ext == "yml"@
            ||| ext == "xml"@
            ||| ext == "md"@ || ext == "mdx"@ || ext == "markdown"@
            ||| ext == "sh"@ || ext == "bash"@ || ext == "zsh"@ || ext == "ksh"@
            ||| ext == "fish"@
            ||| ext == "ps1"@
            ||| ext == "c"@
            ||| ext == "cpp"@ || ext == "cc"@ || ext == "cxx"@
            ||| ext == "h"@ || ext == "hpp"@ || ext == "hxx"@
            ||| ext == "go"@
            ||| ext == "java"@
            ||| ext == "rb"@
            ||| ext == "php"@
            ||| ext == "swift"@
            ||| ext == "kt"@ || ext == "kts"@
            ||| ext == "cs"@
            ||| ext == "lua"@
            ||| ext == "r"@
            ||| ext == "sql"@
            ||| ext == "svelte"@
            ||| ext == "vue"@
            ||| ext == "ex"@ || ext == "exs"@
            ||| ext == "hs"@ || ext == "lhs"@
            ||| ext == "nix"@
            ||| ext == "tf"@ || ext == "tfvars"@
            ||| ext == "proto"@
            ||| ext == "graphql"@ || ext == "gql"@
        },
{
    reveal_strlit("rs");
    reveal_strlit("py");
    reveal_strlit("pyw");
    reveal_strlit("js");
    reveal_strlit("mjs");
    reveal_strlit("cjs");
    reveal_strlit("ts");
    reveal_strlit("mts");
    reveal_strlit("cts");
    reveal_strlit("jsx");
    reveal_strlit("tsx");
    reveal_strlit("html");
    reveal_strlit("htm");
    reveal_strlit("css");
    reveal_strlit("scss");
    reveal_strlit("sass");
    reveal_strlit("toml");
    reveal_strlit("json");
    reveal_strlit("jsonc");
    reveal_strlit("yaml");
    reveal_strlit("yml");
    reveal_strlit("xml");
    reveal_strlit("md");
    reveal_strlit("mdx");
    reveal_strlit("markdown");
    reveal_strlit("sh");
    reveal_strlit("bash");
    reveal_strlit("zsh");
    reveal_strlit("ksh");
    reveal_strlit("fish");
    reveal_strlit("ps1");
    reveal_strlit("c");
    reveal_strlit("cpp");
    reveal_strlit("cc");
    reveal_strlit("cxx");
    reveal_strlit("h");
    reveal_strlit("hpp");
    reveal_strlit("hxx");
    reveal_strlit("go");
    reveal_strlit("java");
    reveal_strlit("rb");
    reveal_strlit("php");
    reveal_strlit("swift");
    reveal_strlit("kt");
    reveal_strlit("kts");
    reveal_strlit("cs");
    reveal_strlit("lua");
    reveal_strlit("r");
    reveal_strlit("sql");
    reveal_strlit("svelte");
    reveal_strlit("vue");
    reveal_strlit("ex");
    reveal_strlit("exs");
    reveal_strlit("hs");
    reveal_strlit("lhs");
    reveal_strlit("nix");
    reveal_strlit("tf");
    reveal_strlit("tfvars");
    reveal_strlit("proto");
    reveal_strlit("graphql");
    reveal_strlit("gql");
    assert("rs"@[0] == 'r' && "rs"@[1] == 's');
    assert("py"@[0] == 'p' && "py"@[1] == 'y');
    assert("pyw"@[0] == 'p' && "pyw"@[1] == 'y' && "pyw"@[2] == 'w');
    assert("js"@[0] == 'j' && "js"@[1] == 's');
    assert("mjs"@[0] == 'm' && "mjs"@[1] == 'j' && "mjs"@[2] == 's');
    assert("cjs"@[0] == 'c' && "cjs"@[1] == 'j' && "cjs"@[2] == 's');
    assert("ts"@[0] == 't' && "ts"@[1] == 's');
    assert("mts"@[0] == 'm' && "mts"@[1] == 't' && "mts"@[2] == 's');
    assert("cts"@[0] == 'c' && "cts"@[1] == 't' && "cts"@[2] == 's');
    assert("jsx"@[0] == 'j' && "jsx"@[1] == 's' && "jsx"@[2] == 'x');
    assert("tsx"@[0] == 't' && "tsx"@[1] == 's' && "tsx"@[2] == 'x');
    assert("html"@[0] == 'h' && "html"@[1] == 't' && "html"@[2] == 'm' && "html"@[3] == 'l');
    assert("htm"@[0] == 'h' && "htm"@[1] == 't' && "htm"@[2] == 'm');
    assert("css"@[0] == 'c' && "css"@[1] == 's' && "css"@[2] == 's');
    assert("scss"@[0] == 's' && "scss"@[1] == 'c' && "scss"@[2] == 's' && "scss"@[3] == 's');
    assert("sass"@[0] == 's' && "sass"@[1] == 'a' && "sass"@[2] == 's' && "sass"@[3] == 's');
    assert("toml"@[0] == 't' && "toml"@[1] == 'o' && "toml"@[2] == 'm' && "toml"@[3] == 'l');
    assert("json"@[0] == 'j' && "json"@[1] == 's' && "json"@[2] == 'o' && "json"@[3] == 'n');
    assert("jsonc"@[0] == 'j' && "jsonc"@[1] == 's' && "jsonc"@[2] == 'o' && "jsonc"@[3] == 'n' && "jsonc"@[4] == 'c');
    assert("yaml"@[0] == 'y' && "yaml"@[1] == 'a' && "yaml"@[2] == 'm' && "yaml"@[3] == 'l');
    assert("yml"@[0] == 'y' && "yml"@[1] == 'm' && "yml"@[2] == 'l');
    assert("xml"@[0] == 'x' && "xml"@[1] == 'm' && "xml"@[2] == 'l');
    assert("md"@[0] == 'm' && "md"@[1] == 'd');
    assert("mdx"@[0] == 'm' && "mdx"@[1] == 'd' && "mdx"@[2] == 'x');
    assert("markdown"@[0] == 'm' && "markdown"@[1] == 'a' && "markdown"@[2] == 'r' && "markdown"@[3] == 'k' && "markdown"@[4] == 'd' && "markdown"@[5] == 'o' && "markdown"@[6] == 'w' && "markdown"@[7] == 'n');
    assert("sh"@[0] == 's' && "sh"@[1] == 'h');
    assert("bash"@[0] == 'b' && "bash"@[1] == 'a' && "bash"@[2] == 's' && "bash"@[3] == 'h');
    assert("zsh"@[0] == 'z' && "zsh"@[1] == 's' && "zsh"@[2] == 'h');
    assert("ksh"@[0] == 'k' && "ksh"@[1] == 's' && "ksh"@[2] == 'h');
    assert("fish"@[0] == 'f' && "fish"@[1] == 'i' && "fish"@[2] == 's' && "fish"@[3] == 'h');
    assert("ps1"@[0] == 'p' && "ps1"@[1] == 's' && "ps1"@[2] == '1');
    assert("c"@[0] == 'c');
    assert("cpp"@[0] == 'c' && "cpp"@[1] == 'p' && "cpp"@[2] == 'p');
    assert("cc"@[0] == 'c' && "cc"@[1] == 'c');
    assert("cxx"@[0] == 'c' && "cxx"@[1] == 'x' && "cxx"@[2] == 'x');
    assert("h"@[0] == 'h');
    assert("hpp"@[0] == 'h' && "hpp"@[1] == 'p' && "hpp"@[2] == 'p');
    assert("hxx"@[0] == 'h' && "hxx"@[1] == 'x' && "hxx"@[2] == 'x');
    assert("go"@[0] == 'g' && "go"@[1] == 'o');
    assert("java"@[0] == 'j' && "java"@[1] == 'a' && "java"@[2] == 'v' && "java"@[3] == 'a');
    assert("rb"@[0] == 'r' && "rb"@[1] == 'b');
    assert("php"@[0] == 'p' && "php"@[1] == 'h' && "php"@[2] == 'p');
    assert("swift"@[0] == 's' && "swift"@[1] == 'w' && "swift"@[2] == 'i' && "swift"@[3] == 'f' && "swift"@[4] == 't');
    assert("kt"@[0] == 'k' && "kt"@[1] == 't');
    assert("kts"@[0] == 'k' && "kts"@[1] == 't' && "kts"@[2] == 's');
    assert("cs"@[0] == 'c' && "cs"@[1] == 's');
    assert("lua"@[0] == 'l' && "lua"@[1] == 'u' && "lua"@[2] == 'a');
    assert("r"@[0] == 'r');
    assert("sql"@[0] == 's' && "sql"@[1] == 'q' && "sql"@[2] == 'l');
    assert("svelte"@[0] == 's' && "svelte"@[1] == 'v' && "svelte"@[2] == 'e' && "svelte"@[3] == 'l' && "svelte"@[4] == 't' && "svelte"@[5] == 'e');
    assert("vue"@[0] == 'v' && "vue"@[1] == 'u' && "vue"@[2] == 'e');
    assert("ex"@[0] == 'e' && "ex"@[1] == 'x');
    assert("exs"@[0] == 'e' && "exs"@[1] == 'x' && "exs"@[2] == 's');
    assert("hs"@[0] == 'h' && "hs"@[1] == 's');
    assert("lhs"@[0] == 'l' && "lhs"@[1] == 'h' && "lhs"@[2] == 's');
    assert("nix"@[0] == 'n' && "nix"@[1] == 'i' && "nix"@[2] == 'x');
    assert("tf"@[0] == 't' && "tf"@[1] == 'f');
    assert("tfvars"@[0] == 't' && "tfvars"@[1] == 'f' && "tfvars"@[2] == 'v' && "tfvars"@[3] == 'a' && "tfvars"@[4] == 'r' && "tfvars"@[5] == 's');
    assert("proto"@[0] == 'p' && "proto"@[1] == 'r' && "proto"@[2] == 'o' && "proto"@[3] == 't' && "proto"@[4] == 'o');
    assert("graphql"@[0] == 'g' && "graphql"@[1] == 'r' && "graphql"@[2] == 'a' && "graphql"@[3] == 'p' && "graphql"@[4] == 'h' && "graphql"@[5] == 'q' && "graphql"@[6] == 'l');
    assert("gql"@[0] == 'g' && "gql"@[1] == 'q' && "gql"@[2] == 'l');
    if ext == "rs"@ {
        assert(ext.len() == 2 && ext[0] == 'r' && ext[1] == 's');
        assert(language(ext) == "rust"@);
    }
    if ext == "py"@ {
        assert(ext.len() == 2 && ext[0] == 'p' && ext[1] == 'y');
        assert(language(ext) == "python"@);
    }
    if ext == "pyw"@ {
        assert(ext.len() == 3 && ext[0] == 'p' && ext[1] == 'y' && ext[2] == 'w');
        assert(language(ext) == "python"@);
    }
    if ext == "js"@ {
        assert(ext.len() == 2 && ext[0] == 'j' && ext[1] == 's');
        assert(language(ext) == "javascript"@);
    }
    if ext == "mjs"@ {
        assert(ext.len() == 3 && ext[0] == 'm' && ext[1] == 'j' && ext[2] == 's');
        assert(language(ext) == "javascript"@);
    }
    if ext == "cjs"@ {
        assert(ext.len() == 3 && ext[0] == 'c' && ext[1] == 'j' && ext[2] == 's');
        assert(language(ext) == "javascript"@);
    }
    if ext == "ts"@ {
        assert(ext.len() == 2 && ext[0] == 't' && ext[1] == 's');
        assert(language(ext) == "typescript"@);
    }
    if ext == "mts"@ {
        assert(ext.len() == 3 && ext[0] == 'm' && ext[1] == 't' && ext[2] == 's');
        assert(language(ext) == "typescript"@);
    }
    if ext == "cts"@ {
        assert(ext.len() == 3 && ext[0] == 'c' && ext[1] == 't' && ext[2] == 's');
        assert(language(ext) == "typescript"@);
    }
    if ext == "jsx"@ {
        assert(ext.len() == 3 && ext[0] == 'j' && ext[1] == 's' && ext[2] == 'x');
        assert(language(ext) == "jsx"@);
    }
    if ext == "tsx"@ {
        assert(ext.len() == 3 && ext[0] == 't' && ext[1] == 's' && ext[2] == 'x');
        assert(language(ext) == "tsx"@);
    }
    if ext == "html"@ {
        assert(ext.len() == 4 && ext[0] == 'h' && ext[1] == 't' && ext[2] == 'm' && ext[3] == 'l');
        assert(language(ext) == "html"@);
    }
    if ext == "htm"@ {
        assert(ext.len() == 3 && ext[0] == 'h' && ext[1] == 't' && ext[2] == 'm');
        assert(language(ext) == "html"@);
    }
    if ext == "css"@ {
        assert(ext.len() == 3 && ext[0] == 'c' && ext[1] == 's' && ext[2] == 's');
        assert(language(ext) == "css"@);
    }
    if ext == "scss"@ {
        assert(ext.len() == 4 && ext[0] == 's' && ext[1] == 'c' && ext[2] == 's' && ext[3] == 's');
        assert(language(ext) == "scss"@);
    }
    if ext == "sass"@ {
        assert(ext.len() == 4 && ext[0] == 's' && ext[1] == 'a' && ext[2] == 's' && ext[3] == 's');
        assert(language(ext) == "scss"@);
    }
    if ext == "toml"@ {
        assert(ext.len() == 4 && ext[0] == 't' && ext[1] == 'o' && ext[2] == 'm' && ext[3] == 'l');
        assert(language(ext) == "toml"@);
    }
    if ext == "json"@ {
        assert(ext.len() == 4 && ext[0] == 'j' && ext[1] == 's' && ext[2] == 'o' && ext[3] == 'n');
        assert(language(ext) == "json"@);
    }
    if ext == "jsonc"@ {
        assert(ext.len() == 5 && ext[0] == 'j' && ext[1] == 's' && ext[2] == 'o' && ext[3] == 'n' && ext[4] == 'c');
        assert(language(ext) == "json"@);
    }
    if ext == "yaml"@ {
        assert(ext.len() == 4 && ext[0] == 'y' && ext[1] == 'a' && ext[2] == 'm' && ext[3] == 'l');
        assert(language(ext) == "yaml"@);
    }
    if ext == "yml"@ {
        assert(ext.len() == 3 && ext[0] == 'y' && ext[1] == 'm' && ext[2] == 'l');
        assert(language(ext) == "yaml"@);
    }
    if ext == "xml"@ {
        assert(ext.len() == 3 && ext[0] == 'x' && ext[1] == 'm' && ext[2] == 'l');
        assert(language(ext) == "xml"@);
    }
    if ext == "md"@ {
        assert(ext.len() == 2 && ext[0] == 'm' && ext[1] == 'd');
        assert(language(ext) == "markdown"@);
    }
    if ext == "mdx"@ {
        assert(ext.len() == 3 && ext[0] == 'm' && ext[1] == 'd' && ext[2] == 'x');
        assert(language(ext) == "markdown"@);
    }
    if ext == "markdown"@ {
        assert(ext.len() == 8 && ext[0] == 'm' && ext[1] == 'a' && ext[2] == 'r' && ext[3] == 'k' && ext[4] == 'd' && ext[5] == 'o' && ext[6] == 'w' && ext[7] == 'n');
        assert(language(ext) == "markdown"@);
    }
    if ext == "sh"@ {
        assert(ext.len() == 2 && ext[0] == 's' && ext[1] == 'h');
        assert(language(ext) == "bash"@);
    }
    if ext == "bash"@ {
        assert(ext.len() == 4 && ext[0] == 'b' && ext[1] == 'a' && ext[2] == 's' && ext[3] == 'h');
        assert(language(ext) == "bash"@);
    }
    if ext == "zsh"@ {
        assert(ext.len() == 3 && ext[0] == 'z' && ext[1] == 's' && ext[2] == 'h');
        assert(language(ext) == "bash"@);
    }
    if ext == "ksh"@ {
        assert(ext.len() == 3 && ext[0] == 'k' && ext[1] == 's' && ext[2] == 'h');
        assert(language(ext) == "bash"@);
    }
    if ext == "fish"@ {
        assert(ext.len() == 4 && ext[0] == 'f' && ext[1] == 'i' && ext[2] == 's' && ext[3] == 'h');
        assert(language(ext) == "fish"@);
    }
    if ext == "ps1"@ {
        assert(ext.len() == 3 && ext[0] == 'p' && ext[1] == 's' && ext[2] == '1');
        assert(language(ext) == "powershell"@);
    }
    if ext == "c"@ {
        assert(ext.len() == 1 && ext[0] == 'c');
        assert(language(ext) == "c"@);
    }
    if ext == "cpp"@ {
        assert(ext.len() == 3 && ext[0] == 'c' && ext[1] == 'p' && ext[2] == 'p');
        assert(language(ext) == "cpp"@);
    }
    if ext == "cc"@ {
        assert(ext.len() == 2 && ext[0] == 'c' && ext[1] == 'c');
        assert(language(ext) == "cpp"@);
    }
    if ext == "cxx"@ {
        assert(ext.len() == 3 && ext[0] == 'c' && ext[1] == 'x' && ext[2] == 'x');
        assert(language(ext) == "cpp"@);
    }
    if ext == "h"@ {
        assert(ext.len() == 1 && ext[0] == 'h');
        assert(language(ext) == "cpp"@);
    }
    if ext == "hpp"@ {
        assert(ext.len() == 3 && ext[0] == 'h' && ext[1] == 'p' && ext[2] == 'p');
        assert(language(ext) == "cpp"@);
    }
    if ext == "hxx"@ {
        assert(ext.len() == 3 && ext[0] == 'h' && ext[1] == 'x' && ext[2] == 'x');
        assert(language(ext) == "cpp"@);
    }
    if ext == "go"@ {
        assert(ext.len() == 2 && ext[0] == 'g' && ext[1] == 'o');
        assert(language(ext) == "go"@);
    }
    if ext == "java"@ {
        assert(ext.len() == 4 && ext[0] == 'j' && ext[1] == 'a' && ext[2] == 'v' && ext[3] == 'a');
        assert(language(ext) == "java"@);
    }
    if ext == "rb"@ {
        assert(ext.len() == 2 && ext[0] == 'r' && ext[1] == 'b');
        assert(language(ext) == "ruby"@);
    }
    if ext == "php"@ {
        assert(ext.len() == 3 && ext[0] == 'p' && ext[1] == 'h' && ext[2] == 'p');
        assert(language(ext) == "php"@);
    }
    if ext == "swift"@ {
        assert(ext.len() == 5 && ext[0] == 's' && ext[1] == 'w' && ext[2] == 'i' && ext[3] == 'f' && ext[4] == 't');
        assert(language(ext) == "swift"@);
    }
    if ext == "kt"@ {
        assert(ext.len() == 2 && ext[0] == 'k' && ext[1] == 't');
        assert(language(ext) == "kotlin"@);
    }
    if ext == "kts"@ {
        assert(ext.len() == 3 && ext[0] == 'k' && ext[1] == 't' && ext[2] == 's');
        assert(language(ext) == "kotlin"@);
    }
    if ext == "cs"@ {
        assert(ext.len() == 2 && ext[0] == 'c' && ext[1] == 's');
        assert(language(ext) == "csharp"@);
    }
    if ext == "lua"@ {
        assert(ext.len() == 3 && ext[0] == 'l' && ext[1] == 'u' && ext[2] == 'a');
        assert(language(ext) == "lua"@);
    }
    if ext == "r"@ {
        assert(ext.len() == 1 && ext[0] == 'r');
        assert(language(ext) == "r"@);
    }
    if ext == "sql"@ {
        assert(ext.len() == 3 && ext[0] == 's' && ext[1] == 'q' && ext[2] == 'l');
        assert(language(ext) == "sql"@);
    }
    if ext == "svelte"@ {
        assert(ext.len() == 6 && ext[0] == 's' && ext[1] == 'v' && ext[2] == 'e' && ext[3] == 'l' && ext[4] == 't' && ext[5] == 'e');
        assert(language(ext) == "svelte"@);
    }
    if ext == "vue"@ {
        assert(ext.len() == 3 && ext[0] == 'v' && ext[1] == 'u' && ext[2] == 'e');
        assert(language(ext) == "vue"@);
    }
    if ext == "ex"@ {
        assert(ext.len() == 2 && ext[0] == 'e' && ext[1] == 'x');
        assert(language(ext) == "elixir"@);
    }
    if ext == "exs"@ {
        assert(ext.len() == 3 && ext[0] == 'e' && ext[1] == 'x' && ext[2] == 's');
        assert(language(ext) == "elixir"@);
    }
    if ext == "hs"@ {
        assert(ext.len() == 2 && ext[0] == 'h' && ext[1] == 's');
        assert(language(ext) == "haskell"@);
    }
    if ext == "lhs"@ {
        assert(ext.len() == 3 && ext[0] == 'l' && ext[1] == 'h' && ext[2] == 's');
        assert(language(ext) == "haskell"@);
    }
    if ext == "nix"@ {
        assert(ext.len() == 3 && ext[0] == 'n' && ext[1] == 'i' && ext[2] == 'x');
        assert(language(ext) == "nix"@);
    }
    if ext == "tf"@ {
        assert(ext.len() == 2 && ext[0] == 't' && ext[1] == 'f');
        assert(language(ext) == "hcl"@);
    }
    if ext == "tfvars"@ {
        assert(ext.len() == 6 && ext[0] == 't' && ext[1] == 'f' && ext[2] == 'v' && ext[3] == 'a' && ext[4] == 'r' && ext[5] == 's');
        assert(language(ext) == "hcl"@);
    }
    if ext == "proto"@ {
        assert(ext.len() == 5 && ext[0] == 'p' && ext[1] == 'r' && ext[2] == 'o' && ext[3] == 't' && ext[4] == 'o');
        assert(language(ext) == "protobuf"@);
    }
    if ext == "graphql"@ {
        assert(ext.len() == 7 && ext[0] == 'g' && ext[1] == 'r' && ext[2] == 'a' && ext[3] == 'p' && ext[4] == 'h' && ext[5] == 'q' && ext[6] == 'l');
        assert(language(ext) == "graphql"@);
    }
    if ext == "gql"@ {
        assert(ext.len() == 3 && ext[0] == 'g' && ext[1] == 'q' && ext[2] == 'l');
        assert(language(ext) == "graphql"@);
    }
}

} // verus!
