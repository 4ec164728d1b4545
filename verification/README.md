# pdir (print directory)

A small command line utility that concatenates the files of a directory tree
into a single text stream with relative path headers, in plain text, Markdown or
cxml. What it prints is decided by a library verified with Verus.

```text
--- Cargo.toml ---
[package]
name = "example"

--- src/main.rs ---
fn main() {
    println!("hello");
}
```

## Layout

- `src/` is the verified library. `filter` decides which files the globs let
  through and `limits` how many patterns fit one set, `reading` turns bytes into
  text, `numbering` puts line numbers in front of lines, `render` renders one
  file and `session` a whole run, `path` and `input` deal with path text.
  `platform` and `glob` hold the contracts of the standard library and of
  `globset` that are believed without proof.
- `tests/` runs the library.
- `app/` is the program around it: arguments, standard input, the directory walk,
  reading files and writing the output.

## Notes

Files that are not UTF-8 are skipped, with a warning on standard error. Patterns
use the glob syntax of `globset`; each file is tested by its relative path and by
its bare name, and exclusions take priority.
