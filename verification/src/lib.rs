//! `pdir` - print directory
//!
//! Concatenates the files of a directory tree into a single text stream. Each
//! file is preceded by a header and rendered in one of three output formats.
//!
//! ```text
//! --- src/main.rs ---
//! fn main() { ... }
//!
//! --- Cargo.toml ---
//! [package]
//! name = "pdir"
//! ```
//!
//! This crate decides what is printed and how: which files the globs let
//! through ([`filter`]), how bytes become text ([`reading`]), how a file is
//! rendered ([`render`]) and how the files of a run follow each other
//! ([`session`]). It does no input or output of its own; file contents come in
//! as the result of a read, and output is appended to a `String`.
//!
//! What is taken without proof stands in [`platform`] (the standard library)
//! and [`glob`] (the `globset` crate).
pub mod filter;
pub mod glob;
pub mod input;
pub mod language;
pub mod limits;
pub mod lines;
pub mod numbering;
pub mod path;
pub mod platform;
pub mod reading;
pub mod render;
pub mod session;
pub mod strings;

pub use filter::{
    build_globset, include_patterns, try_build_globset, FilterError, GlobError, GlobSetFilter,
};
pub use input::listed_paths;
pub use language::ext_to_language;
pub use limits::fits_limits;
pub use numbering::add_line_numbers;
pub use path::{bare_name, normalize_path};
pub use reading::{decode_lossy, read_text, read_text_lossy};
pub use render::{print_file, select_format, OutputFormat, PrintOptions};
pub use session::Session;
