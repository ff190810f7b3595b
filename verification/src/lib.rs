//! Core of a batch file-renaming utility.
//!
//! A filter pattern selects filenames and extracts captured tokens, one per
//! wildcard; counter wildcards yield auto-incrementing numeric tokens. A
//! rename template rebuilds a new filename from the captured tokens, either
//! in order or through explicit positional references.
//!
//! Matching is non-greedy: each intermediate literal is matched at its
//! leftmost occurrence after the previous one. Malformed counter and
//! position forms degrade to literal text rather than being rejected.

pub mod cli;
pub mod driver;
pub mod filters;
pub mod help;
pub mod laws;
pub mod renamer;
pub mod text;
