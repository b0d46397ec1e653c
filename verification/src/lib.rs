//! Core of a utility that packs a directory tree into a single text context
//! for a language model: an ignore-aware traversal is filtered down to a
//! bounded set of text files, a visual tree of the result is rendered, the
//! admitted contents are concatenated, and a token estimate is reported.
//!
//! The traversal itself, the command line, and all file reading live outside
//! this crate; they hand the walker plain events and take plain values back.

pub mod classify;
pub mod limiter;
pub mod report;
pub mod text;
pub mod tree;
pub mod walk;
