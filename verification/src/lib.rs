//! Line formatting for a `cat`-style concatenation tool.
//!
//! The crate turns raw lines of bytes into the bytes that are displayed for
//! them under a set of display options: end-of-line markers, caret and meta
//! notation for non-printing bytes, visible tabs, line numbers, and the
//! squeezing of repeated blank lines.

pub mod options;
pub mod transform;
pub mod formatter;
pub mod run;
pub mod stream;
