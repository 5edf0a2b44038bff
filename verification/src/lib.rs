//! A live log-tailing library: it tracks per-file read offsets, decides from
//! change events which byte range of a file must be read next, splits appended
//! text into lines, classifies each line by severity markers, and formats the
//! matched lines for display.
//!
//! All I/O (filesystem watching, reading, printing) stays outside this crate;
//! the library works on plain values and is verified.

pub mod engine;
pub mod filter;
pub mod laws;
pub mod lines;
pub mod offsets;
pub mod render;
pub mod text;
