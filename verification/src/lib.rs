//! Backend core of a log-viewing tool.
//!
//! The library serves file content to a polling caller: a differential
//! ("tail -f"-like) reader that decides what byte range to read and detects
//! truncation or replacement of the file, a whole-file line search that
//! returns a context window around an exact match, and a bounded
//! most-recently-opened file list.  All decisions are pure functions over
//! values handed in by the caller; the filesystem itself is touched only by
//! the surrounding application.

pub mod export;
pub mod paths;
pub mod recent;
pub mod search;
pub mod tail;
pub mod text;
