//! Verified cores of three POSIX utilities (`basename`, `cat`, `cmp`) and of the
//! multi-call dispatcher that selects one of them.
//!
//! Everything here is a pure computation on plain values; reading files and
//! standard input, writing output and parsing flags happen in the program
//! that wraps this library.

pub mod path;
pub mod basename;
pub mod cmp;
pub mod source;
pub mod cat;
pub mod dispatch;
