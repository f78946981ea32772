//! A verified core for PCRE2 regular expressions over byte strings: the
//! compile and match settings, the decoding of PCRE2's capture-name table,
//! capture groups, and the stepping rules of the match iterators.
pub mod bytes;
pub mod error;
pub mod laws;
pub mod name_table;
mod pcre2_consts;

pub use crate::error::{Error, ErrorKind};
