//! Verified core of a Hyperscan binding: pattern syntax, compile flags,
//! expression extensions, compile requests, error codes and the
//! match post-processing used by the regex-style API.

pub mod chimera;
pub mod common;
pub mod compile;
pub mod database;
pub mod error;
pub mod legacy;
pub mod regex;
pub mod runtime;
pub mod text;
