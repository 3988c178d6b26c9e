//! Chimera, the hybrid of Hyperscan and PCRE: its pattern syntax, flags,
//! compile requests, error codes and match events.

pub mod compile;
pub mod error;
pub mod pattern;
pub mod runtime;
