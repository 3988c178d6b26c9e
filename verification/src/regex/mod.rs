//! A regex-style interface: compiling an expression for block scans, and
//! turning the match events of a scan into matches and splits.

pub mod builder;
pub mod re;
pub mod select;
