//! The first generation of the binding's interface: compile flags with the
//! engine's constant names, patterns whose text always prints delimited,
//! compile requests of the raw database types, error codes, and a small
//! regex interface.

pub mod common;
pub mod compile;
pub mod errors;
pub mod regex;
