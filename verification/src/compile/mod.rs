//! Pattern syntax, compile flags and compile requests.

pub mod builder;
pub mod error;
pub mod expr;
pub mod literal;
pub mod pattern;
pub mod platform;
