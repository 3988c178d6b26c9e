//! Database modes and the engine's error codes.

pub mod error;
pub mod mode;
pub mod version;
