//! What the library decides around a scan: whether matching goes on, and
//! how the matches of a scan become search steps.

pub mod pattern;
pub mod scan;
