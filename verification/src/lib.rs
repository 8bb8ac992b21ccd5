//! Maintenance of marker-delimited sections in a hosts file held as a sequence of lines.

pub mod cli;
pub mod hosts;
pub mod laws;
pub mod section;
