//! The decisions of a command-line tool around the muxers.

pub mod boxes;
pub mod hex;
pub mod inputs;
pub mod laws;
pub mod manifest;
pub mod matroska;
pub mod nesting;
pub mod nesting_laws;
