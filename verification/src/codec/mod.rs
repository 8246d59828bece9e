//! Codec headers and packet structure.

pub mod access_unit;
pub mod ass;
pub mod ass_laws;
pub mod common;
pub mod flac;
pub mod flac_laws;
pub mod opus;
pub mod opus_laws;
pub mod vp9;
pub mod vp9_laws;
