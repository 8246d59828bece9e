//! Writers for the containers.

pub mod ebml;
pub mod flac;
pub mod flac_file_laws;
pub mod flac_round_trip;
pub mod mkv;
pub mod mkv_file_laws;
pub mod mkv_laws;
pub mod mkv_layout;
pub mod mp4;
pub mod ogg;
pub mod ogg_laws;
pub mod ogg_round_trip;
pub mod streaming;
