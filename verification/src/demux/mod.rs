//! Demuxers for audio containers.

pub mod flac;
pub mod flac_laws;
pub mod ogg;
pub mod ogg_laws;

pub use flac::{demux_flac, FlacFrame, FlacStream};
pub use ogg::{demux_ogg_opus, OggOpusPacket, OggOpusTrack};
