//! Verified building blocks of a media muxer: codec headers, Ogg, FLAC and
//! Matroska framing, integer timing, and the rules that decide which samples
//! a container accepts.

pub mod api;
pub mod cmaf;
pub mod cmaf_laws;
pub mod codec;
pub mod crc;
pub mod decimals;
pub mod demux;
pub mod fragmented;
pub mod handle;
pub mod handle_laws;
pub mod muxer;
pub mod polynomial;
pub mod seconds;
pub mod text;
pub mod text_laws;
pub mod time;
pub mod tool;
pub mod wire;
