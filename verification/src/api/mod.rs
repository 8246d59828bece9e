//! Codecs, containers, errors, and the rules that a muxer applies to samples.

pub mod audio;
pub mod build_laws;
pub mod builder;
mod config;
pub mod end_laws;
mod error;
pub mod error_laws;
pub mod front;
pub mod front_laws;
mod mkv;
pub mod mp4;
pub mod state_laws;
pub mod streaming;
mod types;

pub use audio::{FlacMuxer, OggMuxer};
pub use builder::MuxerBuilder;
pub use config::{FrameRate, MuxerConfig, MuxerStats, VideoTrackConfig};
pub use error::{
    CodecLabel, InputFault, MuxerError, RejectReason, RejectedCodec,
};
pub use mkv::MkvMuxer;
pub use mp4::Muxer;
pub use streaming::StreamingMuxer;
pub use types::{
    AacConfig, AacProfile, AudioCodec, AudioTrackConfig, ChromaSubsampling, ContainerFormat,
    Metadata, SegmentBoundary, SubtitleCodec, SubtitleTrackConfig, VideoBitstreamFormat,
    VideoCodec, VideoDecoderConfig,
};
pub use crate::codec::opus::OpusConfig;
pub use crate::seconds::Seconds;
