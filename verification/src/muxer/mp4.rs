//! Track parameters shared by the containers.

use vstd::prelude::*;
use crate::api::{AudioCodec, SubtitleCodec};
use crate::codec::opus::OpusConfig;

verus! {

/// Ticks per second of the media clock.
pub const MEDIA_TIMESCALE: u32 = 90_000;

/// Why an MP4 writer does not take a sample.
#[derive(Debug, Clone, Copy, PartialEq, Eq, Structural)]
pub enum Mp4WriterError {
    /// Times do not grow as they must.
    NonIncreasingTimestamp,
    /// The first video frame is not a keyframe.
    FirstFrameMustBeKeyframe,
    /// The first keyframe lacks its parameter sets.
    FirstFrameMissingSpsPps,
    /// The first AV1 keyframe lacks its sequence header.
    FirstFrameMissingSequenceHeader,
    /// The first VP9 keyframe has no valid header.
    FirstFrameMissingVp9Config,
    /// The audio sample is not an ADTS frame.
    InvalidAdts,
    /// The audio sample is not an ADTS frame; there is a report.
    InvalidAdtsDetailed,
    /// The audio sample is not an Opus packet.
    InvalidOpusPacket,
    /// The audio sample is not a FLAC frame.
    InvalidFlacFrame,
    /// A FLAC track has no STREAMINFO.
    MissingFlacStreaminfo,
    /// There is no audio track.
    AudioNotEnabled,
    /// There is no subtitle track.
    SubtitleNotEnabled,
    /// A size or duration does not fit its field.
    DurationOverflow,
    /// The decoder configuration changed within the track.
    DecoderConfigurationChanged,
    /// The file has been written.
    AlreadyFinalized,
}

/// What the sample tables keep of a sample.
#[derive(Debug, Clone, Copy, PartialEq, Eq, Structural)]
pub struct SampleMeta {
    /// Presentation time, in ticks of the media clock.
    pub pts: u64,
    /// Decode time, in ticks of the media clock.
    pub dts: u64,
    /// Length in bytes.
    pub size: u32,
    pub is_keyframe: bool,
    /// Duration in ticks, once known.
    pub duration: Option<u32>,
}

/// Parameters of a video track.
#[derive(Debug)]
pub struct Mp4VideoTrack {
    pub width: u32,
    pub height: u32,
    pub language: Option<String>,
}

/// Parameters of an audio track.
#[derive(Debug)]
pub struct Mp4AudioTrack {
    pub sample_rate: u32,
    pub channels: u16,
    pub codec: AudioCodec,
    /// The STREAMINFO block of a FLAC track.
    pub flac_streaminfo: Option<Vec<u8>>,
    /// Encoder delay of an Opus track, in 48 kHz samples.
    pub opus_preskip: Option<u16>,
    /// AudioSpecificConfig of an AAC track.
    pub aac_asc_override: Option<Vec<u8>>,
    /// Complete configuration of an Opus track.
    pub opus_config_override: Option<OpusConfig>,
    pub language: Option<String>,
}

/// Parameters of a subtitle track.
#[derive(Debug)]
pub struct Mp4SubtitleTrack {
    pub codec: SubtitleCodec,
    pub language: Option<String>,
    /// Private data of an SSA or ASS track.
    pub codec_private: Option<Vec<u8>>,
}

} // verus!
