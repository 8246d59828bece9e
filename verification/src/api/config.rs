//! Track configurations and statistics.

use vstd::prelude::*;
use crate::api::{AudioCodec, AudioTrackConfig, Metadata, VideoCodec};
use crate::seconds::Seconds;
use crate::time::LanguageCode;

verus! {

/// A number of frames per second: the bits of a double-precision number.
#[derive(Debug, Clone, Copy, PartialEq, Eq, Hash, Structural)]
pub struct FrameRate {
    /// Sign, exponent and fraction, as `f64::to_bits` gives them.
    pub bits: u64,
}

/// Configuration of a video track.
#[derive(Debug, Clone, Copy)]
pub struct VideoTrackConfig {
    pub codec: VideoCodec,
    /// Width in pixels.
    pub width: u32,
    /// Height in pixels.
    pub height: u32,
    /// Frames per second; a hint, the times of the samples decide.
    pub framerate: FrameRate,
    /// Ticks per second.
    pub timescale: u32,
    pub language: LanguageCode,
}

/// What a mux produced.
#[derive(Debug, Clone, Copy, PartialEq, Eq, Structural)]
pub struct MuxerStats {
    pub video_frames: u64,
    pub audio_frames: u64,
    pub subtitle_frames: u64,
    pub duration_secs: Seconds,
    pub bytes_written: u64,
}

/// Ticks per second of an audio track: those of the decoder for Opus, and the
/// sample rate otherwise.
pub open spec fn audio_timescale(codec: AudioCodec, sample_rate: u32) -> u32 {
    if codec is Opus {
        48_000
    } else {
        sample_rate
    }
}

/// The audio track that a choice of codec makes: none for no audio.
pub open spec fn is_audio_choice(
    track: Option<AudioTrackConfig>,
    codec: AudioCodec,
    sample_rate: u32,
    channels: u16,
    language: Seq<u8>,
) -> bool {
    match track {
        None => codec is NoAudio,
        Some(track) => !(codec is NoAudio) && track.codec == codec && track.sample_rate
            == sample_rate && track.channels == channels && track.timescale == audio_timescale(
            codec,
            sample_rate,
        ) && track.language.bytes() == language,
    }
}

/// The letters of the undetermined language.
pub open spec fn undetermined() -> Seq<u8> {
    seq![0x75u8, 0x6E, 0x64]
}

/// The audio track that a choice of codec makes.
pub fn choose_audio(codec: AudioCodec, sample_rate: u32, channels: u16, language: LanguageCode) -> (
    track: Option<AudioTrackConfig>)
    ensures
        is_audio_choice(track, codec, sample_rate, channels, language.bytes()),
{
    let timescale: u32 = match codec {
        AudioCodec::NoAudio => {
            return None;
        },
        AudioCodec::Opus => 48_000,
        _ => sample_rate,
    };
    Some(AudioTrackConfig { codec, sample_rate, channels, timescale, language })
}

/// Simple configuration of a muxer.
#[derive(Debug)]
pub struct MuxerConfig {
    pub width: u32,
    pub height: u32,
    pub framerate: FrameRate,
    pub audio: Option<AudioTrackConfig>,
    pub metadata: Option<Metadata>,
    /// Whether the index comes before the media data.
    pub fast_start: bool,
}

impl MuxerConfig {
    /// A video track alone, with fast start.
    pub fn new(width: u32, height: u32, framerate: FrameRate) -> (config: Self)
        ensures
            config == (MuxerConfig {
                width,
                height,
                framerate,
                audio: None,
                metadata: None,
                fast_start: true,
            }),
    {
        MuxerConfig { width, height, framerate, audio: None, metadata: None, fast_start: true }
    }

    /// Sets the audio track, or removes it.
    pub fn with_audio(self, codec: AudioCodec, sample_rate: u32, channels: u16) -> (config: Self)
        ensures
            config == (MuxerConfig { audio: config.audio, ..self }),
            is_audio_choice(config.audio, codec, sample_rate, channels, undetermined()),
    {
        MuxerConfig {
            audio: choose_audio(codec, sample_rate, channels, LanguageCode::und()),
            ..self
        }
    }

    /// Sets the metadata.
    pub fn with_metadata(self, metadata: Metadata) -> (config: Self)
        ensures
            config == (MuxerConfig { metadata: Some(metadata), ..self }),
    {
        MuxerConfig { metadata: Some(metadata), ..self }
    }

    /// Sets whether the index comes before the media data.
    pub fn with_fast_start(self, enabled: bool) -> (config: Self)
        ensures
            config == (MuxerConfig { fast_start: enabled, ..self }),
    {
        MuxerConfig { fast_start: enabled, ..self }
    }
}

} // verus!
