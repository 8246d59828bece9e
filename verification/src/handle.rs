//! The rules behind the numeric codes of a foreign caller.

use vstd::prelude::*;
use vstd::string::StringExecFns;
use crate::api::builder::{AudioChoice, VideoChoice};
use crate::api::{
    AacProfile, AudioCodec, FrameRate, MuxerBuilder, SubtitleCodec, SubtitleTrackConfig, VideoCodec,
};
use crate::seconds::INFINITY_BITS;
use crate::text::{self, push_decimal};

verus! {

/// Outcome of a call.
#[derive(Debug, Clone, Copy, PartialEq, Eq, Structural)]
pub enum MuxfinStatus {
    Success,
    NullArgument,
    InvalidArgument,
    BuildFailed,
    WriteFailed,
    FinishFailed,
}

impl MuxfinStatus {
    /// The number of an outcome.
    pub open spec fn number(self) -> int {
        match self {
            MuxfinStatus::Success => 0,
            MuxfinStatus::NullArgument => 1,
            MuxfinStatus::InvalidArgument => 2,
            MuxfinStatus::BuildFailed => 3,
            MuxfinStatus::WriteFailed => 4,
            MuxfinStatus::FinishFailed => 5,
        }
    }

    /// The number of an outcome.
    pub fn code(self) -> (code: i32)
        ensures
            code == self.number(),
    {
        match self {
            MuxfinStatus::Success => 0,
            MuxfinStatus::NullArgument => 1,
            MuxfinStatus::InvalidArgument => 2,
            MuxfinStatus::BuildFailed => 3,
            MuxfinStatus::WriteFailed => 4,
            MuxfinStatus::FinishFailed => 5,
        }
    }
}

/// What is wrong with an argument.
#[derive(Debug, Clone, Copy, PartialEq, Eq, Structural)]
pub enum ArgumentFault {
    NullBuilder,
    NullMuxer,
    NullSample,
    EmptySample,
    UnknownVideoCodec(u32),
    UnknownAudioCodec(u32),
    UnknownSubtitleCodec(u32),
    VideoParameters,
    AudioParameters,
    Streaminfo,
    EmptySubtitle,
}

impl ArgumentFault {
    /// The outcome that a fault makes.
    pub open spec fn outcome(self) -> MuxfinStatus {
        match self {
            ArgumentFault::NullBuilder => MuxfinStatus::NullArgument,
            ArgumentFault::NullMuxer => MuxfinStatus::NullArgument,
            ArgumentFault::NullSample => MuxfinStatus::NullArgument,
            _ => MuxfinStatus::InvalidArgument,
        }
    }

    /// The outcome that a fault makes.
    pub fn status(self) -> (status: MuxfinStatus)
        ensures
            status == self.outcome(),
    {
        match self {
            ArgumentFault::NullBuilder => MuxfinStatus::NullArgument,
            ArgumentFault::NullMuxer => MuxfinStatus::NullArgument,
            ArgumentFault::NullSample => MuxfinStatus::NullArgument,
            _ => MuxfinStatus::InvalidArgument,
        }
    }

    /// The message text.
    pub open spec fn text(self) -> Seq<char> {
        match self {
            ArgumentFault::NullBuilder => "null builder handle"@,
            ArgumentFault::NullMuxer => "null muxer handle"@,
            ArgumentFault::NullSample => "null sample data"@,
            ArgumentFault::EmptySample => "empty sample"@,
            ArgumentFault::UnknownVideoCodec(code) => "unknown video codec code "@ + text::decimal(
                code as int,
            ),
            ArgumentFault::UnknownAudioCodec(code) => "unknown audio codec code "@ + text::decimal(
                code as int,
            ),
            ArgumentFault::UnknownSubtitleCodec(code) => "unknown subtitle codec code "@
                + text::decimal(code as int),
            ArgumentFault::VideoParameters =>
                "video dimensions must be non-zero and framerate finite positive"@,
            ArgumentFault::AudioParameters => "audio sample rate and channels must be non-zero"@,
            ArgumentFault::Streaminfo => "FLAC STREAMINFO must be exactly 34 bytes"@,
            ArgumentFault::EmptySubtitle => "null or empty subtitle text"@,
        }
    }

    /// The fault as a message.
    pub fn message(&self) -> (message: String)
        ensures
            message@ == self.text(),
    {
        match *self {
            ArgumentFault::NullBuilder => String::from_str("null builder handle"),
            ArgumentFault::NullMuxer => String::from_str("null muxer handle"),
            ArgumentFault::NullSample => String::from_str("null sample data"),
            ArgumentFault::EmptySample => String::from_str("empty sample"),
            ArgumentFault::UnknownVideoCodec(code) => {
                let mut out = String::from_str("unknown video codec code ");
                push_decimal(&mut out, code as u64);
                out
            },
            ArgumentFault::UnknownAudioCodec(code) => {
                let mut out = String::from_str("unknown audio codec code ");
                push_decimal(&mut out, code as u64);
                out
            },
            ArgumentFault::UnknownSubtitleCodec(code) => {
                let mut out = String::from_str("unknown subtitle codec code ");
                push_decimal(&mut out, code as u64);
                out
            },
            ArgumentFault::VideoParameters => String::from_str(
                "video dimensions must be non-zero and framerate finite positive",
            ),
            ArgumentFault::AudioParameters => String::from_str(
                "audio sample rate and channels must be non-zero",
            ),
            ArgumentFault::Streaminfo => String::from_str(
                "FLAC STREAMINFO must be exactly 34 bytes",
            ),
            ArgumentFault::EmptySubtitle => String::from_str("null or empty subtitle text"),
        }
    }
}

/// The video codec with a code.
pub open spec fn video_with_code(code: u32) -> Option<VideoCodec> {
    match code {
        0 => Some(VideoCodec::H264),
        1 => Some(VideoCodec::H265),
        2 => Some(VideoCodec::Av1),
        3 => Some(VideoCodec::Vp9),
        _ => None,
    }
}

/// The audio codec with a code.
pub open spec fn audio_with_code(code: u32) -> Option<AudioCodec> {
    match code {
        0 => Some(AudioCodec::Aac(AacProfile::Lc)),
        1 => Some(AudioCodec::Aac(AacProfile::Main)),
        2 => Some(AudioCodec::Aac(AacProfile::Ssr)),
        3 => Some(AudioCodec::Aac(AacProfile::Ltp)),
        4 => Some(AudioCodec::Aac(AacProfile::He)),
        5 => Some(AudioCodec::Aac(AacProfile::Hev2)),
        10 => Some(AudioCodec::Opus),
        11 => Some(AudioCodec::Flac),
        _ => None,
    }
}

/// The subtitle codec with a code.
pub open spec fn subtitle_with_code(code: u32) -> Option<SubtitleCodec> {
    match code {
        0 => Some(SubtitleCodec::MovText),
        1 => Some(SubtitleCodec::WebVtt),
        2 => Some(SubtitleCodec::Ssa),
        3 => Some(SubtitleCodec::Ass),
        _ => None,
    }
}

/// The video codec with a code.
pub fn decode_video(codec: u32) -> (result: Result<VideoCodec, ArgumentFault>)
    ensures
        match result {
            Ok(found) => video_with_code(codec) == Some(found),
            Err(fault) => video_with_code(codec) is None && fault
                == ArgumentFault::UnknownVideoCodec(codec),
        },
{
    match codec {
        0 => Ok(VideoCodec::H264),
        1 => Ok(VideoCodec::H265),
        2 => Ok(VideoCodec::Av1),
        3 => Ok(VideoCodec::Vp9),
        _ => Err(ArgumentFault::UnknownVideoCodec(codec)),
    }
}

/// The audio codec with a code.
pub fn decode_audio(codec: u32) -> (result: Result<AudioCodec, ArgumentFault>)
    ensures
        match result {
            Ok(found) => audio_with_code(codec) == Some(found),
            Err(fault) => audio_with_code(codec) is None && fault
                == ArgumentFault::UnknownAudioCodec(codec),
        },
{
    match codec {
        0 => Ok(AudioCodec::Aac(AacProfile::Lc)),
        1 => Ok(AudioCodec::Aac(AacProfile::Main)),
        2 => Ok(AudioCodec::Aac(AacProfile::Ssr)),
        3 => Ok(AudioCodec::Aac(AacProfile::Ltp)),
        4 => Ok(AudioCodec::Aac(AacProfile::He)),
        5 => Ok(AudioCodec::Aac(AacProfile::Hev2)),
        10 => Ok(AudioCodec::Opus),
        11 => Ok(AudioCodec::Flac),
        _ => Err(ArgumentFault::UnknownAudioCodec(codec)),
    }
}

/// The subtitle codec with a code.
pub fn decode_subtitle(codec: u32) -> (result: Result<SubtitleCodec, ArgumentFault>)
    ensures
        match result {
            Ok(found) => subtitle_with_code(codec) == Some(found),
            Err(fault) => subtitle_with_code(codec) is None && fault
                == ArgumentFault::UnknownSubtitleCodec(codec),
        },
{
    match codec {
        0 => Ok(SubtitleCodec::MovText),
        1 => Ok(SubtitleCodec::WebVtt),
        2 => Ok(SubtitleCodec::Ssa),
        3 => Ok(SubtitleCodec::Ass),
        _ => Err(ArgumentFault::UnknownSubtitleCodec(codec)),
    }
}

/// What is wrong with the arguments for a video track, if anything.
pub open spec fn video_fault(
    codec: u32,
    width: u32,
    height: u32,
    framerate: FrameRate,
) -> Option<ArgumentFault> {
    if video_with_code(codec) is None {
        Some(ArgumentFault::UnknownVideoCodec(codec))
    } else if width == 0 || height == 0 || framerate.bits == 0 || framerate.bits
        >= INFINITY_BITS {
        Some(ArgumentFault::VideoParameters)
    } else {
        None
    }
}

/// What is wrong with the arguments for an audio track, if anything.
pub open spec fn audio_fault(codec: u32, sample_rate: u32, channels: u16) -> Option<ArgumentFault> {
    if audio_with_code(codec) is None {
        Some(ArgumentFault::UnknownAudioCodec(codec))
    } else if sample_rate == 0 || channels == 0 {
        Some(ArgumentFault::AudioParameters)
    } else {
        None
    }
}

/// Choices of a foreign caller.
#[derive(Debug)]
pub struct MuxfinBuilderHandle {
    pub video: Option<VideoChoice>,
    pub audio: Option<AudioChoice>,
    pub subtitle: Option<SubtitleTrackConfig>,
    pub flac_streaminfo: Option<Vec<u8>>,
    pub fast_start: bool,
}

/// Length of a STREAMINFO block.
pub const STREAMINFO_BYTES: usize = 34;

impl MuxfinBuilderHandle {
    /// Nothing chosen, with fast start.
    pub fn new() -> (handle: Self)
        ensures
            handle == (MuxfinBuilderHandle {
                video: None,
                audio: None,
                subtitle: None,
                flac_streaminfo: None,
                fast_start: true,
            }),
    {
        MuxfinBuilderHandle {
            video: None,
            audio: None,
            subtitle: None,
            flac_streaminfo: None,
            fast_start: true,
        }
    }

    /// Sets the video track.
    pub fn set_video(&mut self, codec: u32, width: u32, height: u32, framerate: FrameRate) -> (
        result: Result<(), ArgumentFault>)
        ensures
            match result {
                Ok(_) => video_fault(codec, width, height, framerate) is None && *final(self)
                    == (MuxfinBuilderHandle {
                    video: Some(
                        VideoChoice { codec: video_with_code(codec)->0, width, height, framerate },
                    ),
                    ..*old(self)
                }),
                Err(fault) => video_fault(codec, width, height, framerate) == Some(fault)
                    && *final(self) == *old(self),
            },
    {
        let codec: VideoCodec = match decode_video(codec) {
            Ok(codec) => codec,
            Err(fault) => return Err(fault),
        };
        if width == 0 || height == 0 || framerate.bits == 0 || framerate.bits >= INFINITY_BITS {
            return Err(ArgumentFault::VideoParameters);
        }
        self.video = Some(VideoChoice { codec, width, height, framerate });
        Ok(())
    }

    /// Sets the audio track.
    pub fn set_audio(&mut self, codec: u32, sample_rate: u32, channels: u16) -> (result: Result<
        (),
        ArgumentFault,
    >)
        ensures
            match result {
                Ok(_) => audio_fault(codec, sample_rate, channels) is None && *final(self)
                    == (MuxfinBuilderHandle {
                    audio: Some(
                        AudioChoice { codec: audio_with_code(codec)->0, sample_rate, channels },
                    ),
                    ..*old(self)
                }),
                Err(fault) => audio_fault(codec, sample_rate, channels) == Some(fault)
                    && *final(self) == *old(self),
            },
    {
        let codec: AudioCodec = match decode_audio(codec) {
            Ok(codec) => codec,
            Err(fault) => return Err(fault),
        };
        if sample_rate == 0 || channels == 0 {
            return Err(ArgumentFault::AudioParameters);
        }
        self.audio = Some(AudioChoice { codec, sample_rate, channels });
        Ok(())
    }

    /// Sets the STREAMINFO block.
    pub fn set_flac_streaminfo(&mut self, data: &[u8]) -> (result: Result<(), ArgumentFault>)
        ensures
            match result {
                Ok(_) => data@.len() == STREAMINFO_BYTES && (
                final(self).flac_streaminfo matches Some(kept) && kept@ == data@) && *final(self)
                    == (MuxfinBuilderHandle {
                    flac_streaminfo: final(self).flac_streaminfo,
                    ..*old(self)
                }),
                Err(fault) => data@.len() != STREAMINFO_BYTES && fault
                    == ArgumentFault::Streaminfo && *final(self) == *old(self),
            },
    {
        if data.len() != STREAMINFO_BYTES {
            return Err(ArgumentFault::Streaminfo);
        }
        self.flac_streaminfo = Some(vstd::slice::slice_to_vec(data));
        Ok(())
    }

    /// Sets the subtitle track, in milliseconds.
    pub fn set_subtitle(&mut self, codec: u32, language: Option<String>) -> (result: Result<
        (),
        ArgumentFault,
    >)
        ensures
            match result {
                Ok(_) => subtitle_with_code(codec) matches Some(found) && *final(self)
                    == (MuxfinBuilderHandle {
                    subtitle: Some(
                        SubtitleTrackConfig { codec: found, language, timescale: 1_000 },
                    ),
                    ..*old(self)
                }),
                Err(fault) => subtitle_with_code(codec) is None && fault
                    == ArgumentFault::UnknownSubtitleCodec(codec) && *final(self) == *old(self),
            },
    {
        let codec: SubtitleCodec = match decode_subtitle(codec) {
            Ok(codec) => codec,
            Err(fault) => return Err(fault),
        };
        self.subtitle = Some(SubtitleTrackConfig { codec, language, timescale: 1_000 });
        Ok(())
    }

    /// Sets whether the index comes before the media data.
    pub fn set_fast_start(&mut self, enabled: bool)
        ensures
            *final(self) == (MuxfinBuilderHandle { fast_start: enabled, ..*old(self) }),
    {
        self.fast_start = enabled;
    }

    /// A builder with the choices.
    pub fn apply_builder(self, builder: MuxerBuilder) -> (applied: MuxerBuilder)
        ensures
            applied == (MuxerBuilder {
                video: if self.video is Some {
                    self.video
                } else {
                    builder.video
                },
                audio: if self.audio is Some {
                    self.audio
                } else {
                    builder.audio
                },
                subtitle: if self.subtitle is Some {
                    self.subtitle
                } else {
                    builder.subtitle
                },
                flac_streaminfo: if self.flac_streaminfo is Some {
                    self.flac_streaminfo
                } else {
                    builder.flac_streaminfo
                },
                fast_start: self.fast_start,
                ..builder
            }),
    {
        let mut applied = builder;
        if self.video.is_some() {
            applied.video = self.video;
        }
        if self.audio.is_some() {
            applied.audio = self.audio;
        }
        if self.subtitle.is_some() {
            applied.subtitle = self.subtitle;
        }
        if self.flac_streaminfo.is_some() {
            applied.flac_streaminfo = self.flac_streaminfo;
        }
        applied.fast_start = self.fast_start;
        applied
    }
}

/// What is wrong with sample data, if anything; `len` is its length where
/// there is any.
pub open spec fn sample_fault(len: Option<usize>) -> Option<ArgumentFault> {
    match len {
        None => Some(ArgumentFault::NullSample),
        Some(len) => if len == 0 {
            Some(ArgumentFault::EmptySample)
        } else {
            None
        },
    }
}

/// Rules out sample data.
pub fn check_sample(len: Option<usize>) -> (fault: Option<ArgumentFault>)
    ensures
        fault == sample_fault(len),
{
    match len {
        None => Some(ArgumentFault::NullSample),
        Some(len) => if len == 0 {
            Some(ArgumentFault::EmptySample)
        } else {
            None
        },
    }
}

} // verus!
