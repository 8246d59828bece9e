//! What the options of a mux ask for, and whether they go together.

use vstd::prelude::*;
use vstd::string::StringExecFns;
use crate::api::builder::{AudioChoice, VideoChoice};
use crate::api::{AacProfile, AudioCodec, ContainerFormat, FrameRate, VideoCodec};
use crate::tool::boxes::{FLAC_MAGIC, OGG_MAGIC};
use crate::wire::{self, starts_with};

verus! {

/// A container of a single audio track.
#[derive(Debug, Clone, Copy, PartialEq, Eq, Structural)]
pub enum AudioContainer {
    Ogg,
    Flac,
}

/// The audio container that starts with some bytes.
pub open spec fn container_of(head: Seq<u8>) -> Option<AudioContainer> {
    if wire::begins_with(head, OGG_MAGIC@) {
        Some(AudioContainer::Ogg)
    } else if wire::begins_with(head, FLAC_MAGIC@) {
        Some(AudioContainer::Flac)
    } else {
        None
    }
}

/// The audio container that starts with some bytes.
pub fn detect_audio_container(head: &[u8]) -> (container: Option<AudioContainer>)
    ensures
        container == container_of(head@),
{
    if starts_with(head, &OGG_MAGIC) {
        return Some(AudioContainer::Ogg);
    }
    if starts_with(head, &FLAC_MAGIC) {
        return Some(AudioContainer::Flac);
    }
    None
}

/// What an audio input says of itself.
#[derive(Debug, Clone, Copy, PartialEq, Eq, Structural)]
pub enum AudioSource {
    OggOpus { channels: u8 },
    Flac { sample_rate: u32, channels: u8 },
    /// A frame without a container.
    Raw,
}

/// The options of a mux.
#[derive(Debug, Clone, Copy)]
pub struct MuxRequest {
    pub has_video: bool,
    pub has_audio: bool,
    pub width: Option<u32>,
    pub height: Option<u32>,
    pub fps: Option<FrameRate>,
    pub video_codec: Option<VideoCodec>,
    pub audio_codec: Option<AudioCodec>,
    pub sample_rate: Option<u32>,
    pub channels: Option<u8>,
    pub format: ContainerFormat,
    pub fragmented: bool,
    pub output_exists: bool,
    pub overwrite: bool,
    pub dry_run: bool,
}

/// Why the options do not go together.
#[derive(Debug, Clone, Copy, PartialEq, Eq, Structural)]
pub enum MuxRefusal {
    OutputExists,
    NoInput,
    VideoParametersMissing,
    Fragmented,
    NotOggOpus(AudioCodec),
    NotFlac(AudioCodec),
    AudioParametersMissing,
    VideoInOgg,
    VideoInFlac,
}

impl MuxRefusal {
    /// The message text; `output` is the path of the output.
    pub open spec fn text(self, output: Seq<char>) -> Seq<char> {
        match self {
            MuxRefusal::OutputExists => "output "@ + output
                + " exists (use --overwrite to replace)"@,
            MuxRefusal::NoInput => "At least one of --video or --audio must be specified"@,
            MuxRefusal::VideoParametersMissing =>
                "Video parameters --width, --height, and --fps are required when using --video"@,
            MuxRefusal::Fragmented =>
                "Fragmented output is not yet supported in the CLI. Use the library API with FragmentedMuxer."@,
            MuxRefusal::NotOggOpus(codec) => "--audio-codec "@ + codec.name_text()
                + " conflicts with Ogg Opus input"@,
            MuxRefusal::NotFlac(codec) => "--audio-codec "@ + codec.name_text()
                + " conflicts with FLAC input"@,
            MuxRefusal::AudioParametersMissing =>
                "--sample-rate and --channels are required for raw audio input (not needed for .ogg/.flac)"@,
            MuxRefusal::VideoInOgg =>
                "Ogg output carries Opus audio only; omit --video or use --format mp4/mkv/webm"@,
            MuxRefusal::VideoInFlac =>
                "FLAC output carries FLAC audio only; omit --video or use --format mp4/mkv/webm"@,
        }
    }

    /// The refusal as a message.
    pub fn message(&self, output: &str) -> (message: String)
        ensures
            message@ == self.text(output@),
    {
        match *self {
            MuxRefusal::OutputExists => {
                let mut out = String::from_str("output ");
                out.append(output);
                out.append(" exists (use --overwrite to replace)");
                out
            },
            MuxRefusal::NoInput => String::from_str(
                "At least one of --video or --audio must be specified",
            ),
            MuxRefusal::VideoParametersMissing => String::from_str(
                "Video parameters --width, --height, and --fps are required when using --video",
            ),
            MuxRefusal::Fragmented => String::from_str(
                "Fragmented output is not yet supported in the CLI. Use the library API with FragmentedMuxer.",
            ),
            MuxRefusal::NotOggOpus(codec) => {
                let mut out = String::from_str("--audio-codec ");
                out.append(codec.name());
                out.append(" conflicts with Ogg Opus input");
                out
            },
            MuxRefusal::NotFlac(codec) => {
                let mut out = String::from_str("--audio-codec ");
                out.append(codec.name());
                out.append(" conflicts with FLAC input");
                out
            },
            MuxRefusal::AudioParametersMissing => String::from_str(
                "--sample-rate and --channels are required for raw audio input (not needed for .ogg/.flac)",
            ),
            MuxRefusal::VideoInOgg => String::from_str(
                "Ogg output carries Opus audio only; omit --video or use --format mp4/mkv/webm",
            ),
            MuxRefusal::VideoInFlac => String::from_str(
                "FLAC output carries FLAC audio only; omit --video or use --format mp4/mkv/webm",
            ),
        }
    }
}

/// What is wrong with the options before any input is read, if anything.
pub open spec fn request_fault(request: MuxRequest) -> Option<MuxRefusal> {
    if request.output_exists && !request.overwrite && !request.dry_run {
        Some(MuxRefusal::OutputExists)
    } else if !request.has_video && !request.has_audio {
        Some(MuxRefusal::NoInput)
    } else if request.has_video && (request.width is None || request.height is None
        || request.fps is None) {
        Some(MuxRefusal::VideoParametersMissing)
    } else {
        None
    }
}

/// Rules out options before any input is read.
pub fn check_request(request: &MuxRequest) -> (fault: Option<MuxRefusal>)
    ensures
        fault == request_fault(*request),
{
    if request.output_exists && !request.overwrite && !request.dry_run {
        return Some(MuxRefusal::OutputExists);
    }
    if !request.has_video && !request.has_audio {
        return Some(MuxRefusal::NoInput);
    }
    if request.has_video && (request.width.is_none() || request.height.is_none()
        || request.fps.is_none()) {
        return Some(MuxRefusal::VideoParametersMissing);
    }
    None
}

/// A number of channels with more bits.
pub open spec fn or_channels(chosen: Option<u8>, own: u8) -> u16 {
    match chosen {
        Some(channels) => channels as u16,
        None => own as u16,
    }
}

/// The audio track for an input, or why the options do not fit it. Options
/// take precedence over what a container says.
pub open spec fn audio_track_of(request: MuxRequest, source: AudioSource) -> Result<
    AudioChoice,
    MuxRefusal,
> {
    match source {
        AudioSource::OggOpus { channels } => if request.audio_codec matches Some(flag) && flag
            != AudioCodec::Opus {
            Err(MuxRefusal::NotOggOpus(request.audio_codec->0))
        } else {
            Ok(
                AudioChoice {
                    codec: AudioCodec::Opus,
                    sample_rate: match request.sample_rate {
                        Some(rate) => rate,
                        None => 48_000,
                    },
                    channels: or_channels(request.channels, channels),
                },
            )
        },
        AudioSource::Flac { sample_rate, channels } => if request.audio_codec matches Some(flag)
            && flag != AudioCodec::Flac {
            Err(MuxRefusal::NotFlac(request.audio_codec->0))
        } else {
            Ok(
                AudioChoice {
                    codec: AudioCodec::Flac,
                    sample_rate: match request.sample_rate {
                        Some(rate) => rate,
                        None => sample_rate,
                    },
                    channels: or_channels(request.channels, channels),
                },
            )
        },
        AudioSource::Raw => match (request.sample_rate, request.channels) {
            (Some(sample_rate), Some(channels)) => Ok(
                AudioChoice {
                    codec: match request.audio_codec {
                        Some(codec) => codec,
                        None => AudioCodec::Aac(AacProfile::Lc),
                    },
                    sample_rate,
                    channels: channels as u16,
                },
            ),
            _ => Err(MuxRefusal::AudioParametersMissing),
        },
    }
}

/// The tracks of a mux.
#[derive(Debug, Clone, Copy, PartialEq, Eq, Structural)]
pub struct TrackPlan {
    pub video: Option<VideoChoice>,
    pub audio: Option<AudioChoice>,
}

/// The tracks that the options and the audio input ask for, or why there are
/// none. Video is H.264 unless a codec is named.
pub open spec fn planned(request: MuxRequest, source: Option<AudioSource>) -> Result<
    TrackPlan,
    MuxRefusal,
> {
    let video = match (request.width, request.height, request.fps) {
        (Some(width), Some(height), Some(framerate)) => if request.has_video {
            Some(
                VideoChoice {
                    codec: match request.video_codec {
                        Some(codec) => codec,
                        None => VideoCodec::H264,
                    },
                    width,
                    height,
                    framerate,
                },
            )
        } else {
            None
        },
        _ => None,
    };
    if request.fragmented {
        Err(MuxRefusal::Fragmented)
    } else if source matches Some(source) && audio_track_of(request, source) is Err {
        Err(audio_track_of(request, source->0)->Err_0)
    } else if request.has_video && request.format is Ogg {
        Err(MuxRefusal::VideoInOgg)
    } else if request.has_video && request.format is Flac {
        Err(MuxRefusal::VideoInFlac)
    } else {
        Ok(
            TrackPlan {
                video,
                audio: match source {
                    Some(source) => Some(audio_track_of(request, source)->Ok_0),
                    None => None,
                },
            },
        )
    }
}

fn choose_channels(chosen: Option<u8>, own: u8) -> (channels: u16)
    ensures
        channels == or_channels(chosen, own),
{
    match chosen {
        Some(channels) => channels as u16,
        None => own as u16,
    }
}

/// The audio track for an input.
pub fn choose_audio_track(request: &MuxRequest, source: AudioSource) -> (result: Result<
    AudioChoice,
    MuxRefusal,
>)
    ensures
        result == audio_track_of(*request, source),
{
    match source {
        AudioSource::OggOpus { channels } => {
            match request.audio_codec {
                Some(flag) => if flag != AudioCodec::Opus {
                    return Err(MuxRefusal::NotOggOpus(flag));
                },
                None => {},
            }
            let sample_rate: u32 = match request.sample_rate {
                Some(rate) => rate,
                None => 48_000,
            };
            let channels: u16 = choose_channels(request.channels, channels);
            Ok(AudioChoice { codec: AudioCodec::Opus, sample_rate, channels })
        },
        AudioSource::Flac { sample_rate, channels } => {
            match request.audio_codec {
                Some(flag) => if flag != AudioCodec::Flac {
                    return Err(MuxRefusal::NotFlac(flag));
                },
                None => {},
            }
            let sample_rate: u32 = match request.sample_rate {
                Some(rate) => rate,
                None => sample_rate,
            };
            let channels: u16 = choose_channels(request.channels, channels);
            Ok(AudioChoice { codec: AudioCodec::Flac, sample_rate, channels })
        },
        AudioSource::Raw => match (request.sample_rate, request.channels) {
            (Some(sample_rate), Some(channels)) => {
                let codec: AudioCodec = match request.audio_codec {
                    Some(codec) => codec,
                    None => AudioCodec::Aac(AacProfile::Lc),
                };
                Ok(AudioChoice { codec, sample_rate, channels: channels as u16 })
            },
            _ => Err(MuxRefusal::AudioParametersMissing),
        },
    }
}

/// The tracks that the options and the audio input ask for.
pub fn plan_tracks(request: &MuxRequest, source: Option<AudioSource>) -> (result: Result<
    TrackPlan,
    MuxRefusal,
>)
    ensures
        result == planned(*request, source),
{
    if request.fragmented {
        return Err(MuxRefusal::Fragmented);
    }
    let audio: Option<AudioChoice> = match source {
        Some(source) => match choose_audio_track(request, source) {
            Ok(track) => Some(track),
            Err(refusal) => return Err(refusal),
        },
        None => None,
    };
    if request.has_video {
        match request.format {
            ContainerFormat::Ogg => return Err(MuxRefusal::VideoInOgg),
            ContainerFormat::Flac => return Err(MuxRefusal::VideoInFlac),
            _ => {},
        }
    }
    let video: Option<VideoChoice> = match (request.width, request.height, request.fps) {
        (Some(width), Some(height), Some(framerate)) => if request.has_video {
            let codec: VideoCodec = match request.video_codec {
                Some(codec) => codec,
                None => VideoCodec::H264,
            };
            Some(VideoChoice { codec, width, height, framerate })
        } else {
            None
        },
        _ => None,
    };
    Ok(TrackPlan { video, audio })
}

/// Smallest and largest picture of a mux.
pub const MIN_WIDTH: u32 = 320;
pub const MIN_HEIGHT: u32 = 240;
pub const MAX_WIDTH: u32 = 4096;
pub const MAX_HEIGHT: u32 = 2160;

/// The bits of 120 frames per second, the highest rate of a mux.
pub const MAX_RATE_BITS: u64 = 0x405E_0000_0000_0000;

/// Highest audio sample rate of a mux.
pub const MAX_SAMPLE_RATE: u32 = 192_000;

/// Most audio channels of a mux.
pub const MAX_CHANNELS: u16 = 8;

/// What a planned track has that none should have.
#[derive(Debug, Clone, Copy, PartialEq, Eq, Structural)]
pub enum TrackBreach {
    Dimensions,
    Rate,
    AudioCodec,
    SampleRate,
    Channels,
}

impl TrackBreach {
    /// The message text.
    pub open spec fn text(self) -> Seq<char> {
        match self {
            TrackBreach::Dimensions =>
                "Video dimensions must be within reasonable limits (320x240 to 4096x2160)"@,
            TrackBreach::Rate => "Frame rate must be positive and within reasonable limits"@,
            TrackBreach::AudioCodec => "Audio codec must be one of the supported variants"@,
            TrackBreach::SampleRate =>
                "Audio sample rate must be positive and within reasonable limits"@,
            TrackBreach::Channels =>
                "Audio channels must be positive and within reasonable limits"@,
        }
    }

    /// The breach as a message.
    pub fn message(self) -> (message: &'static str)
        ensures
            message@ == self.text(),
    {
        match self {
            TrackBreach::Dimensions =>
                "Video dimensions must be within reasonable limits (320x240 to 4096x2160)",
            TrackBreach::Rate => "Frame rate must be positive and within reasonable limits",
            TrackBreach::AudioCodec => "Audio codec must be one of the supported variants",
            TrackBreach::SampleRate =>
                "Audio sample rate must be positive and within reasonable limits",
            TrackBreach::Channels =>
                "Audio channels must be positive and within reasonable limits",
        }
    }
}

/// What a video track has that none should have, if anything. The bits of
/// positive rates are in the order of the rates.
pub open spec fn video_breach(video: VideoChoice) -> Option<TrackBreach> {
    if video.width < MIN_WIDTH || video.height < MIN_HEIGHT || video.width > MAX_WIDTH
        || video.height > MAX_HEIGHT {
        Some(TrackBreach::Dimensions)
    } else if video.framerate.bits == 0 || video.framerate.bits > MAX_RATE_BITS {
        Some(TrackBreach::Rate)
    } else {
        None
    }
}

/// What an audio track has that none should have, if anything.
pub open spec fn audio_breach(audio: AudioChoice) -> Option<TrackBreach> {
    if audio.codec is NoAudio {
        Some(TrackBreach::AudioCodec)
    } else if audio.sample_rate == 0 || audio.sample_rate > MAX_SAMPLE_RATE {
        Some(TrackBreach::SampleRate)
    } else if audio.channels == 0 || audio.channels > MAX_CHANNELS {
        Some(TrackBreach::Channels)
    } else {
        None
    }
}

/// What the planned tracks have that none should have, if anything; of two
/// tracks the video counts first.
pub open spec fn plan_breach(plan: TrackPlan) -> Option<TrackBreach> {
    if plan.video matches Some(video) && video_breach(video) is Some {
        video_breach(plan.video->0)
    } else {
        match plan.audio {
            Some(audio) => audio_breach(audio),
            None => None,
        }
    }
}

/// Looks for what no track should have.
pub fn check_plan(plan: &TrackPlan) -> (breach: Option<TrackBreach>)
    ensures
        breach == plan_breach(*plan),
{
    match plan.video {
        Some(video) => {
            if video.width < MIN_WIDTH || video.height < MIN_HEIGHT || video.width > MAX_WIDTH
                || video.height > MAX_HEIGHT {
                return Some(TrackBreach::Dimensions);
            }
            if video.framerate.bits == 0 || video.framerate.bits > MAX_RATE_BITS {
                return Some(TrackBreach::Rate);
            }
        },
        None => {},
    }
    match plan.audio {
        Some(audio) => {
            match audio.codec {
                AudioCodec::NoAudio => return Some(TrackBreach::AudioCodec),
                _ => {},
            }
            if audio.sample_rate == 0 || audio.sample_rate > MAX_SAMPLE_RATE {
                return Some(TrackBreach::SampleRate);
            }
            if audio.channels == 0 || audio.channels > MAX_CHANNELS {
                return Some(TrackBreach::Channels);
            }
        },
        None => {},
    }
    None
}

} // verus!
