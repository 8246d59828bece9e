//! Errors of configuring a muxer and of writing samples, and their messages.

use vstd::prelude::*;
use vstd::string::StringExecFns;
use crate::api::{AudioCodec, ContainerFormat, SubtitleCodec, VideoCodec};
use crate::codec::opus::OpusConfigError;
use crate::muxer::flac::FlacWriterError;
use crate::muxer::mkv::MkvWriterError;
use crate::muxer::ogg::OggWriterError;
use crate::seconds::Seconds;
use crate::text::{self, push_decimal, push_signed_decimal};

verus! {

/// A codec that an error names.
#[derive(Debug, Clone, Copy, PartialEq, Eq, Structural)]
pub enum CodecLabel {
    Video(VideoCodec),
    Audio(AudioCodec),
    Subtitle(SubtitleCodec),
}

impl CodecLabel {
    /// The name of the codec.
    pub open spec fn name_text(self) -> Seq<char> {
        match self {
            CodecLabel::Video(codec) => codec.name_text(),
            CodecLabel::Audio(codec) => codec.name_text(),
            CodecLabel::Subtitle(codec) => codec.name_text(),
        }
    }

    /// The name of the codec.
    pub fn name(self) -> (name: &'static str)
        ensures
            name@ == self.name_text(),
    {
        match self {
            CodecLabel::Video(codec) => codec.name(),
            CodecLabel::Audio(codec) => codec.name(),
            CodecLabel::Subtitle(codec) => codec.name(),
        }
    }
}

/// The codec that a container does not take.
#[derive(Debug, Clone, Copy, PartialEq, Eq, Structural)]
pub enum RejectedCodec {
    /// This one.
    Named(CodecLabel),
    /// One of those configured.
    Configured,
}

/// Why a container does not take a codec.
#[derive(Debug, Clone, Copy, PartialEq, Eq)]
pub enum RejectReason {
    /// For the reason given.
    Because(&'static str),
    /// Because the codec is not on the list of WebM.
    NotInWebM { codec: CodecLabel, reason: &'static str },
}

/// An input that a muxer cannot use, with a message of its own.
#[derive(Debug, Clone, Copy, PartialEq, Eq)]
pub enum InputFault {
    MissingFlacStreaminfo,
    InvalidFlacStreaminfo,
    MatroskaFlacStreaminfo,
    StreaminfoNotProvided,
    DurationOverflow,
    VideoNotConfigured,
    H264SpsMissing,
    H264PpsMissing,
    H265VpsMissing,
    H265SpsMissing,
    H265PpsMissing,
    Av1SequenceHeaderMissing,
    Vp9ConfigMissing,
    ConfigWithoutVideoTrack,
    NoAudioTrack,
    StreamingFinished,
    /// The bytes of a sample did not reach the file.
    NotWritten,
    AssCodecPrivateMissing,
    /// The Matroska writer does not take it.
    Matroska(MkvWriterError),
    /// The Ogg writer does not take it.
    Ogg(OggWriterError),
    /// The FLAC writer does not take it.
    Flac(FlacWriterError),
    /// The track parameters are not those of STREAMINFO.
    FlacParametersDisagree { sample_rate: u32, channels: u16, info_rate: u32, info_channels: u8 },
}

impl InputFault {
    /// The message text.
    pub open spec fn text(self) -> Seq<char> {
        match self {
            InputFault::MissingFlacStreaminfo =>
                "FLAC STREAMINFO must be provided for FLAC audio using with_flac_streaminfo()"@,
            InputFault::InvalidFlacStreaminfo =>
                "FLAC STREAMINFO must be a valid 34-byte STREAMINFO block"@,
            InputFault::MatroskaFlacStreaminfo =>
                "valid FLAC STREAMINFO (34 bytes) must be provided for FLAC audio using with_flac_streaminfo()"@,
            InputFault::StreaminfoNotProvided =>
                "FLAC STREAMINFO must be provided using with_flac_streaminfo()"@,
            InputFault::DurationOverflow =>
                "duration overflow"@,
            InputFault::VideoNotConfigured =>
                "video track not configured"@,
            InputFault::H264SpsMissing =>
                "SPS must be provided for H.264 fragmented MP4 using with_sps()"@,
            InputFault::H264PpsMissing =>
                "PPS must be provided for H.264 fragmented MP4 using with_pps()"@,
            InputFault::H265VpsMissing =>
                "VPS must be provided for H.265 fragmented MP4 using with_vps()"@,
            InputFault::H265SpsMissing =>
                "SPS must be provided for H.265 fragmented MP4 using with_sps()"@,
            InputFault::H265PpsMissing =>
                "PPS must be provided for H.265 fragmented MP4 using with_pps()"@,
            InputFault::Av1SequenceHeaderMissing =>
                "AV1 sequence header must be provided for AV1 fragmented MP4 using with_av1_sequence_header()"@,
            InputFault::Vp9ConfigMissing =>
                "VP9 config must be provided for VP9 fragmented MP4 using with_vp9_config()"@,
            InputFault::ConfigWithoutVideoTrack =>
                "video config extracted but no video track provided"@,
            InputFault::NoAudioTrack =>
                "no audio track configured"@,
            InputFault::StreamingFinished =>
                "streaming writer already finished"@,
            InputFault::NotWritten => "sample bytes could not be written"@,
            InputFault::AssCodecPrivateMissing =>
                "ASS/SSA subtitles need the script header as CodecPrivate: call .with_ass_codec_private()"@,
            InputFault::Matroska(error) => error.text(),
            InputFault::Ogg(error) => error.text(),
            InputFault::Flac(error) => error.text(),
            InputFault::FlacParametersDisagree {
                sample_rate,
                channels,
                info_rate,
                info_channels,
            } => "FLAC track parameters ("@ + text::decimal(sample_rate as int) + " Hz, "@ + text::decimal(
                channels as int,
            ) + " ch) disagree with STREAMINFO ("@ + text::decimal(info_rate as int) + " Hz, "@
                + text::decimal(info_channels as int) + " ch)"@,
        }
    }

    /// The fault as a message.
    pub fn message(&self) -> (text: String)
        ensures
            text@ == self.text(),
    {
        match *self {
            InputFault::MissingFlacStreaminfo => String::from_str(
                "FLAC STREAMINFO must be provided for FLAC audio using with_flac_streaminfo()",
            ),
            InputFault::InvalidFlacStreaminfo => String::from_str(
                "FLAC STREAMINFO must be a valid 34-byte STREAMINFO block",
            ),
            InputFault::MatroskaFlacStreaminfo => String::from_str(
                "valid FLAC STREAMINFO (34 bytes) must be provided for FLAC audio using with_flac_streaminfo()",
            ),
            InputFault::StreaminfoNotProvided => String::from_str(
                "FLAC STREAMINFO must be provided using with_flac_streaminfo()",
            ),
            InputFault::DurationOverflow => String::from_str(
                "duration overflow",
            ),
            InputFault::VideoNotConfigured => String::from_str(
                "video track not configured",
            ),
            InputFault::H264SpsMissing => String::from_str(
                "SPS must be provided for H.264 fragmented MP4 using with_sps()",
            ),
            InputFault::H264PpsMissing => String::from_str(
                "PPS must be provided for H.264 fragmented MP4 using with_pps()",
            ),
            InputFault::H265VpsMissing => String::from_str(
                "VPS must be provided for H.265 fragmented MP4 using with_vps()",
            ),
            InputFault::H265SpsMissing => String::from_str(
                "SPS must be provided for H.265 fragmented MP4 using with_sps()",
            ),
            InputFault::H265PpsMissing => String::from_str(
                "PPS must be provided for H.265 fragmented MP4 using with_pps()",
            ),
            InputFault::Av1SequenceHeaderMissing => String::from_str(
                "AV1 sequence header must be provided for AV1 fragmented MP4 using with_av1_sequence_header()",
            ),
            InputFault::Vp9ConfigMissing => String::from_str(
                "VP9 config must be provided for VP9 fragmented MP4 using with_vp9_config()",
            ),
            InputFault::ConfigWithoutVideoTrack => String::from_str(
                "video config extracted but no video track provided",
            ),
            InputFault::NoAudioTrack => String::from_str(
                "no audio track configured",
            ),
            InputFault::StreamingFinished => String::from_str(
                "streaming writer already finished",
            ),
            InputFault::NotWritten => String::from_str("sample bytes could not be written"),
            InputFault::AssCodecPrivateMissing => String::from_str(
                "ASS/SSA subtitles need the script header as CodecPrivate: call .with_ass_codec_private()",
            ),
            InputFault::Matroska(error) => error.message(),
            InputFault::Ogg(error) => error.message(),
            InputFault::Flac(error) => error.message(),
            InputFault::FlacParametersDisagree {
                sample_rate,
                channels,
                info_rate,
                info_channels,
            } => {
                let mut text = String::from_str("FLAC track parameters (");
                push_decimal(&mut text, sample_rate as u64);
                text.append(" Hz, ");
                push_decimal(&mut text, channels as u64);
                text.append(" ch) disagree with STREAMINFO (");
                push_decimal(&mut text, info_rate as u64);
                text.append(" Hz, ");
                push_decimal(&mut text, info_channels as u64);
                text.append(" ch)");
                text
            },
        }
    }
}

/// Errors of configuring a muxer and of writing samples.
#[derive(Debug, Clone, Copy, PartialEq, Eq)]
#[non_exhaustive]
pub enum MuxerError {
    /// No track is configured.
    MissingConfig,
    /// Subtitles need a video track.
    SubtitleRequiresVideo,
    /// The input cannot be used.
    Io(InputFault),
    /// The muxer has been finished.
    AlreadyFinished,
    /// Video presentation times are not negative.
    NegativeVideoPts { pts: Seconds, frame_index: u64 },
    /// Video presentation times are finite.
    InvalidVideoPts { pts: Seconds, frame_index: u64 },
    /// Video decode times are not negative.
    NegativeVideoDts { dts: Seconds, frame_index: u64 },
    /// Video decode times are finite.
    InvalidVideoDts { dts: Seconds, frame_index: u64 },
    /// Audio presentation times are not negative.
    NegativeAudioPts { pts: Seconds, frame_index: u64 },
    /// Audio presentation times are finite.
    InvalidAudioPts { pts: Seconds, frame_index: u64 },
    /// There is no audio track.
    AudioNotConfigured,
    /// An audio frame is empty.
    EmptyAudioFrame { frame_index: u64 },
    /// A subtitle is empty.
    EmptySubtitleSample { frame_index: u64 },
    /// A video frame is empty.
    EmptyVideoFrame { frame_index: u64 },
    /// Video times strictly increase. A time that is not known counts as zero.
    NonIncreasingVideoPts { prev_pts: Option<Seconds>, curr_pts: Option<Seconds>, frame_index: u64 },
    /// Audio times do not decrease.
    DecreasingAudioPts { prev_pts: Seconds, curr_pts: Seconds, frame_index: u64 },
    /// Subtitle times are not negative.
    NegativeSubtitlePts { pts: Seconds, frame_index: u64 },
    /// Subtitle times are finite.
    InvalidSubtitlePts { pts: Seconds, frame_index: u64 },
    /// Subtitle durations are positive and finite.
    InvalidSubtitleDuration { duration_secs: Seconds, frame_index: u64 },
    /// There is no subtitle track.
    SubtitleNotConfigured,
    /// Subtitle times do not decrease.
    DecreasingSubtitlePts { prev_pts: Seconds, curr_pts: Seconds, frame_index: u64 },
    /// Audio comes before the first video frame.
    AudioBeforeFirstVideo { audio_pts: Seconds, first_video_pts: Option<Seconds> },
    /// The first video frame is a keyframe.
    FirstVideoFrameMustBeKeyframe,
    /// The first video frame holds SPS and PPS.
    FirstVideoFrameMissingSpsPps,
    /// The first AV1 frame holds a sequence header.
    FirstAv1FrameMissingSequenceHeader,
    /// The first VP9 frame holds its parameters.
    FirstVp9FrameMissingSequenceHeader,
    /// An audio frame is not an ADTS frame.
    InvalidAdts { frame_index: u64 },
    /// An audio frame is not an ADTS frame, with a report.
    InvalidAdtsDetailed { frame_index: u64 },
    /// An audio frame is not an Opus packet.
    InvalidOpusPacket { frame_index: u64 },
    /// The Opus configuration is malformed.
    InvalidOpusConfig { reason: OpusConfigError },
    /// An audio frame is not a FLAC frame.
    InvalidFlacFrame { frame_index: u64 },
    /// Decode times strictly increase.
    NonIncreasingDts { prev_dts: Seconds, curr_dts: Seconds, frame_index: u64 },
    /// The container does not take the codec.
    UnsupportedForContainer { codec: RejectedCodec, container: ContainerFormat, reason: RejectReason },
    /// A duration is zero.
    ZeroDuration,
    /// A time is out of range.
    TimestampOverflow,
    /// Integer decode times strictly increase.
    NonIncreasingIntDts { previous: i64, current: i64 },
    /// Presentation and decode time are too far apart.
    CompositionOffsetOutOfRange { pts: i64, dts: i64 },
    /// A value does not fit its field.
    FieldTooLarge { field: &'static str, value: u64 },
    /// The container is too large.
    SizeOverflow,
    /// The decoder configuration changes within a track.
    DecoderConfigurationChanged,
    /// A subtitle is too long.
    SubtitleTooLarge(usize),
    /// A language code is malformed.
    InvalidLanguage,
    /// An integer subtitle time is negative.
    NegativeSubtitleDts { dts: i64 },
    /// A limit is exceeded.
    ResourceLimitExceeded { what: &'static str },
}

/// The name of a rejected codec.
pub open spec fn rejected_text(codec: RejectedCodec) -> Seq<char> {
    match codec {
        RejectedCodec::Named(label) => label.name_text(),
        RejectedCodec::Configured => "configured codec"@,
    }
}

/// The text of a reason.
pub open spec fn reason_text(reason: RejectReason) -> Seq<char> {
    match reason {
        RejectReason::Because(text) => text@,
        RejectReason::NotInWebM { codec, reason } => "codec "@ + codec.name_text()
            + " is not allowed in WebM: "@ + reason@,
    }
}

/// Appends the name of a rejected codec.
fn push_rejected(text: &mut String, codec: RejectedCodec)
    ensures
        final(text)@ == old(text)@ + rejected_text(codec),
{
    match codec {
        RejectedCodec::Named(label) => text.append(label.name()),
        RejectedCodec::Configured => text.append("configured codec"),
    }
}

/// Appends the text of a reason.
fn push_reason(text: &mut String, reason: RejectReason)
    ensures
        final(text)@ == old(text)@ + reason_text(reason),
{
    let ghost before = text@;
    match reason {
        RejectReason::Because(because) => text.append(because),
        RejectReason::NotInWebM { codec, reason } => {
            text.append("codec ");
            text.append(codec.name());
            text.append(" is not allowed in WebM: ");
            text.append(reason);
            assert(text@ =~= before + ("codec "@ + codec.name_text()
                + " is not allowed in WebM: "@ + reason@));
        },
    }
}

/// A time, or zero where it is not known.
pub open spec fn known_time(time: Option<Seconds>) -> Seconds {
    match time {
        Some(time) => time,
        None => Seconds { bits: 0 },
    }
}

fn time_or_zero(time: Option<Seconds>) -> (known: Seconds)
    ensures
        known == known_time(time),
{
    match time {
        Some(time) => time,
        None => Seconds { bits: 0 },
    }
}

impl MuxerError {
    /// The message text, with times to three decimals. `report` is what an
    /// ADTS reader says of a frame that it refuses.
    pub open spec fn text(self, report: Seq<char>) -> Seq<char> {
        match self {
            MuxerError::MissingConfig =>
                "missing configuration: call .video(), .audio(), or .subtitle() on MuxerBuilder before .build()"@,
            MuxerError::SubtitleRequiresVideo =>
                "subtitle track requires video track: call .video() before .subtitle()"@,
            MuxerError::Io(value) =>
                "IO error: "@
                + value.text(),
            MuxerError::AlreadyFinished =>
                "muxer already finished: cannot write frames after calling finish()"@,
            MuxerError::NegativeVideoPts { pts, frame_index } =>
                "video frame "@
                + text::decimal(frame_index as int)
                + " has negative PTS ("@
                + pts.three_decimals()
                + "s): timestamps must be >= 0.0"@,
            MuxerError::InvalidVideoPts { pts, frame_index } =>
                "video frame "@
                + text::decimal(frame_index as int)
                + " has invalid PTS ("@
                + pts.three_decimals()
                + "s): timestamps must be finite (not NaN or Inf)"@,
            MuxerError::NegativeVideoDts { dts, frame_index } =>
                "video frame "@
                + text::decimal(frame_index as int)
                + " has negative DTS ("@
                + dts.three_decimals()
                + "s): decode timestamps must be >= 0.0"@,
            MuxerError::InvalidVideoDts { dts, frame_index } =>
                "video frame "@
                + text::decimal(frame_index as int)
                + " has invalid DTS ("@
                + dts.three_decimals()
                + "s): decode timestamps must be finite (not NaN or Inf)"@,
            MuxerError::NegativeAudioPts { pts, frame_index } =>
                "audio frame "@
                + text::decimal(frame_index as int)
                + " has negative PTS ("@
                + pts.three_decimals()
                + "s): timestamps must be >= 0.0"@,
            MuxerError::InvalidAudioPts { pts, frame_index } =>
                "audio frame "@
                + text::decimal(frame_index as int)
                + " has invalid PTS ("@
                + pts.three_decimals()
                + "s): timestamps must be finite (not NaN or Inf)"@,
            MuxerError::AudioNotConfigured =>
                "audio track not configured: call .audio() on MuxerBuilder to enable audio"@,
            MuxerError::EmptyAudioFrame { frame_index } =>
                "audio frame "@
                + text::decimal(frame_index as int)
                + " is empty: ADTS frames must contain data"@,
            MuxerError::EmptySubtitleSample { frame_index } =>
                "subtitle sample "@
                + text::decimal(frame_index as int)
                + " is empty"@,
            MuxerError::EmptyVideoFrame { frame_index } =>
                "video frame "@
                + text::decimal(frame_index as int)
                + " is empty: video samples must contain NAL units"@,
            MuxerError::NonIncreasingVideoPts { prev_pts, curr_pts, frame_index } =>
                "video frame "@
                + text::decimal(frame_index as int)
                + " has PTS "@
                + known_time(curr_pts).three_decimals()
                + "s which is not greater than previous PTS "@
                + known_time(prev_pts).three_decimals()
                + "s: video timestamps must strictly increase. For B-frames, use write_video_with_dts()"@,
            MuxerError::DecreasingAudioPts { prev_pts, curr_pts, frame_index } =>
                "audio frame "@
                + text::decimal(frame_index as int)
                + " has PTS "@
                + curr_pts.three_decimals()
                + "s which is less than previous PTS "@
                + prev_pts.three_decimals()
                + "s: audio timestamps must not decrease"@,
            MuxerError::NegativeSubtitlePts { pts, frame_index } =>
                "subtitle sample "@
                + text::decimal(frame_index as int)
                + " has negative PTS ("@
                + pts.three_decimals()
                + "s)"@,
            MuxerError::InvalidSubtitlePts { pts, frame_index } =>
                "subtitle sample "@
                + text::decimal(frame_index as int)
                + " has invalid PTS ("@
                + pts.three_decimals()
                + "s): timestamps must be finite"@,
            MuxerError::InvalidSubtitleDuration { duration_secs, frame_index } =>
                "subtitle sample "@
                + text::decimal(frame_index as int)
                + " has invalid duration ("@
                + duration_secs.three_decimals()
                + "s): duration must be positive and finite"@,
            MuxerError::SubtitleNotConfigured =>
                "subtitle track not configured: call .subtitle() on MuxerBuilder to enable subtitles"@,
            MuxerError::DecreasingSubtitlePts { prev_pts, curr_pts, frame_index } =>
                "subtitle sample "@
                + text::decimal(frame_index as int)
                + " has PTS "@
                + curr_pts.three_decimals()
                + "s which is less than previous PTS "@
                + prev_pts.three_decimals()
                + "s: subtitle timestamps must not decrease"@,
            MuxerError::AudioBeforeFirstVideo { audio_pts, first_video_pts: Some(video_pts) } => "audio PTS "@
                + audio_pts.three_decimals() + "s arrives before first video PTS "@ + video_pts.three_decimals()
                + "s: write video frames first, or ensure audio PTS >= video PTS"@,
            MuxerError::AudioBeforeFirstVideo { first_video_pts: None, .. } =>
                "audio frame arrived before any video frame: write at least one video frame before writing audio"@,
            MuxerError::FirstVideoFrameMustBeKeyframe =>
                "first video frame must be a keyframe (IDR): set is_keyframe=true and ensure the frame contains an IDR NAL unit"@,
            MuxerError::FirstVideoFrameMissingSpsPps =>
                "first video frame must contain SPS and PPS NAL units: prepend SPS (NAL type 7) and PPS (NAL type 8) to the first keyframe"@,
            MuxerError::FirstAv1FrameMissingSequenceHeader =>
                "first AV1 frame must contain a Sequence Header OBU: ensure the first keyframe includes OBU type 1 (SEQUENCE_HEADER)"@,
            MuxerError::FirstVp9FrameMissingSequenceHeader =>
                "first VP9 frame must contain sequence parameters: ensure the first keyframe includes VP9 frame header with configuration data"@,
            MuxerError::InvalidAdts { frame_index } =>
                "audio frame "@
                + text::decimal(frame_index as int)
                + " is not valid ADTS: ensure the frame starts with 0xFFF sync word"@,
            MuxerError::InvalidAdtsDetailed { frame_index } =>
                "audio frame "@
                + text::decimal(frame_index as int)
                + " ADTS validation failed: "@
                + report,
            MuxerError::InvalidOpusPacket { frame_index } =>
                "audio frame "@
                + text::decimal(frame_index as int)
                + " is not a valid Opus packet: ensure the frame has valid TOC byte"@,
            MuxerError::InvalidOpusConfig { reason } =>
                "invalid Opus dOps config: "@
                + reason.text(),
            MuxerError::InvalidFlacFrame { frame_index } =>
                "audio frame "@
                + text::decimal(frame_index as int)
                + " is not a valid FLAC frame: ensure the frame starts with the 0xFFF8/0xFFF9 sync"@,
            MuxerError::NonIncreasingDts { prev_dts, curr_dts, frame_index } =>
                "video frame "@
                + text::decimal(frame_index as int)
                + " has DTS "@
                + curr_dts.three_decimals()
                + "s which is not greater than previous DTS "@
                + prev_dts.three_decimals()
                + "s: DTS (decode timestamps) must strictly increase"@,
            MuxerError::UnsupportedForContainer { codec, container, reason } =>
                "codec "@
                + rejected_text(codec)
                + " is not supported in "@
                + container.name_text()
                + ": "@
                + reason_text(reason),
            MuxerError::ZeroDuration =>
                "sample duration must be greater than zero"@,
            MuxerError::TimestampOverflow =>
                "timestamp arithmetic overflow"@,
            MuxerError::NonIncreasingIntDts { previous, current } =>
                "DTS must increase: previous="@
                + text::decimal(previous as int)
                + ", current="@
                + text::decimal(current as int),
            MuxerError::CompositionOffsetOutOfRange { pts, dts } =>
                "composition offset is outside signed 32-bit range: pts="@
                + text::decimal(pts as int)
                + ", dts="@
                + text::decimal(dts as int),
            MuxerError::FieldTooLarge { field, value } =>
                "field "@
                + field@
                + " is too large: "@
                + text::decimal(value as int),
            MuxerError::SizeOverflow =>
                "container size overflow"@,
            MuxerError::DecoderConfigurationChanged =>
                "decoder configuration changed after the track started"@,
            MuxerError::SubtitleTooLarge(value) =>
                "subtitle sample is too large: "@
                + text::decimal(value as int)
                + " bytes"@,
            MuxerError::InvalidLanguage =>
                "invalid ISO-639 language code"@,
            MuxerError::NegativeSubtitleDts { dts } =>
                "subtitle DTS must be >= 0 (got "@
                + text::decimal(dts as int)
                + ")"@,
            MuxerError::ResourceLimitExceeded { what } =>
                "resource limit exceeded: "@
                + what@,
        }
    }

    /// The error as a message; `report` as for the message text.
    pub fn message(&self, report: &str) -> (text: String)
        ensures
            text@ == self.text(report@),
    {
        match *self {
            MuxerError::MissingConfig => String::from_str(
                "missing configuration: call .video(), .audio(), or .subtitle() on MuxerBuilder before .build()",
            ),
            MuxerError::SubtitleRequiresVideo => String::from_str(
                "subtitle track requires video track: call .video() before .subtitle()",
            ),
            MuxerError::Io(value) => {
                let mut text = String::from_str("IO error: ");
                text.append(value.message().as_str());
                text
            },
            MuxerError::AlreadyFinished => String::from_str(
                "muxer already finished: cannot write frames after calling finish()",
            ),
            MuxerError::NegativeVideoPts { pts, frame_index } => {
                let mut text = String::from_str("video frame ");
                push_decimal(&mut text, frame_index as u64);
                text.append(" has negative PTS (");
                text.append(pts.to_three_decimals().as_str());
                text.append("s): timestamps must be >= 0.0");
                text
            },
            MuxerError::InvalidVideoPts { pts, frame_index } => {
                let mut text = String::from_str("video frame ");
                push_decimal(&mut text, frame_index as u64);
                text.append(" has invalid PTS (");
                text.append(pts.to_three_decimals().as_str());
                text.append("s): timestamps must be finite (not NaN or Inf)");
                text
            },
            MuxerError::NegativeVideoDts { dts, frame_index } => {
                let mut text = String::from_str("video frame ");
                push_decimal(&mut text, frame_index as u64);
                text.append(" has negative DTS (");
                text.append(dts.to_three_decimals().as_str());
                text.append("s): decode timestamps must be >= 0.0");
                text
            },
            MuxerError::InvalidVideoDts { dts, frame_index } => {
                let mut text = String::from_str("video frame ");
                push_decimal(&mut text, frame_index as u64);
                text.append(" has invalid DTS (");
                text.append(dts.to_three_decimals().as_str());
                text.append("s): decode timestamps must be finite (not NaN or Inf)");
                text
            },
            MuxerError::NegativeAudioPts { pts, frame_index } => {
                let mut text = String::from_str("audio frame ");
                push_decimal(&mut text, frame_index as u64);
                text.append(" has negative PTS (");
                text.append(pts.to_three_decimals().as_str());
                text.append("s): timestamps must be >= 0.0");
                text
            },
            MuxerError::InvalidAudioPts { pts, frame_index } => {
                let mut text = String::from_str("audio frame ");
                push_decimal(&mut text, frame_index as u64);
                text.append(" has invalid PTS (");
                text.append(pts.to_three_decimals().as_str());
                text.append("s): timestamps must be finite (not NaN or Inf)");
                text
            },
            MuxerError::AudioNotConfigured => String::from_str(
                "audio track not configured: call .audio() on MuxerBuilder to enable audio",
            ),
            MuxerError::EmptyAudioFrame { frame_index } => {
                let mut text = String::from_str("audio frame ");
                push_decimal(&mut text, frame_index as u64);
                text.append(" is empty: ADTS frames must contain data");
                text
            },
            MuxerError::EmptySubtitleSample { frame_index } => {
                let mut text = String::from_str("subtitle sample ");
                push_decimal(&mut text, frame_index as u64);
                text.append(" is empty");
                text
            },
            MuxerError::EmptyVideoFrame { frame_index } => {
                let mut text = String::from_str("video frame ");
                push_decimal(&mut text, frame_index as u64);
                text.append(" is empty: video samples must contain NAL units");
                text
            },
            MuxerError::NonIncreasingVideoPts { prev_pts, curr_pts, frame_index } => {
                let mut text = String::from_str("video frame ");
                push_decimal(&mut text, frame_index as u64);
                text.append(" has PTS ");
                text.append(time_or_zero(curr_pts).to_three_decimals().as_str());
                text.append("s which is not greater than previous PTS ");
                text.append(time_or_zero(prev_pts).to_three_decimals().as_str());
                text.append("s: video timestamps must strictly increase. For B-frames, use write_video_with_dts()");
                text
            },
            MuxerError::DecreasingAudioPts { prev_pts, curr_pts, frame_index } => {
                let mut text = String::from_str("audio frame ");
                push_decimal(&mut text, frame_index as u64);
                text.append(" has PTS ");
                text.append(curr_pts.to_three_decimals().as_str());
                text.append("s which is less than previous PTS ");
                text.append(prev_pts.to_three_decimals().as_str());
                text.append("s: audio timestamps must not decrease");
                text
            },
            MuxerError::NegativeSubtitlePts { pts, frame_index } => {
                let mut text = String::from_str("subtitle sample ");
                push_decimal(&mut text, frame_index as u64);
                text.append(" has negative PTS (");
                text.append(pts.to_three_decimals().as_str());
                text.append("s)");
                text
            },
            MuxerError::InvalidSubtitlePts { pts, frame_index } => {
                let mut text = String::from_str("subtitle sample ");
                push_decimal(&mut text, frame_index as u64);
                text.append(" has invalid PTS (");
                text.append(pts.to_three_decimals().as_str());
                text.append("s): timestamps must be finite");
                text
            },
            MuxerError::InvalidSubtitleDuration { duration_secs, frame_index } => {
                let mut text = String::from_str("subtitle sample ");
                push_decimal(&mut text, frame_index as u64);
                text.append(" has invalid duration (");
                text.append(duration_secs.to_three_decimals().as_str());
                text.append("s): duration must be positive and finite");
                text
            },
            MuxerError::SubtitleNotConfigured => String::from_str(
                "subtitle track not configured: call .subtitle() on MuxerBuilder to enable subtitles",
            ),
            MuxerError::DecreasingSubtitlePts { prev_pts, curr_pts, frame_index } => {
                let mut text = String::from_str("subtitle sample ");
                push_decimal(&mut text, frame_index as u64);
                text.append(" has PTS ");
                text.append(curr_pts.to_three_decimals().as_str());
                text.append("s which is less than previous PTS ");
                text.append(prev_pts.to_three_decimals().as_str());
                text.append("s: subtitle timestamps must not decrease");
                text
            },
            MuxerError::AudioBeforeFirstVideo { audio_pts, first_video_pts: Some(video_pts) } => {
                let mut text = String::from_str("audio PTS ");
                text.append(audio_pts.to_three_decimals().as_str());
                text.append("s arrives before first video PTS ");
                text.append(video_pts.to_three_decimals().as_str());
                text.append("s: write video frames first, or ensure audio PTS >= video PTS");
                text
            },
            MuxerError::AudioBeforeFirstVideo { first_video_pts: None, .. } => String::from_str(
                "audio frame arrived before any video frame: write at least one video frame before writing audio",
            ),
            MuxerError::FirstVideoFrameMustBeKeyframe => String::from_str(
                "first video frame must be a keyframe (IDR): set is_keyframe=true and ensure the frame contains an IDR NAL unit",
            ),
            MuxerError::FirstVideoFrameMissingSpsPps => String::from_str(
                "first video frame must contain SPS and PPS NAL units: prepend SPS (NAL type 7) and PPS (NAL type 8) to the first keyframe",
            ),
            MuxerError::FirstAv1FrameMissingSequenceHeader => String::from_str(
                "first AV1 frame must contain a Sequence Header OBU: ensure the first keyframe includes OBU type 1 (SEQUENCE_HEADER)",
            ),
            MuxerError::FirstVp9FrameMissingSequenceHeader => String::from_str(
                "first VP9 frame must contain sequence parameters: ensure the first keyframe includes VP9 frame header with configuration data",
            ),
            MuxerError::InvalidAdts { frame_index } => {
                let mut text = String::from_str("audio frame ");
                push_decimal(&mut text, frame_index as u64);
                text.append(" is not valid ADTS: ensure the frame starts with 0xFFF sync word");
                text
            },
            MuxerError::InvalidAdtsDetailed { frame_index } => {
                let mut text = String::from_str("audio frame ");
                push_decimal(&mut text, frame_index as u64);
                text.append(" ADTS validation failed: ");
                text.append(report);
                text
            },
            MuxerError::InvalidOpusPacket { frame_index } => {
                let mut text = String::from_str("audio frame ");
                push_decimal(&mut text, frame_index as u64);
                text.append(" is not a valid Opus packet: ensure the frame has valid TOC byte");
                text
            },
            MuxerError::InvalidOpusConfig { reason } => {
                let mut text = String::from_str("invalid Opus dOps config: ");
                text.append(reason.message().as_str());
                text
            },
            MuxerError::InvalidFlacFrame { frame_index } => {
                let mut text = String::from_str("audio frame ");
                push_decimal(&mut text, frame_index as u64);
                text.append(" is not a valid FLAC frame: ensure the frame starts with the 0xFFF8/0xFFF9 sync");
                text
            },
            MuxerError::NonIncreasingDts { prev_dts, curr_dts, frame_index } => {
                let mut text = String::from_str("video frame ");
                push_decimal(&mut text, frame_index as u64);
                text.append(" has DTS ");
                text.append(curr_dts.to_three_decimals().as_str());
                text.append("s which is not greater than previous DTS ");
                text.append(prev_dts.to_three_decimals().as_str());
                text.append("s: DTS (decode timestamps) must strictly increase");
                text
            },
            MuxerError::UnsupportedForContainer { codec, container, reason } => {
                let mut text = String::from_str("codec ");
                push_rejected(&mut text, codec);
                text.append(" is not supported in ");
                text.append(container.name());
                text.append(": ");
                push_reason(&mut text, reason);
                text
            },
            MuxerError::ZeroDuration => String::from_str(
                "sample duration must be greater than zero",
            ),
            MuxerError::TimestampOverflow => String::from_str(
                "timestamp arithmetic overflow",
            ),
            MuxerError::NonIncreasingIntDts { previous, current } => {
                let mut text = String::from_str("DTS must increase: previous=");
                push_signed_decimal(&mut text, previous);
                text.append(", current=");
                push_signed_decimal(&mut text, current);
                text
            },
            MuxerError::CompositionOffsetOutOfRange { pts, dts } => {
                let mut text = String::from_str("composition offset is outside signed 32-bit range: pts=");
                push_signed_decimal(&mut text, pts);
                text.append(", dts=");
                push_signed_decimal(&mut text, dts);
                text
            },
            MuxerError::FieldTooLarge { field, value } => {
                let mut text = String::from_str("field ");
                text.append(field);
                text.append(" is too large: ");
                push_decimal(&mut text, value as u64);
                text
            },
            MuxerError::SizeOverflow => String::from_str(
                "container size overflow",
            ),
            MuxerError::DecoderConfigurationChanged => String::from_str(
                "decoder configuration changed after the track started",
            ),
            MuxerError::SubtitleTooLarge(value) => {
                let mut text = String::from_str("subtitle sample is too large: ");
                push_decimal(&mut text, value as u64);
                text.append(" bytes");
                text
            },
            MuxerError::InvalidLanguage => String::from_str(
                "invalid ISO-639 language code",
            ),
            MuxerError::NegativeSubtitleDts { dts } => {
                let mut text = String::from_str("subtitle DTS must be >= 0 (got ");
                push_signed_decimal(&mut text, dts);
                text.append(")");
                text
            },
            MuxerError::ResourceLimitExceeded { what } => {
                let mut text = String::from_str("resource limit exceeded: ");
                text.append(what);
                text
            },
        }
    }
}

} // verus!
