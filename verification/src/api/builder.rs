//! Builder for the muxers.

use vstd::prelude::*;
use crate::api::audio::{FlacMuxer, OggMuxer};
use crate::api::config::{self, choose_audio};
use crate::api::front::{Front, SubtitleTiming};
use crate::api::{
    types, AacConfig, AudioCodec, AudioTrackConfig, CodecLabel, ContainerFormat, FrameRate,
    InputFault, Metadata, MkvMuxer, Muxer, MuxerError, OpusConfig, RejectReason, RejectedCodec,
    SegmentBoundary, StreamingMuxer, SubtitleCodec, SubtitleTrackConfig, VideoBitstreamFormat,
    VideoCodec, VideoDecoderConfig, VideoTrackConfig,
};
use crate::api::types::MetadataModel;
use crate::codec::flac::{self, parse_streaminfo};
use crate::codec::vp9::Vp9Config;
use crate::fragmented::{
    FragmentConfig, FRAGMENT_DURATION_MS, FRAGMENT_DURATION_TICKS, FRAGMENT_TIMESCALE,
};
use crate::muxer::flac::FlacWriter;
use crate::muxer::mkv::{self, MkvContainer, MkvQueue, MkvWriter};
use crate::muxer::mp4::{Mp4AudioTrack, Mp4SubtitleTrack};
use crate::muxer::ogg::OggWriter;
use crate::muxer::streaming;
use crate::seconds::Seconds;
use crate::time::{LanguageCode, Limits};

verus! {

/// Why WebM does not take FLAC.
pub const WEBM_FLAC_REASON: &'static str =
    "WebM only supports Opus audio; use Matroska (.mkv) for FLAC";

/// Why MP4 does not take SSA and ASS.
pub const MP4_ASS_REASON: &'static str =
    "MP4 has no mapping for SSA/ASS; use Matroska (.mkv) instead";

/// What an Ogg file holds.
pub const OGG_REASON: &'static str = "Ogg output holds a single Opus track";

/// What a FLAC file holds.
pub const FLAC_REASON: &'static str = "FLAC output holds a single FLAC track";

/// A chosen video track.
#[derive(Debug, Clone, Copy, PartialEq, Eq, Structural)]
pub struct VideoChoice {
    pub codec: VideoCodec,
    pub width: u32,
    pub height: u32,
    pub framerate: FrameRate,
}

/// A chosen audio track.
#[derive(Debug, Clone, Copy, PartialEq, Eq, Structural)]
pub struct AudioChoice {
    pub codec: AudioCodec,
    pub sample_rate: u32,
    pub channels: u16,
}

/// Choices for a muxer.
#[derive(Debug)]
pub struct MuxerBuilder {
    pub video: Option<VideoChoice>,
    pub audio: Option<AudioChoice>,
    pub subtitle: Option<SubtitleTrackConfig>,
    pub metadata: Option<Metadata>,
    pub fast_start: bool,
    pub sps: Option<Vec<u8>>,
    pub pps: Option<Vec<u8>>,
    pub vps: Option<Vec<u8>>,
    pub av1_sequence_header: Option<Vec<u8>>,
    pub vp9_config: Option<Vp9Config>,
    pub flac_streaminfo: Option<Vec<u8>>,
    pub opus_preskip: Option<u16>,
    pub container: ContainerFormat,
    pub video_decoder_config: Option<VideoDecoderConfig>,
    pub bitstream_format: Option<VideoBitstreamFormat>,
    pub aac_config: Option<AacConfig>,
    pub opus_config: Option<OpusConfig>,
    pub video_language: Option<LanguageCode>,
    pub audio_language: Option<LanguageCode>,
    pub limits: Limits,
    pub ass_codec_private: Option<Vec<u8>>,
}

/// What the box writer of an MP4 file is told before the first sample.
#[derive(Debug)]
pub struct Mp4Setup {
    pub video_codec: Option<VideoCodec>,
    /// The decoder configuration, where it is not taken from the first frame.
    pub video_config: Option<VideoDecoderConfig>,
    pub audio: Option<Mp4AudioTrack>,
    pub subtitle: Option<Mp4SubtitleTrack>,
    pub metadata: Option<Metadata>,
}

/// The letters of an optional language; undetermined where there is none.
pub open spec fn language_bytes(language: Option<LanguageCode>) -> Seq<u8> {
    match language {
        Some(language) => language.bytes(),
        None => config::undetermined(),
    }
}

/// Whether a subtitle codec is that of a script.
pub open spec fn is_script(codec: SubtitleCodec) -> bool {
    codec is Ssa || codec is Ass
}

/// The metadata of a builder, empty where none was given.
pub open spec fn metadata_or_empty(metadata: Option<Metadata>) -> MetadataModel {
    match metadata {
        Some(metadata) => metadata@,
        None => MetadataModel { title: None, creation_time: None, language: None },
    }
}

impl MuxerBuilder {
    /// Whether an audio track is chosen.
    pub open spec fn has_audio(self) -> bool {
        self.audio matches Some(audio) && !(audio.codec is NoAudio)
    }

    /// What is wrong with the choice of tracks, if anything.
    pub open spec fn track_fault(self) -> Option<MuxerError> {
        if self.opus_config matches Some(config) && config@.defect() is Some {
            Some(MuxerError::InvalidOpusConfig { reason: self.opus_config->0@.defect()->0 })
        } else if self.subtitle is Some && self.video is None {
            Some(MuxerError::SubtitleRequiresVideo)
        } else if self.video is None && !self.has_audio() {
            Some(MuxerError::MissingConfig)
        } else {
            None
        }
    }

    /// What is wrong with STREAMINFO, if anything. `absent` and `malformed`
    /// are the faults for a block that is not there or cannot be read.
    pub open spec fn streaminfo_fault(self, absent: InputFault, malformed: InputFault) -> Option<
        MuxerError,
    > {
        if !(self.audio matches Some(audio) && audio.codec is Flac) {
            None
        } else {
            match self.flac_streaminfo {
                None => Some(MuxerError::Io(absent)),
                Some(bytes) => match flac::streaminfo_of(bytes@) {
                    None => Some(MuxerError::Io(malformed)),
                    Some(info) => if self.audio->0.sample_rate != info.sample_rate || self.audio->0.channels
                        != info.channels {
                        Some(
                            MuxerError::Io(
                                InputFault::FlacParametersDisagree {
                                    sample_rate: self.audio->0.sample_rate,
                                    channels: self.audio->0.channels,
                                    info_rate: info.sample_rate,
                                    info_channels: info.channels,
                                },
                            ),
                        )
                    } else {
                        None
                    },
                },
            }
        }
    }

    /// What stands in the way of an MP4 muxer, if anything.
    pub open spec fn mp4_fault(self) -> Option<MuxerError> {
        let streaminfo = self.streaminfo_fault(
            InputFault::MissingFlacStreaminfo,
            InputFault::InvalidFlacStreaminfo,
        );
        if self.track_fault() is Some {
            self.track_fault()
        } else if self.subtitle matches Some(track) && is_script(track.codec) {
            Some(
                MuxerError::UnsupportedForContainer {
                    codec: RejectedCodec::Named(CodecLabel::Subtitle(self.subtitle->0.codec)),
                    container: ContainerFormat::Mp4,
                    reason: RejectReason::Because(MP4_ASS_REASON),
                },
            )
        } else {
            streaminfo
        }
    }

    /// The Matroska container that is chosen; Matroska itself unless WebM is
    /// asked for.
    pub open spec fn mkv_container(self) -> MkvContainer {
        if self.container is WebM {
            MkvContainer::WebM
        } else {
            MkvContainer::Matroska
        }
    }

    /// What stands in the way of a Matroska muxer, if anything.
    pub open spec fn mkv_fault(self) -> Option<MuxerError> {
        let streaminfo = self.streaminfo_fault(
            InputFault::MatroskaFlacStreaminfo,
            InputFault::MatroskaFlacStreaminfo,
        );
        if self.track_fault() is Some {
            self.track_fault()
        } else if streaminfo is Some {
            streaminfo
        } else if self.container is WebM && (self.audio matches Some(audio) && audio.codec is Flac) {
            Some(
                MuxerError::UnsupportedForContainer {
                    codec: RejectedCodec::Named(CodecLabel::Audio(self.audio->0.codec)),
                    container: ContainerFormat::WebM,
                    reason: RejectReason::Because(WEBM_FLAC_REASON),
                },
            )
        } else if self.subtitle matches Some(track) && is_script(track.codec)
            && self.ass_codec_private is None {
            Some(MuxerError::Io(InputFault::AssCodecPrivateMissing))
        } else {
            None
        }
    }

    /// What stands in the way of a file with a single audio track, if
    /// anything.
    pub open spec fn audio_only_fault(
        self,
        is_flac: bool,
        container: ContainerFormat,
        reason: &'static str,
    ) -> Option<MuxerError> {
        if self.opus_config matches Some(config) && config@.defect() is Some {
            Some(MuxerError::InvalidOpusConfig { reason: self.opus_config->0@.defect()->0 })
        } else if self.video matches Some(video) {
            Some(
                MuxerError::UnsupportedForContainer {
                    codec: RejectedCodec::Named(CodecLabel::Video(self.video->0.codec)),
                    container,
                    reason: RejectReason::Because(reason),
                },
            )
        } else if self.subtitle matches Some(track) {
            Some(
                MuxerError::UnsupportedForContainer {
                    codec: RejectedCodec::Named(CodecLabel::Subtitle(self.subtitle->0.codec)),
                    container,
                    reason: RejectReason::Because(reason),
                },
            )
        } else if !self.has_audio() {
            Some(MuxerError::MissingConfig)
        } else if self.audio->0.codec != (if is_flac {
            AudioCodec::Flac
        } else {
            AudioCodec::Opus
        }) {
            Some(
                MuxerError::UnsupportedForContainer {
                    codec: RejectedCodec::Named(CodecLabel::Audio(self.audio->0.codec)),
                    container,
                    reason: RejectReason::Because(reason),
                },
            )
        } else {
            self.streaminfo_fault(
                InputFault::MissingFlacStreaminfo,
                InputFault::InvalidFlacStreaminfo,
            )
        }
    }

    /// Whether a front is one with the chosen tracks and no samples.
    pub open spec fn starts_as(self, front: Front) -> bool {
        &&& match (self.video, front.video_track) {
            (None, None) => true,
            (Some(video), Some(track)) => track.codec == video.codec && track.width == video.width
                && track.height == video.height && track.framerate == video.framerate && track.timescale
                == 90_000 && track.language.bytes() == language_bytes(self.video_language),
            _ => false,
        }
        &&& match self.audio {
            None => front.audio_track is None,
            Some(audio) => config::is_audio_choice(
                front.audio_track,
                audio.codec,
                audio.sample_rate,
                audio.channels,
                language_bytes(self.audio_language),
            ),
        }
        &&& match self.subtitle {
            None => front.subtitle is None,
            Some(track) => front.subtitle == Some(
                SubtitleTiming { codec: track.codec, timescale: track.timescale },
            ),
        }
        &&& front.limits == self.limits
        &&& front.last_video_pts is None && front.last_video_dts is None
        &&& front.last_audio_pts is None && front.last_subtitle_pts is None
        &&& front.video_frames == 0 && front.audio_frames == 0 && front.subtitle_frames == 0
        &&& front.video_clock == (Seconds { bits: 0 }) && front.audio_clock == (Seconds { bits: 0 })
        &&& !front.finished
    }

    /// Whether a track holds the audio parameters that were chosen.
    pub open spec fn describes_audio(self, audio: Option<Mp4AudioTrack>) -> bool {
        match audio {
            None => !self.has_audio(),
            Some(track) => {
                &&& self.has_audio()
                &&& track.codec == self.audio->0.codec
                &&& track.sample_rate == self.audio->0.sample_rate
                &&& track.channels == self.audio->0.channels
                &&& track.flac_streaminfo == self.flac_streaminfo
                &&& track.opus_preskip == self.opus_preskip
                &&& track.aac_asc_override == match self.aac_config {
                    Some(config) => Some(config.audio_specific_config),
                    None => None,
                }
                &&& track.opus_config_override == self.opus_config
                &&& track.language matches Some(language) && language@ == Seq::new(
                    language_bytes(self.audio_language).len(),
                    |i: int| language_bytes(self.audio_language)[i] as char,
                )
            },
        }
    }

    /// Whether a track holds the subtitle parameters that were chosen. Only
    /// scripts have private data.
    pub open spec fn describes_subtitle(self, subtitle: Option<Mp4SubtitleTrack>) -> bool {
        match (self.subtitle, subtitle) {
            (None, None) => true,
            (Some(chosen), Some(track)) => track.codec == chosen.codec && track.language
                == chosen.language && track.codec_private == (if is_script(chosen.codec) {
                self.ass_codec_private
            } else {
                None
            }),
            _ => false,
        }
    }

    /// Whether a setup tells the box writer what was chosen.
    pub open spec fn describes(self, setup: Mp4Setup) -> bool {
        &&& setup.video_codec == match self.video {
            Some(video) => Some(video.codec),
            None => None,
        }
        &&& setup.video_config == if self.video is Some {
            self.video_decoder_config
        } else {
            None
        }
        &&& self.describes_audio(setup.audio)
        &&& self.describes_subtitle(setup.subtitle)
        &&& setup.metadata == self.metadata
    }

    /// The configuration of fragmented output, or what is missing for it.
    pub open spec fn fragment_fault(self) -> Option<MuxerError> {
        match self.video {
            None => Some(MuxerError::MissingConfig),
            Some(video) => match video.codec {
                VideoCodec::H264 => if self.sps is None {
                    Some(MuxerError::Io(InputFault::H264SpsMissing))
                } else if self.pps is None {
                    Some(MuxerError::Io(InputFault::H264PpsMissing))
                } else {
                    None
                },
                VideoCodec::H265 => if self.vps is None {
                    Some(MuxerError::Io(InputFault::H265VpsMissing))
                } else if self.sps is None {
                    Some(MuxerError::Io(InputFault::H265SpsMissing))
                } else if self.pps is None {
                    Some(MuxerError::Io(InputFault::H265PpsMissing))
                } else {
                    None
                },
                VideoCodec::Av1 => if self.av1_sequence_header is None {
                    Some(MuxerError::Io(InputFault::Av1SequenceHeaderMissing))
                } else {
                    None
                },
                VideoCodec::Vp9 => if self.vp9_config is None {
                    Some(MuxerError::Io(InputFault::Vp9ConfigMissing))
                } else {
                    None
                },
            },
        }
    }

    /// Whether a configuration of fragmented output is the chosen one: with
    /// the parameters of the codec and no others.
    pub open spec fn describes_fragments(self, config: FragmentConfig) -> bool {
        let codec = self.video->0.codec;
        let has_sets = codec is H264 || codec is H265;
        &&& config.width == self.video->0.width
        &&& config.height == self.video->0.height
        &&& config.timescale == FRAGMENT_TIMESCALE
        &&& config.fragment_duration_ms == FRAGMENT_DURATION_MS
        &&& config.boundary == (SegmentBoundary::Duration {
            target: FRAGMENT_DURATION_TICKS,
            require_sync_sample: true,
        })
        &&& if has_sets {
            config.sps@ == self.sps->0@ && config.pps@ == self.pps->0@
        } else {
            config.sps@.len() == 0 && config.pps@.len() == 0
        }
        &&& config.vps == if codec is H265 {
            self.vps
        } else {
            None
        }
        &&& config.av1_sequence_header == if codec is Av1 {
            self.av1_sequence_header
        } else {
            None
        }
        &&& config.vp9_config == if codec is Vp9 {
            self.vp9_config
        } else {
            None
        }
    }
}

/// Rules out a malformed Opus configuration.
fn validate_opus_config(config: Option<&OpusConfig>) -> (result: Result<(), MuxerError>)
    ensures
        match result {
            Ok(_) => config matches Some(config) ==> config@.defect() is None,
            Err(error) => config matches Some(config) && (config@.defect() matches Some(reason)
                && error == MuxerError::InvalidOpusConfig { reason }),
        },
{
    match config {
        Some(config) => match config.validate() {
            Ok(_) => Ok(()),
            Err(reason) => Err(MuxerError::InvalidOpusConfig { reason }),
        },
        None => Ok(()),
    }
}

impl MuxerBuilder {
    /// A builder with nothing chosen: MP4 with fast start.
    pub fn new() -> (builder: Self)
        ensures
            builder.video is None && builder.audio is None && builder.subtitle is None,
            builder.metadata is None && builder.fast_start,
            builder.sps is None && builder.pps is None && builder.vps is None,
            builder.av1_sequence_header is None && builder.vp9_config is None,
            builder.flac_streaminfo is None && builder.opus_preskip is None,
            builder.container is Mp4,
            builder.video_decoder_config is None && builder.bitstream_format is None,
            builder.aac_config is None && builder.opus_config is None,
            builder.video_language is None && builder.audio_language is None,
            builder.ass_codec_private is None,
            builder.limits.max_tracks == 8,
            builder.limits.max_samples_per_track == 10_000_000,
            builder.limits.max_sample_size == 0x400_0000,
            builder.limits.max_parameter_set_size == 0x10_0000,
            builder.limits.max_metadata_size == 0x10_0000,
            builder.limits.max_subtitle_size == 65_535,
    {
        MuxerBuilder {
            video: None,
            audio: None,
            subtitle: None,
            metadata: None,
            fast_start: true,
            sps: None,
            pps: None,
            vps: None,
            av1_sequence_header: None,
            vp9_config: None,
            flac_streaminfo: None,
            opus_preskip: None,
            container: ContainerFormat::Mp4,
            video_decoder_config: None,
            bitstream_format: None,
            aac_config: None,
            opus_config: None,
            video_language: None,
            audio_language: None,
            limits: Limits::default(),
            ass_codec_private: None,
        }
    }

    /// Sets the video track.
    pub fn video(self, codec: VideoCodec, width: u32, height: u32, framerate: FrameRate) -> (builder: Self)
        ensures
            builder == (MuxerBuilder { video: Some(VideoChoice { codec, width, height, framerate }), ..self }),
    {
        MuxerBuilder { video: Some(VideoChoice { codec, width, height, framerate }), ..self }
    }

    /// Sets the video track.
    pub fn set_video_track(self, codec: VideoCodec, width: u32, height: u32, framerate: FrameRate) -> (builder: Self)
        ensures
            builder == (MuxerBuilder { video: Some(VideoChoice { codec, width, height, framerate }), ..self }),
    {
        MuxerBuilder { video: Some(VideoChoice { codec, width, height, framerate }), ..self }
    }

    /// Sets the audio track.
    pub fn audio(self, codec: AudioCodec, sample_rate: u32, channels: u16) -> (builder: Self)
        ensures
            builder == (MuxerBuilder { audio: Some(AudioChoice { codec, sample_rate, channels }), ..self }),
    {
        MuxerBuilder { audio: Some(AudioChoice { codec, sample_rate, channels }), ..self }
    }

    /// Sets the audio track.
    pub fn set_audio_track(self, codec: AudioCodec, sample_rate: u32, channels: u16) -> (builder: Self)
        ensures
            builder == (MuxerBuilder { audio: Some(AudioChoice { codec, sample_rate, channels }), ..self }),
    {
        MuxerBuilder { audio: Some(AudioChoice { codec, sample_rate, channels }), ..self }
    }

    /// Sets the metadata.
    pub fn with_metadata(self, metadata: Metadata) -> (builder: Self)
        ensures
            builder == (MuxerBuilder { metadata: Some(metadata), ..self }),
    {
        MuxerBuilder { metadata: Some(metadata), ..self }
    }

    /// Sets whether the index comes before the media data.
    pub fn with_fast_start(self, enabled: bool) -> (builder: Self)
        ensures
            builder == (MuxerBuilder { fast_start: enabled, ..self }),
    {
        MuxerBuilder { fast_start: enabled, ..self }
    }

    /// Sets the container for a Matroska muxer.
    pub fn with_container(self, container: ContainerFormat) -> (builder: Self)
        ensures
            builder == (MuxerBuilder { container, ..self }),
    {
        MuxerBuilder { container, ..self }
    }

    /// Sets the sequence parameter set of fragmented H.264 or H.265.
    pub fn with_sps(self, sps: Vec<u8>) -> (builder: Self)
        ensures
            builder == (MuxerBuilder { sps: Some(sps), ..self }),
    {
        MuxerBuilder { sps: Some(sps), ..self }
    }

    /// Sets the picture parameter set of fragmented H.264 or H.265.
    pub fn with_pps(self, pps: Vec<u8>) -> (builder: Self)
        ensures
            builder == (MuxerBuilder { pps: Some(pps), ..self }),
    {
        MuxerBuilder { pps: Some(pps), ..self }
    }

    /// Sets the video parameter set of fragmented H.265.
    pub fn with_vps(self, vps: Vec<u8>) -> (builder: Self)
        ensures
            builder == (MuxerBuilder { vps: Some(vps), ..self }),
    {
        MuxerBuilder { vps: Some(vps), ..self }
    }

    /// Sets the sequence header of fragmented AV1.
    pub fn with_av1_sequence_header(self, sequence_header: Vec<u8>) -> (builder: Self)
        ensures
            builder == (MuxerBuilder { av1_sequence_header: Some(sequence_header), ..self }),
    {
        MuxerBuilder { av1_sequence_header: Some(sequence_header), ..self }
    }

    /// Sets the configuration of fragmented VP9.
    pub fn with_vp9_config(self, config: Vp9Config) -> (builder: Self)
        ensures
            builder == (MuxerBuilder { vp9_config: Some(config), ..self }),
    {
        MuxerBuilder { vp9_config: Some(config), ..self }
    }

    /// Sets the decoder configuration, in place of that in the first frame.
    pub fn with_video_decoder_config(self, config: VideoDecoderConfig) -> (builder: Self)
        ensures
            builder == (MuxerBuilder { video_decoder_config: Some(config), ..self }),
    {
        MuxerBuilder { video_decoder_config: Some(config), ..self }
    }

    /// Sets the format of the video frames.
    pub fn with_bitstream_format(self, format: VideoBitstreamFormat) -> (builder: Self)
        ensures
            builder == (MuxerBuilder { bitstream_format: Some(format), ..self }),
    {
        MuxerBuilder { bitstream_format: Some(format), ..self }
    }

    /// Sets the configuration of an AAC track.
    pub fn with_aac_config(self, config: AacConfig) -> (builder: Self)
        ensures
            builder == (MuxerBuilder { aac_config: Some(config), ..self }),
    {
        MuxerBuilder { aac_config: Some(config), ..self }
    }

    /// Sets the complete configuration of an Opus track.
    pub fn with_opus_config(self, config: OpusConfig) -> (builder: Self)
        ensures
            builder == (MuxerBuilder { opus_config: Some(config), ..self }),
    {
        MuxerBuilder { opus_config: Some(config), ..self }
    }

    /// Sets the language of the video track.
    pub fn with_video_language_code(self, language: LanguageCode) -> (builder: Self)
        ensures
            builder == (MuxerBuilder { video_language: Some(language), ..self }),
    {
        MuxerBuilder { video_language: Some(language), ..self }
    }

    /// Sets the language of the audio track.
    pub fn with_audio_language_code(self, language: LanguageCode) -> (builder: Self)
        ensures
            builder == (MuxerBuilder { audio_language: Some(language), ..self }),
    {
        MuxerBuilder { audio_language: Some(language), ..self }
    }

    /// Sets the resource limits.
    pub fn with_limits(self, limits: Limits) -> (builder: Self)
        ensures
            builder == (MuxerBuilder { limits, ..self }),
    {
        MuxerBuilder { limits, ..self }
    }

    /// Sets the STREAMINFO block of a FLAC track.
    pub fn with_flac_streaminfo(self, streaminfo: Vec<u8>) -> (builder: Self)
        ensures
            builder == (MuxerBuilder { flac_streaminfo: Some(streaminfo), ..self }),
    {
        MuxerBuilder { flac_streaminfo: Some(streaminfo), ..self }
    }

    /// Sets the encoder delay of an Opus track, in 48 kHz samples.
    pub fn with_opus_preskip(self, pre_skip: u16) -> (builder: Self)
        ensures
            builder == (MuxerBuilder { opus_preskip: Some(pre_skip), ..self }),
    {
        MuxerBuilder { opus_preskip: Some(pre_skip), ..self }
    }

    /// Sets the private data of an SSA or ASS track.
    pub fn with_ass_codec_private(self, codec_private: Vec<u8>) -> (builder: Self)
        ensures
            builder == (MuxerBuilder { ass_codec_private: Some(codec_private), ..self }),
    {
        MuxerBuilder { ass_codec_private: Some(codec_private), ..self }
    }

    /// Sets the subtitle track, in milliseconds.
    pub fn subtitle(self, codec: SubtitleCodec, language: Option<String>) -> (builder: Self)
        ensures
            builder == (MuxerBuilder {
                subtitle: Some(SubtitleTrackConfig { codec, language, timescale: 1_000 }),
                ..self
            }),
    {
        MuxerBuilder {
            subtitle: Some(SubtitleTrackConfig { codec, language, timescale: 1_000 }),
            ..self
        }
    }

    /// Sets the subtitle track with its ticks per second, at least one.
    pub fn subtitle_with_timescale(
        self,
        codec: SubtitleCodec,
        language: Option<String>,
        timescale: u32,
    ) -> (builder: Self)
        ensures
            builder == (MuxerBuilder {
                subtitle: Some(
                    SubtitleTrackConfig {
                        codec,
                        language,
                        timescale: if timescale == 0 {
                            1
                        } else {
                            timescale
                        },
                    },
                ),
                ..self
            }),
    {
        let timescale: u32 = if timescale == 0 {
            1
        } else {
            timescale
        };
        MuxerBuilder {
            subtitle: Some(SubtitleTrackConfig { codec, language, timescale }),
            ..self
        }
    }

    /// Sets the language of the metadata to a code of three lowercase letters.
    pub fn with_video_language(self, language: &str) -> (result: Result<Self, MuxerError>)
        ensures
            match result {
                Ok(builder) => {
                    &&& crate::time::is_language_code(vstd::utf8::encode_utf8(language@))
                    &&& types::metadata_of(builder.metadata) == Some(
                        MetadataModel {
                            language: Some(language@),
                            ..metadata_or_empty(self.metadata)
                        },
                    )
                    &&& builder == (MuxerBuilder { metadata: builder.metadata, ..self })
                },
                Err(error) => !crate::time::is_language_code(vstd::utf8::encode_utf8(language@))
                    && error == MuxerError::InvalidLanguage,
            },
    {
        match LanguageCode::parse(language) {
            Ok(_) => Ok(self.set_language(language)),
            Err(error) => Err(error),
        }
    }

    /// Sets the creation time in seconds since 1970.
    pub fn set_create_time(self, unix_timestamp: u64) -> (builder: Self)
        ensures
            types::metadata_of(builder.metadata) == Some(
                MetadataModel {
                    creation_time: Some(unix_timestamp),
                    ..metadata_or_empty(self.metadata)
                },
            ),
            builder == (MuxerBuilder { metadata: builder.metadata, ..self }),
    {
        let mut builder = self;
        let metadata: Metadata = match builder.metadata {
            Some(metadata) => metadata,
            None => Metadata::new(),
        };
        builder.metadata = Some(metadata.with_creation_time(unix_timestamp));
        builder
    }

    /// Sets the language of the metadata.
    pub fn set_language(self, language: &str) -> (builder: Self)
        ensures
            types::metadata_of(builder.metadata) == Some(
                MetadataModel { language: Some(language@), ..metadata_or_empty(self.metadata) },
            ),
            builder == (MuxerBuilder { metadata: builder.metadata, ..self }),
    {
        let mut builder = self;
        let metadata: Metadata = match builder.metadata {
            Some(metadata) => metadata,
            None => Metadata::new(),
        };
        builder.metadata = Some(metadata.with_language(language));
        builder
    }

    fn audio_is_chosen(&self) -> (yes: bool)
        ensures
            yes == self.has_audio(),
    {
        match self.audio {
            Some(audio) => match audio.codec {
                AudioCodec::NoAudio => false,
                _ => true,
            },
            None => false,
        }
    }

    /// Rules out a choice of tracks.
    fn check_tracks(&self) -> (fault: Option<MuxerError>)
        ensures
            fault == self.track_fault(),
    {
        match validate_opus_config(self.opus_config.as_ref()) {
            Ok(_) => {},
            Err(error) => return Some(error),
        }
        if self.subtitle.is_some() && self.video.is_none() {
            return Some(MuxerError::SubtitleRequiresVideo);
        }
        if self.video.is_none() && !self.audio_is_chosen() {
            return Some(MuxerError::MissingConfig);
        }
        None
    }

    /// Rules out a STREAMINFO block.
    fn check_streaminfo(&self, absent: InputFault, malformed: InputFault) -> (fault: Option<
        MuxerError,
    >)
        ensures
            fault == self.streaminfo_fault(absent, malformed),
    {
        let (rate, channels): (u32, u16) = match self.audio {
            Some(AudioChoice { codec: AudioCodec::Flac, sample_rate, channels }) => (
                sample_rate,
                channels,
            ),
            _ => return None,
        };
        let bytes: &Vec<u8> = match &self.flac_streaminfo {
            Some(bytes) => bytes,
            None => return Some(MuxerError::Io(absent)),
        };
        match parse_streaminfo(bytes.as_slice()) {
            None => Some(MuxerError::Io(malformed)),
            Some(info) => if rate != info.sample_rate || channels != info.channels as u16 {
                Some(
                    MuxerError::Io(
                        InputFault::FlacParametersDisagree {
                            sample_rate: rate,
                            channels,
                            info_rate: info.sample_rate,
                            info_channels: info.channels,
                        },
                    ),
                )
            } else {
                None
            },
        }
    }

    /// Whether the subtitle track is a script.
    fn has_script(&self) -> (script: Option<SubtitleCodec>)
        ensures
            script == (match self.subtitle {
                Some(track) => if is_script(track.codec) {
                    Some(track.codec)
                } else {
                    None
                },
                None => None,
            }),
    {
        match &self.subtitle {
            Some(track) => match track.codec {
                SubtitleCodec::Ssa | SubtitleCodec::Ass => Some(track.codec),
                _ => None,
            },
            None => None,
        }
    }

    /// Rules out an MP4 muxer.
    fn check_mp4(&self) -> (fault: Option<MuxerError>)
        ensures
            fault == self.mp4_fault(),
    {
        match self.check_tracks() {
            Some(error) => return Some(error),
            None => {},
        }
        match self.has_script() {
            Some(codec) => return Some(
                MuxerError::UnsupportedForContainer {
                    codec: RejectedCodec::Named(CodecLabel::Subtitle(codec)),
                    container: ContainerFormat::Mp4,
                    reason: RejectReason::Because(MP4_ASS_REASON),
                },
            ),
            None => {},
        }
        self.check_streaminfo(
            InputFault::MissingFlacStreaminfo,
            InputFault::InvalidFlacStreaminfo,
        )
    }

    /// Rules out a Matroska muxer.
    fn check_mkv(&self) -> (fault: Option<MuxerError>)
        ensures
            fault == self.mkv_fault(),
    {
        match self.check_tracks() {
            Some(error) => return Some(error),
            None => {},
        }
        match self.check_streaminfo(
            InputFault::MatroskaFlacStreaminfo,
            InputFault::MatroskaFlacStreaminfo,
        ) {
            Some(error) => return Some(error),
            None => {},
        }
        match (self.container, self.audio) {
            (ContainerFormat::WebM, Some(AudioChoice { codec: AudioCodec::Flac, .. })) => return Some(
                MuxerError::UnsupportedForContainer {
                    codec: RejectedCodec::Named(CodecLabel::Audio(AudioCodec::Flac)),
                    container: ContainerFormat::WebM,
                    reason: RejectReason::Because(WEBM_FLAC_REASON),
                },
            ),
            _ => {},
        }
        if self.has_script().is_some() && self.ass_codec_private.is_none() {
            return Some(MuxerError::Io(InputFault::AssCodecPrivateMissing));
        }
        None
    }

    /// Rules out a file with a single audio track.
    fn check_audio_only(
        &self,
        is_flac: bool,
        container: ContainerFormat,
        reason: &'static str,
    ) -> (fault: Option<MuxerError>)
        ensures
            fault == self.audio_only_fault(is_flac, container, reason),
    {
        match validate_opus_config(self.opus_config.as_ref()) {
            Ok(_) => {},
            Err(error) => return Some(error),
        }
        let rejected: CodecLabel = match (self.video, &self.subtitle, self.audio) {
            (Some(video), _, _) => CodecLabel::Video(video.codec),
            (None, Some(track), _) => CodecLabel::Subtitle(track.codec),
            (None, None, None) => return Some(MuxerError::MissingConfig),
            (None, None, Some(audio)) => match audio.codec {
                AudioCodec::NoAudio => return Some(MuxerError::MissingConfig),
                AudioCodec::Flac => if is_flac {
                    return self.check_streaminfo(
                        InputFault::MissingFlacStreaminfo,
                        InputFault::InvalidFlacStreaminfo,
                    );
                } else {
                    CodecLabel::Audio(audio.codec)
                },
                AudioCodec::Opus => if is_flac {
                    CodecLabel::Audio(audio.codec)
                } else {
                    return None;
                },
                AudioCodec::Aac(_) => CodecLabel::Audio(audio.codec),
            },
        };
        Some(
            MuxerError::UnsupportedForContainer {
                codec: RejectedCodec::Named(rejected),
                container,
                reason: RejectReason::Because(reason),
            },
        )
    }

    /// A front with the chosen tracks.
    fn front(&self) -> (front: Front)
        ensures
            self.starts_as(front),
            front.is_sound(),
    {
        let video_language: LanguageCode = match self.video_language {
            Some(language) => language,
            None => LanguageCode::und(),
        };
        let audio_language: LanguageCode = match self.audio_language {
            Some(language) => language,
            None => LanguageCode::und(),
        };
        let video_track: Option<VideoTrackConfig> = match self.video {
            Some(VideoChoice { codec, width, height, framerate }) => Some(
                VideoTrackConfig {
                    codec,
                    width,
                    height,
                    framerate,
                    timescale: 90_000,
                    language: video_language,
                },
            ),
            None => None,
        };
        let audio_track: Option<AudioTrackConfig> = match self.audio {
            Some(audio) => choose_audio(
                audio.codec,
                audio.sample_rate,
                audio.channels,
                audio_language,
            ),
            None => None,
        };
        let subtitle: Option<SubtitleTiming> = match &self.subtitle {
            Some(track) => Some(
                SubtitleTiming { codec: track.codec, timescale: track.timescale },
            ),
            None => None,
        };
        Front {
            video_track,
            audio_track,
            subtitle,
            limits: self.limits,
            last_video_pts: None,
            last_video_dts: None,
            last_audio_pts: None,
            last_subtitle_pts: None,
            video_frames: 0,
            audio_frames: 0,
            subtitle_frames: 0,
            video_clock: Seconds { bits: 0 },
            audio_clock: Seconds { bits: 0 },
            finished: false,
        }
    }

    /// What the writer of a file is told before the first sample.
    fn into_setup(self) -> (setup: Mp4Setup)
        ensures
            self.describes(setup),
    {
        let has_audio: bool = self.audio_is_chosen();
        let script: bool = self.has_script().is_some();
        let language: LanguageCode = match self.audio_language {
            Some(language) => language,
            None => LanguageCode::und(),
        };
        let audio: Option<Mp4AudioTrack> = match self.audio {
            Some(AudioChoice { codec, sample_rate, channels }) => if has_audio {
                Some(
                    Mp4AudioTrack {
                        sample_rate,
                        channels,
                        codec,
                        flac_streaminfo: self.flac_streaminfo,
                        opus_preskip: self.opus_preskip,
                        aac_asc_override: match self.aac_config {
                            Some(config) => Some(config.audio_specific_config),
                            None => None,
                        },
                        opus_config_override: self.opus_config,
                        language: Some(language.text()),
                    },
                )
            } else {
                None
            },
            None => None,
        };
        let subtitle: Option<Mp4SubtitleTrack> = match self.subtitle {
            Some(track) => Some(
                Mp4SubtitleTrack {
                    codec: track.codec,
                    language: track.language,
                    codec_private: if script {
                        self.ass_codec_private
                    } else {
                        None
                    },
                },
            ),
            None => None,
        };
        let (video_codec, video_config): (Option<VideoCodec>, Option<VideoDecoderConfig>) =
            match self.video {
            Some(video) => (Some(video.codec), self.video_decoder_config),
            None => (None, None),
        };
        Mp4Setup { video_codec, video_config, audio, subtitle, metadata: self.metadata }
    }

    /// A buffered MP4 muxer, and what its box writer is told first.
    pub fn build(self) -> (result: Result<(Muxer, Mp4Setup), MuxerError>)
        ensures
            match result {
                Ok(built) => {
                    &&& self.mp4_fault() is None
                    &&& self.starts_as(built.0@)
                    &&& built.0@.is_sound()
                    &&& built.0.has_fast_start() == self.fast_start
                    &&& self.describes(built.1)
                },
                Err(error) => self.mp4_fault() == Some(error),
            },
    {
        match self.check_mp4() {
            Some(error) => return Err(error),
            None => {},
        }
        let muxer: Muxer = Muxer::start(self.front(), self.fast_start);
        Ok((muxer, self.into_setup()))
    }

    /// A streaming MP4 muxer, what its box writer is told first, and the bytes
    /// to write first. `ftyp` is the first box of the file.
    pub fn build_streaming_seekable(self, ftyp: &[u8]) -> (result: Result<
        (StreamingMuxer, Mp4Setup, Vec<u8>),
        MuxerError,
    >)
        requires
            ftyp@.len() + streaming::STREAM_MDAT_HEADER_LEN <= u64::MAX,
        ensures
            match result {
                Ok(built) => {
                    &&& self.mp4_fault() is None
                    &&& built.0@.is_sound()
                    &&& self.starts_as(built.0@.front)
                    &&& built.0@.stream == streaming::empty_stream(ftyp@.len())
                    &&& built.0@.stream.bytes_written == built.2@.len()
                    &&& built.0@.video_end is None && built.0@.audio_end is None
                    &&& built.0@.subtitle_end is None
                    &&& self.describes(built.1)
                    &&& built.2@ == ftyp@ + streaming::mdat_header(0)
                },
                Err(error) => self.mp4_fault() == Some(error),
            },
    {
        match self.check_mp4() {
            Some(error) => return Err(error),
            None => {},
        }
        let (muxer, head) = StreamingMuxer::start(self.front(), ftyp);
        Ok((muxer, self.into_setup(), head))
    }

    /// A Matroska or WebM muxer.
    pub fn build_mkv(self) -> (result: Result<MkvMuxer, MuxerError>)
        ensures
            match result {
                Ok(muxer) => {
                    &&& self.mkv_fault() is None
                    &&& muxer@.is_sound()
                    &&& self.starts_as(muxer@.front)
                    &&& muxer@.container == self.mkv_container()
                    &&& muxer@.metadata == types::metadata_of(self.metadata)
                    &&& muxer@.queue == (MkvQueue {
                        video_codec: match self.video {
                            Some(video) => Some(video.codec),
                            None => None,
                        },
                        audio_track: muxer@.queue.audio_track,
                        subtitle_track: muxer@.queue.subtitle_track,
                        ..mkv::empty_queue()
                    })
                    &&& self.describes_audio(muxer@.queue.audio_track)
                    &&& self.describes_subtitle(muxer@.queue.subtitle_track)
                },
                Err(error) => self.mkv_fault() == Some(error),
            },
    {
        match self.check_mkv() {
            Some(error) => return Err(error),
            None => {},
        }
        let container: MkvContainer = match self.container {
            ContainerFormat::WebM => MkvContainer::WebM,
            _ => MkvContainer::Matroska,
        };
        let front: Front = self.front();
        let setup: Mp4Setup = self.into_setup();
        let mut writer = MkvWriter::new();
        match setup.video_codec {
            Some(codec) => writer.enable_video(codec),
            None => {},
        }
        match setup.audio {
            Some(track) => writer.enable_audio(track),
            None => {},
        }
        match setup.subtitle {
            Some(track) => writer.enable_subtitle(track),
            None => {},
        }
        Ok(MkvMuxer::start(front, writer, container, setup.metadata))
    }

    /// An Ogg Opus muxer.
    pub fn build_ogg(self) -> (result: Result<OggMuxer, MuxerError>)
        ensures
            match result {
                Ok(muxer) => {
                    &&& self.audio_only_fault(false, ContainerFormat::Ogg, OGG_REASON) is None
                    &&& muxer.wf()
                    &&& self.starts_as(muxer@.front)
                    &&& muxer@.metadata == types::metadata_of(self.metadata)
                    &&& self.describes_audio(muxer@.queue.track)
                    &&& muxer@.queue.packets.len() == 0
                    &&& muxer@.queue.last_pts is None
                    &&& !muxer@.queue.finalized
                    &&& muxer@.queue.bytes_written == 0
                },
                Err(error) => self.audio_only_fault(false, ContainerFormat::Ogg, OGG_REASON)
                    == Some(error),
            },
    {
        match self.check_audio_only(false, ContainerFormat::Ogg, OGG_REASON) {
            Some(error) => return Err(error),
            None => {},
        }
        let front: Front = self.front();
        let setup: Mp4Setup = self.into_setup();
        let mut writer = OggWriter::new();
        match setup.audio {
            Some(track) => writer.enable_audio(track),
            None => {},
        }
        Ok(OggMuxer::start(front, writer, setup.metadata))
    }

    /// A native FLAC muxer.
    pub fn build_flac(self) -> (result: Result<FlacMuxer, MuxerError>)
        ensures
            match result {
                Ok(muxer) => {
                    &&& self.audio_only_fault(true, ContainerFormat::Flac, FLAC_REASON) is None
                    &&& muxer.wf()
                    &&& self.starts_as(muxer@.front)
                    &&& muxer@.metadata == types::metadata_of(self.metadata)
                    &&& self.describes_audio(muxer@.queue.track)
                    &&& muxer@.queue.frames.len() == 0
                    &&& muxer@.queue.end is None
                    &&& !muxer@.queue.finalized
                    &&& muxer@.queue.bytes_written == 0
                },
                Err(error) => self.audio_only_fault(true, ContainerFormat::Flac, FLAC_REASON)
                    == Some(error),
            },
    {
        match self.check_audio_only(true, ContainerFormat::Flac, FLAC_REASON) {
            Some(error) => return Err(error),
            None => {},
        }
        let front: Front = self.front();
        let setup: Mp4Setup = self.into_setup();
        let mut writer = FlacWriter::new();
        match setup.audio {
            Some(track) => writer.enable_audio(track),
            None => {},
        }
        Ok(FlacMuxer::start(front, writer, setup.metadata))
    }

    /// The configuration of fragmented MP4 output: that of the video track,
    /// with the parameters that its codec needs.
    pub fn new_with_fragment(self) -> (result: Result<FragmentConfig, MuxerError>)
        ensures
            match result {
                Ok(config) => self.fragment_fault() is None && self.describes_fragments(config),
                Err(error) => self.fragment_fault() == Some(error),
            },
    {
        let (codec, width, height): (VideoCodec, u32, u32) = match self.video {
            Some(video) => (video.codec, video.width, video.height),
            None => return Err(MuxerError::MissingConfig),
        };
        let boundary = SegmentBoundary::Duration {
            target: FRAGMENT_DURATION_TICKS,
            require_sync_sample: true,
        };
        let mut config = FragmentConfig {
            width,
            height,
            timescale: FRAGMENT_TIMESCALE,
            fragment_duration_ms: FRAGMENT_DURATION_MS,
            boundary,
            sps: Vec::new(),
            pps: Vec::new(),
            vps: None,
            av1_sequence_header: None,
            vp9_config: None,
        };
        match codec {
            VideoCodec::H264 => {
                config.sps = match self.sps {
                    Some(sps) => sps,
                    None => return Err(MuxerError::Io(InputFault::H264SpsMissing)),
                };
                config.pps = match self.pps {
                    Some(pps) => pps,
                    None => return Err(MuxerError::Io(InputFault::H264PpsMissing)),
                };
            },
            VideoCodec::H265 => {
                if self.vps.is_none() {
                    return Err(MuxerError::Io(InputFault::H265VpsMissing));
                }
                config.vps = self.vps;
                config.sps = match self.sps {
                    Some(sps) => sps,
                    None => return Err(MuxerError::Io(InputFault::H265SpsMissing)),
                };
                config.pps = match self.pps {
                    Some(pps) => pps,
                    None => return Err(MuxerError::Io(InputFault::H265PpsMissing)),
                };
            },
            VideoCodec::Av1 => {
                if self.av1_sequence_header.is_none() {
                    return Err(MuxerError::Io(InputFault::Av1SequenceHeaderMissing));
                }
                config.av1_sequence_header = self.av1_sequence_header;
            },
            VideoCodec::Vp9 => {
                if self.vp9_config.is_none() {
                    return Err(MuxerError::Io(InputFault::Vp9ConfigMissing));
                }
                config.vp9_config = self.vp9_config;
            },
        }
        Ok(config)
    }
}

} // verus!
