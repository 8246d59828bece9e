//! Matroska and WebM writer.
//!
//! Samples are queued and the complete file is laid out at the end: the EBML
//! head, then a segment with its information, the tracks, the clusters and
//! the seek points. Times come in ticks of 1/90000 s and are stored in
//! milliseconds. WebM takes VP9 and AV1 video and Opus audio only.

use vstd::prelude::*;
use vstd::string::StringExecFns;
use crate::api::{AudioCodec, CodecLabel, Metadata, SubtitleCodec, VideoCodec};
use crate::codec::flac::{self, is_valid_flac_frame};
use crate::codec::opus::{self, is_valid_opus_packet};
use crate::codec::vp9::{self, extract_vp9_config};
use crate::muxer::ebml::{
    self, encode_ebml, encode_header, encode_info, encode_track, encode_video_track, TrackFields,
    TrackModel, MAX_BODY, SEGMENT_ID, TRACKS_ID,
};
use crate::muxer::mkv_layout::{
    self, collect_blocks, encode_media, MkvSample, SampleModel, AUDIO_TRACK_NUMBER, MAX_TIME_MS,
    SUBTITLE_TRACK_NUMBER, VIDEO_TRACK_NUMBER,
};
use crate::muxer::mp4::{Mp4AudioTrack, Mp4SubtitleTrack, Mp4VideoTrack};
use crate::wire::{self, put_le16, put_le32, put_slice};

verus! {

/// Nanoseconds per tick of the file.
pub const MKV_TIMESTAMP_SCALE_NS: u64 = 1_000_000;

/// Encoder delay of Opus, in 48 kHz samples.
pub const OPUS_PRE_SKIP: u16 = 312;

/// Encoder delay of Opus, in nanoseconds.
pub const OPUS_CODEC_DELAY_NS: u64 = 6_500_000;

/// How far a player decodes ahead of a seek target, in nanoseconds.
pub const OPUS_SEEK_PRE_ROLL_NS: u64 = 80_000_000;

/// The application named in the file.
pub const WRITING_APP: &'static str = "muxfin-0.2.2";

/// Longest identifier and longest length of an element, in bytes.
pub const MAX_ID_LENGTH: u64 = 4;
pub const MAX_SIZE_LENGTH: u64 = 8;

/// Version of the document type, and the version that a reader needs.
pub const DOC_TYPE_VERSION: u64 = 4;
pub const DOC_TYPE_READ_VERSION: u64 = 2;

/// Kinds of tracks.
pub const VIDEO_KIND: u64 = 1;
pub const AUDIO_KIND: u64 = 2;
pub const SUBTITLE_KIND: u64 = 17;

/// One frame to a block.
pub const NO_LACING: u64 = 0;

/// Field order of pictures without fields.
pub const PROGRESSIVE: u64 = 0;

/// The flavour of the file.
#[derive(Debug, Clone, Copy, PartialEq, Eq, Structural)]
pub enum MkvContainer {
    /// Matroska.
    Matroska,
    /// WebM.
    WebM,
}

impl Default for MkvContainer {
    fn default() -> (container: Self)
        ensures
            container == MkvContainer::Matroska,
    {
        MkvContainer::Matroska
    }
}

impl MkvContainer {
    /// The document type.
    pub open spec fn doc_type_text(self) -> Seq<char> {
        match self {
            MkvContainer::Matroska => "matroska"@,
            MkvContainer::WebM => "webm"@,
        }
    }

    /// The document type.
    pub fn doc_type(self) -> (name: &'static str)
        ensures
            name@ == self.doc_type_text(),
    {
        match self {
            MkvContainer::Matroska => "matroska",
            MkvContainer::WebM => "webm",
        }
    }

    /// Whether the container takes a video codec.
    pub open spec fn takes_video(self, codec: VideoCodec) -> bool {
        self is Matroska || codec is Vp9 || codec is Av1
    }

    /// Whether the container takes a video codec.
    pub fn supports_video(self, codec: VideoCodec) -> (yes: bool)
        ensures
            yes == self.takes_video(codec),
    {
        match self {
            MkvContainer::Matroska => true,
            MkvContainer::WebM => codec == VideoCodec::Vp9 || codec == VideoCodec::Av1,
        }
    }

    /// Whether the container takes an audio codec.
    pub open spec fn takes_audio(self, codec: AudioCodec) -> bool {
        match self {
            MkvContainer::Matroska => codec != AudioCodec::NoAudio,
            MkvContainer::WebM => codec == AudioCodec::Opus,
        }
    }

    /// Whether the container takes an audio codec.
    pub fn supports_audio(self, codec: AudioCodec) -> (yes: bool)
        ensures
            yes == self.takes_audio(codec),
    {
        match self {
            MkvContainer::Matroska => codec != AudioCodec::NoAudio,
            MkvContainer::WebM => codec == AudioCodec::Opus,
        }
    }

    /// The name of the container.
    pub open spec fn name_text(self) -> Seq<char> {
        match self {
            MkvContainer::Matroska => "Matroska"@,
            MkvContainer::WebM => "WebM"@,
        }
    }

    /// The name of the container.
    pub fn name(self) -> (name: &'static str)
        ensures
            name@ == self.name_text(),
    {
        match self {
            MkvContainer::Matroska => "Matroska",
            MkvContainer::WebM => "WebM",
        }
    }
}

/// Errors of the Matroska writer.
#[derive(Debug, Clone, Copy, PartialEq, Eq)]
pub enum MkvWriterError {
    /// Times do not grow as they must.
    NonIncreasingTimestamp,
    /// The first video frame is not a keyframe.
    FirstFrameMustBeKeyframe,
    /// The first keyframe lacks its parameter sets.
    FirstFrameMissingSpsPps,
    /// The first AV1 keyframe lacks its sequence header.
    FirstFrameMissingSequenceHeader,
    /// The first VP9 keyframe has no valid header.
    FirstFrameMissingVp9Config,
    /// The audio sample is not an ADTS frame.
    InvalidAdtsDetailed,
    /// The audio sample is not an Opus packet.
    InvalidOpusPacket,
    /// The audio sample is not a FLAC frame.
    InvalidFlacFrame,
    /// A FLAC track has no STREAMINFO.
    MissingFlacStreaminfo,
    /// There is no video track.
    VideoNotEnabled,
    /// There is no audio track.
    AudioNotEnabled,
    /// There is no subtitle track.
    SubtitleNotEnabled,
    /// The subtitle is empty.
    EmptySubtitle,
    /// Video was queued, but the track has no parameters.
    ConfigWithoutVideoTrack,
    /// There is nothing to write.
    NoTracks,
    /// The file has been written.
    AlreadyFinalized,
    /// The file has been written, and was to be written again.
    FinalizedTwice,
    /// WebM does not take the codec.
    UnsupportedForWebM { codec: CodecLabel, reason: &'static str },
}

/// Why WebM does not take a video codec.
pub const WEBM_VIDEO_REASON: &'static str =
    "WebM only supports VP9 and AV1 video; use Matroska (.mkv) for H.264/H.265";

/// Why WebM does not take an audio codec.
pub const WEBM_AUDIO_REASON: &'static str =
    "WebM only supports Opus audio; use Matroska (.mkv) for AAC";

/// Why WebM does not take subtitles.
pub const WEBM_SUBTITLE_REASON: &'static str =
    "WebM subtitles require WebVTT; use Matroska (.mkv) for text subtitles";

impl MkvWriterError {
    /// The message text.
    pub open spec fn text(self) -> Seq<char> {
        match self {
            MkvWriterError::NonIncreasingTimestamp => "timestamps must grow"@,
            MkvWriterError::FirstFrameMustBeKeyframe => "first frame must be a keyframe"@,
            MkvWriterError::FirstFrameMissingSpsPps => "first frame must contain SPS/PPS"@,
            MkvWriterError::FirstFrameMissingSequenceHeader =>
                "first AV1 frame must contain Sequence Header OBU"@,
            MkvWriterError::FirstFrameMissingVp9Config =>
                "first VP9 frame must contain valid frame header"@,
            MkvWriterError::InvalidAdtsDetailed => "invalid ADTS frame"@,
            MkvWriterError::InvalidOpusPacket => "invalid Opus packet"@,
            MkvWriterError::InvalidFlacFrame => "invalid FLAC frame"@,
            MkvWriterError::MissingFlacStreaminfo =>
                "FLAC STREAMINFO must be provided using with_flac_streaminfo()"@,
            MkvWriterError::VideoNotEnabled =>
                "video track not enabled: enable_video() must have been called before write_video_sample()"@,
            MkvWriterError::AudioNotEnabled => "audio track not enabled"@,
            MkvWriterError::SubtitleNotEnabled => "subtitle track not enabled"@,
            MkvWriterError::EmptySubtitle => "subtitle sample is empty"@,
            MkvWriterError::ConfigWithoutVideoTrack =>
                "video config extracted but no video track provided"@,
            MkvWriterError::NoTracks =>
                "no tracks to mux: enable at least one track and write samples"@,
            MkvWriterError::AlreadyFinalized => "writer already finalised"@,
            MkvWriterError::FinalizedTwice => "mkv writer already finalised"@,
            MkvWriterError::UnsupportedForWebM { codec, reason } => "codec "@ + codec.name_text()
                + " is not allowed in WebM: "@ + reason@,
        }
    }

    /// The error as a message.
    pub fn message(&self) -> (message: String)
        ensures
            message@ == self.text(),
    {
        match *self {
            MkvWriterError::NonIncreasingTimestamp => String::from_str("timestamps must grow"),
            MkvWriterError::FirstFrameMustBeKeyframe => String::from_str(
                "first frame must be a keyframe",
            ),
            MkvWriterError::FirstFrameMissingSpsPps => String::from_str(
                "first frame must contain SPS/PPS",
            ),
            MkvWriterError::FirstFrameMissingSequenceHeader => String::from_str(
                "first AV1 frame must contain Sequence Header OBU",
            ),
            MkvWriterError::FirstFrameMissingVp9Config => String::from_str(
                "first VP9 frame must contain valid frame header",
            ),
            MkvWriterError::InvalidAdtsDetailed => String::from_str("invalid ADTS frame"),
            MkvWriterError::InvalidOpusPacket => String::from_str("invalid Opus packet"),
            MkvWriterError::InvalidFlacFrame => String::from_str("invalid FLAC frame"),
            MkvWriterError::MissingFlacStreaminfo => String::from_str(
                "FLAC STREAMINFO must be provided using with_flac_streaminfo()",
            ),
            MkvWriterError::VideoNotEnabled => String::from_str(
                "video track not enabled: enable_video() must have been called before write_video_sample()",
            ),
            MkvWriterError::AudioNotEnabled => String::from_str("audio track not enabled"),
            MkvWriterError::SubtitleNotEnabled => String::from_str("subtitle track not enabled"),
            MkvWriterError::EmptySubtitle => String::from_str("subtitle sample is empty"),
            MkvWriterError::ConfigWithoutVideoTrack => String::from_str(
                "video config extracted but no video track provided",
            ),
            MkvWriterError::NoTracks => String::from_str(
                "no tracks to mux: enable at least one track and write samples",
            ),
            MkvWriterError::AlreadyFinalized => String::from_str("writer already finalised"),
            MkvWriterError::FinalizedTwice => String::from_str("mkv writer already finalised"),
            MkvWriterError::UnsupportedForWebM { codec, reason } => {
                let mut out = String::from_str("codec ");
                out.append(codec.name());
                out.append(" is not allowed in WebM: ");
                out.append(reason);
                out
            },
        }
    }
}

/// Whole milliseconds of a time in ticks of 1/90000 s. Times whose
/// thousandfold does not fit 64 bits count as the largest that does.
pub open spec fn ms_of(ticks: u64) -> u64 {
    ((if ticks * 1000 > u64::MAX {
        u64::MAX as int
    } else {
        ticks * 1000
    }) / 90_000) as u64
}

/// Whole milliseconds of a time in ticks of 1/90000 s.
pub fn ticks_to_ms(ticks: u64) -> (ms: u64)
    ensures
        ms == ms_of(ticks),
        ms < MAX_TIME_MS,
{
    if ticks > u64::MAX / 1000 {
        u64::MAX / 90_000
    } else {
        ticks * 1000 / 90_000
    }
}

/// Milliseconds grow with ticks.
pub proof fn ms_of_is_monotone(earlier: u64, later: u64)
    requires
        earlier <= later,
    ensures
        ms_of(earlier) <= ms_of(later) < MAX_TIME_MS,
{
}

/// Seconds between 1970 and 2001.
pub const EPOCH_2001_SECS: i64 = 978_307_200;

/// The date field of a time in seconds since 1970: nanoseconds since 2001,
/// held within 64 bits.
pub open spec fn date_of(unix_secs: u64) -> i64 {
    let secs: int = if unix_secs > i64::MAX {
        unix_secs - 0x1_0000_0000_0000_0000
    } else {
        unix_secs as int
    };
    let nanos = (secs - EPOCH_2001_SECS) * 1_000_000_000;
    if nanos > i64::MAX {
        i64::MAX
    } else if nanos < i64::MIN {
        i64::MIN
    } else {
        nanos as i64
    }
}

/// The date field of a time in seconds since 1970.
pub fn unix_to_ebml_date(unix_secs: u64) -> (date: i64)
    ensures
        date == date_of(unix_secs),
{
    let secs: i128 = if unix_secs > 0x7FFF_FFFF_FFFF_FFFF {
        unix_secs as i128 - 0x1_0000_0000_0000_0000
    } else {
        unix_secs as i128
    };
    let nanos: i128 = (secs - 978_307_200) * 1_000_000_000;
    if nanos > 0x7FFF_FFFF_FFFF_FFFF {
        i64::MAX
    } else if nanos < -0x8000_0000_0000_0000 {
        i64::MIN
    } else {
        nanos as i64
    }
}

/// The codec identifier of a video codec.
pub open spec fn video_codec_text(codec: VideoCodec) -> Seq<char> {
    match codec {
        VideoCodec::H264 => "V_MPEG4/ISO/AVC"@,
        VideoCodec::H265 => "V_MPEGH/ISO/HEVC"@,
        VideoCodec::Av1 => "V_AV1"@,
        VideoCodec::Vp9 => "V_VP9"@,
    }
}

/// The codec identifier of a video codec.
pub fn video_codec_id(codec: VideoCodec) -> (id: &'static str)
    ensures
        id@ == video_codec_text(codec),
        id@.len() <= 16,
{
    proof {
        reveal_strlit("V_MPEG4/ISO/AVC");
        reveal_strlit("V_MPEGH/ISO/HEVC");
        reveal_strlit("V_AV1");
        reveal_strlit("V_VP9");
    }
    match codec {
        VideoCodec::H264 => "V_MPEG4/ISO/AVC",
        VideoCodec::H265 => "V_MPEGH/ISO/HEVC",
        VideoCodec::Av1 => "V_AV1",
        VideoCodec::Vp9 => "V_VP9",
    }
}

/// The audio configuration that an ADTS header stands for: the object type,
/// the index of the sample rate, and the channel configuration.
pub open spec fn asc_of(header: Seq<u8>) -> Seq<u8> {
    let object_type = header[2] as int / 0x40 + 1;
    let rate_index = header[2] as int / 4 % 0x10;
    let channels = header[2] as int % 2 * 4 + header[3] as int / 0x40;
    seq![
        (object_type * 8 + rate_index / 2) as u8,
        (rate_index % 2 * 0x80 + channels * 8) as u8,
    ]
}

/// The audio configuration that an ADTS header stands for.
pub fn aac_audio_specific_config(header: [u8; 4]) -> (config: [u8; 2])
    ensures
        config@ == asc_of(header@),
{
    let object_type: u8 = header[2] / 0x40 + 1;
    let rate_index: u8 = header[2] / 4 % 0x10;
    let channels: u8 = header[2] % 2 * 4 + header[3] / 0x40;
    let config: [u8; 2] = [
        object_type * 8 + rate_index / 2,
        rate_index % 2 * 0x80 + channels * 8,
    ];
    assert(config@ =~= asc_of(header@));
    config
}

/// The audio configuration where no frame was seen: two channels at 44.1 kHz.
pub open spec fn default_asc() -> Seq<u8> {
    seq![0x12u8, 0x10]
}

/// The identification header of an Opus track: version 1, the default delay,
/// 48 kHz, no gain, mapping family 0.
pub open spec fn opus_head_bytes(channels: u8) -> Seq<u8> {
    seq![0x4Fu8, 0x70, 0x75, 0x73, 0x48, 0x65, 0x61, 0x64, 1, channels] + wire::le16(OPUS_PRE_SKIP)
        + wire::le32(48_000) + wire::le16(0) + seq![0u8]
}

/// Builds the identification header of an Opus track.
pub fn opus_head(channels: u8) -> (head: Vec<u8>)
    ensures
        head@ == opus_head_bytes(channels),
        head@.len() == 19,
{
    let mut head: Vec<u8> = vec![0x4F, 0x70, 0x75, 0x73, 0x48, 0x65, 0x61, 0x64, 1];
    head.push(channels);
    put_le16(&mut head, OPUS_PRE_SKIP);
    put_le32(&mut head, 48_000);
    put_le16(&mut head, 0);
    head.push(0);
    assert(head@ =~= opus_head_bytes(channels));
    head
}

/// The decoder configuration record of an H.264 track without frames:
/// baseline profile, level 3.0.
pub open spec fn default_avc_record() -> Seq<u8> {
    seq![
        0x01u8, 0x42, 0x00, 0x1E, 0xFF, 0xE1, 0x00, 0x0A, 0x67, 0x42, 0x00, 0x1E, 0xDA, 0x02, 0x80,
        0x2D, 0x8B, 0x11, 0x01, 0x00, 0x04, 0x68, 0xCE, 0x38, 0x80,
    ]
}

/// What a Matroska writer has queued.
pub struct MkvQueue {
    /// The video codec, once set.
    pub video_codec: Option<VideoCodec>,
    /// Whether the decoder configuration is known, and the private data that
    /// it makes.
    pub setup: Option<Option<Seq<u8>>>,
    /// The video samples, in decode order.
    pub video: Seq<SampleModel>,
    /// The decode time of the last video sample, in ticks.
    pub video_prev: Option<u64>,
    /// The distance of the last two video samples.
    pub video_delta: Option<u64>,
    /// The audio track, once set.
    pub audio_track: Option<Mp4AudioTrack>,
    /// The audio samples, in order.
    pub audio: Seq<SampleModel>,
    /// The time of the last audio sample.
    pub audio_prev: Option<u64>,
    /// The distance of the last two audio samples.
    pub audio_delta: Option<u64>,
    /// The first four bytes of the first ADTS frame.
    pub adts: Option<Seq<u8>>,
    /// The subtitle track, once set.
    pub subtitle_track: Option<Mp4SubtitleTrack>,
    /// The subtitles, in order.
    pub subtitles: Seq<SampleModel>,
    /// The time of the last subtitle.
    pub subtitle_prev: Option<u64>,
    /// Whether the file has been written.
    pub finalized: bool,
    /// The length of the written file.
    pub bytes_written: u64,
}

/// The distance of two times, at least one millisecond.
pub open spec fn step(from: u64, to: u64) -> u64 {
    if to > from {
        (to - from) as u64
    } else {
        1
    }
}

/// `samples` with the duration of the last one set.
pub open spec fn with_last_duration(samples: Seq<SampleModel>, duration: u64) -> Seq<SampleModel> {
    if samples.len() == 0 {
        samples
    } else {
        samples.update(
            samples.len() - 1,
            SampleModel { duration_ms: Some(duration), ..samples.last() },
        )
    }
}

/// The error for a first frame without decoder configuration.
pub open spec fn missing_setup(codec: VideoCodec) -> MkvWriterError {
    match codec {
        VideoCodec::Av1 => MkvWriterError::FirstFrameMissingSequenceHeader,
        VideoCodec::Vp9 => MkvWriterError::FirstFrameMissingVp9Config,
        _ => MkvWriterError::FirstFrameMissingSpsPps,
    }
}

/// The private data from the first frame: that of VP9 is read from the frame
/// and empty, the others have their configuration record.
pub open spec fn first_setup(codec: VideoCodec, data: Seq<u8>, record: Option<Seq<u8>>) -> Option<
    Option<Seq<u8>>,
> {
    if codec is Vp9 {
        if vp9::config_of(data) is Some {
            Some(None)
        } else {
            None
        }
    } else {
        match record {
            Some(record) => Some(Some(record)),
            None => None,
        }
    }
}

impl MkvQueue {
    /// The bytes written once a file of some length is; as many as can be
    /// counted.
    pub open spec fn bytes_with(self, len: nat) -> u64 {
        if self.bytes_written + len > u64::MAX {
            u64::MAX
        } else {
            (self.bytes_written + len) as u64
        }
    }

    /// What stands in the way of a video sample, if anything.
    pub open spec fn video_fault(
        self,
        dts: u64,
        data: Seq<u8>,
        is_keyframe: bool,
        record: Option<Seq<u8>>,
    ) -> Option<MkvWriterError> {
        if self.finalized {
            Some(MkvWriterError::AlreadyFinalized)
        } else {
            match self.video_codec {
                None => Some(MkvWriterError::VideoNotEnabled),
                Some(codec) => match self.video_prev {
                    Some(prev) => if dts <= prev {
                        Some(MkvWriterError::NonIncreasingTimestamp)
                    } else {
                        None
                    },
                    None => if !is_keyframe {
                        Some(MkvWriterError::FirstFrameMustBeKeyframe)
                    } else if first_setup(codec, data, record) is None {
                        Some(missing_setup(codec))
                    } else {
                        None
                    },
                },
            }
        }
    }

    /// The queue with a video sample behind the others.
    pub open spec fn with_video(
        self,
        pts: u64,
        dts: u64,
        data: Seq<u8>,
        is_keyframe: bool,
        record: Option<Seq<u8>>,
    ) -> MkvQueue {
        let sample = SampleModel {
            pts_ms: ms_of(pts),
            dts_ms: ms_of(dts),
            data,
            is_keyframe,
            duration_ms: None,
        };
        match self.video_prev {
            Some(prev) => {
                let delta = step(ms_of(prev), ms_of(dts));
                MkvQueue {
                    video: with_last_duration(self.video, delta).push(sample),
                    video_prev: Some(dts),
                    video_delta: Some(delta),
                    ..self
                }
            },
            None => MkvQueue {
                setup: first_setup(self.video_codec->0, data, record),
                video: self.video.push(sample),
                video_prev: Some(dts),
                ..self
            },
        }
    }

    /// What stands in the way of an audio sample before its data is looked
    /// at, if anything.
    pub open spec fn audio_time_fault(self, pts: u64) -> Option<MkvWriterError> {
        if self.finalized {
            Some(MkvWriterError::AlreadyFinalized)
        } else if self.audio_track is None {
            Some(MkvWriterError::AudioNotEnabled)
        } else if self.audio_prev matches Some(prev) && ms_of(pts) < prev {
            Some(MkvWriterError::NonIncreasingTimestamp)
        } else {
            None
        }
    }

    /// The queue once the time of a further audio sample is known: the sample
    /// before it lasts until then.
    pub open spec fn audio_timed(self, pts: u64) -> MkvQueue {
        match self.audio_prev {
            Some(prev) => {
                let delta = step(prev, ms_of(pts));
                MkvQueue {
                    audio: with_last_duration(self.audio, delta),
                    audio_delta: Some(delta),
                    ..self
                }
            },
            None => self,
        }
    }

    /// What is wrong with the data of an audio sample, if anything. `raw` is
    /// the access unit inside an ADTS frame.
    pub open spec fn audio_data_fault(self, data: Seq<u8>, raw: Option<Seq<u8>>) -> Option<
        MkvWriterError,
    > {
        match self.audio_track->0.codec {
            AudioCodec::Aac(_) => if raw is None {
                Some(MkvWriterError::InvalidAdtsDetailed)
            } else {
                None
            },
            AudioCodec::Opus => if opus::packet_samples(data) is None {
                Some(MkvWriterError::InvalidOpusPacket)
            } else {
                None
            },
            AudioCodec::Flac => if flac::frame_header_of(data) is None {
                Some(MkvWriterError::InvalidFlacFrame)
            } else {
                None
            },
            AudioCodec::NoAudio => Some(MkvWriterError::AudioNotEnabled),
        }
    }

    /// The queue with an audio sample behind the others.
    pub open spec fn with_audio(self, pts: u64, data: Seq<u8>, raw: Option<Seq<u8>>) -> MkvQueue {
        let timed = self.audio_timed(pts);
        let is_aac = self.audio_track->0.codec is Aac;
        MkvQueue {
            audio: timed.audio.push(
                SampleModel {
                    pts_ms: ms_of(pts),
                    dts_ms: ms_of(pts),
                    data: if is_aac {
                        raw->0
                    } else {
                        data
                    },
                    is_keyframe: false,
                    duration_ms: None,
                },
            ),
            audio_prev: Some(ms_of(pts)),
            adts: if is_aac && self.adts is None && data.len() >= 4 {
                Some(data.take(4))
            } else {
                self.adts
            },
            ..timed
        }
    }

    /// What stands in the way of a subtitle, if anything.
    pub open spec fn subtitle_fault(self, pts: u64, data: Seq<u8>) -> Option<MkvWriterError> {
        if self.finalized {
            Some(MkvWriterError::AlreadyFinalized)
        } else if self.subtitle_track is None {
            Some(MkvWriterError::SubtitleNotEnabled)
        } else if self.subtitle_prev matches Some(prev) && ms_of(pts) < prev {
            Some(MkvWriterError::NonIncreasingTimestamp)
        } else if data.len() == 0 {
            Some(MkvWriterError::EmptySubtitle)
        } else {
            None
        }
    }

    /// The queue with a subtitle behind the others.
    pub open spec fn with_subtitle(self, pts: u64, duration: u32, data: Seq<u8>) -> MkvQueue {
        MkvQueue {
            subtitles: self.subtitles.push(
                SampleModel {
                    pts_ms: ms_of(pts),
                    dts_ms: ms_of(pts),
                    data,
                    is_keyframe: false,
                    duration_ms: Some(
                        if ms_of(duration as u64) >= 1 {
                            ms_of(duration as u64)
                        } else {
                            1
                        },
                    ),
                },
            ),
            subtitle_prev: Some(ms_of(pts)),
            ..self
        }
    }

    /// Whether every track is in decode order, its times are in range, and a
    /// known decoder configuration has a codec.
    pub open spec fn is_sound(self) -> bool {
        &&& self.setup is Some ==> self.video_codec is Some
        &&& track_is_ordered(self.video)
        &&& track_is_ordered(self.audio)
        &&& track_is_ordered(self.subtitles)
        &&& match self.video_prev {
            Some(prev) => self.video.len() > 0 && self.video.last().dts_ms == ms_of(prev),
            None => self.video.len() == 0,
        }
        &&& match self.audio_prev {
            Some(prev) => self.audio.len() > 0 && self.audio.last().dts_ms == prev,
            None => self.audio.len() == 0,
        }
        &&& match self.subtitle_prev {
            Some(prev) => self.subtitles.len() > 0 && self.subtitles.last().dts_ms == prev,
            None => self.subtitles.len() == 0,
        }
        &&& self.video_delta matches Some(delta) ==> delta < MAX_TIME_MS
        &&& self.audio_delta matches Some(delta) ==> delta < MAX_TIME_MS
    }
}

/// Whether samples are in decode order and their times are in range.
pub open spec fn track_is_ordered(samples: Seq<SampleModel>) -> bool {
    &&& forall|i: int|
        0 <= i < samples.len() ==> (#[trigger] samples[i]).pts_ms < MAX_TIME_MS && samples[i].dts_ms
            < MAX_TIME_MS && (samples[i].duration_ms matches Some(d) ==> d < MAX_TIME_MS)
    &&& forall|i: int, j: int|
        0 <= i <= j < samples.len() ==> (#[trigger] samples[i]).dts_ms <= (
        #[trigger] samples[j]).dts_ms
}

/// Every operation that the writer allows keeps the tracks in decode order.
pub proof fn queue_stays_sound(
    queue: MkvQueue,
    pts: u64,
    dts: u64,
    duration: u32,
    data: Seq<u8>,
    is_keyframe: bool,
    extra: Option<Seq<u8>>,
)
    requires
        queue.is_sound(),
    ensures
        queue.video_fault(dts, data, is_keyframe, extra) is None ==> queue.with_video(
            pts,
            dts,
            data,
            is_keyframe,
            extra,
        ).is_sound(),
        queue.audio_time_fault(pts) is None ==> queue.audio_timed(pts).is_sound()
            && queue.with_audio(pts, data, extra).is_sound(),
        queue.subtitle_fault(pts, data) is None ==> queue.with_subtitle(
            pts,
            duration,
            data,
        ).is_sound(),
{
    if queue.video_fault(dts, data, is_keyframe, extra) is None {
        let next = queue.with_video(pts, dts, data, is_keyframe, extra);
        match queue.video_prev {
            Some(prev) => {
                ms_of_is_monotone(prev, dts);
                lemma_track_grows(
                    with_last_duration(queue.video, step(ms_of(prev), ms_of(dts))),
                    next.video.last(),
                );
                assert(next.video =~= with_last_duration(
                    queue.video,
                    step(ms_of(prev), ms_of(dts)),
                ).push(next.video.last()));
            },
            None => {
                lemma_track_grows(queue.video, next.video.last());
                assert(next.video =~= queue.video.push(next.video.last()));
            },
        }
    }
    if queue.audio_time_fault(pts) is None {
        let timed = queue.audio_timed(pts);
        let next = queue.with_audio(pts, data, extra);
        lemma_track_grows(timed.audio, next.audio.last());
        assert(next.audio =~= timed.audio.push(next.audio.last()));
    }
    if queue.subtitle_fault(pts, data) is None {
        let next = queue.with_subtitle(pts, duration, data);
        lemma_track_grows(queue.subtitles, next.subtitles.last());
        assert(next.subtitles =~= queue.subtitles.push(next.subtitles.last()));
    }
}

proof fn lemma_track_grows(samples: Seq<SampleModel>, sample: SampleModel)
    requires
        track_is_ordered(samples),
        sample.pts_ms < MAX_TIME_MS,
        sample.dts_ms < MAX_TIME_MS,
        sample.duration_ms matches Some(d) ==> d < MAX_TIME_MS,
        samples.len() > 0 ==> samples.last().dts_ms <= sample.dts_ms,
    ensures
        track_is_ordered(samples.push(sample)),
{
    let all = samples.push(sample);
    assert forall|i: int, j: int| 0 <= i <= j < all.len() implies (#[trigger] all[i]).dts_ms <= (
    #[trigger] all[j]).dts_ms by {
        if j == samples.len() && i < j {
            assert(samples[i].dts_ms <= samples[samples.len() - 1].dts_ms);
        }
    }
}

/// Matroska writer.
pub struct MkvWriter {
    video_codec: Option<VideoCodec>,
    video_config: Option<Option<Vec<u8>>>,
    video_samples: Vec<MkvSample>,
    video_prev_dts: Option<u64>,
    video_last_delta_ms: Option<u64>,
    audio_track: Option<Mp4AudioTrack>,
    audio_samples: Vec<MkvSample>,
    audio_prev_ms: Option<u64>,
    audio_last_delta_ms: Option<u64>,
    first_adts_header: Option<[u8; 4]>,
    subtitle_track: Option<Mp4SubtitleTrack>,
    subtitle_samples: Vec<MkvSample>,
    subtitle_prev_ms: Option<u64>,
    finalized: bool,
    bytes_written: u64,
}

/// Optional bytes as a sequence.
pub open spec fn vec_of(bytes: Option<Vec<u8>>) -> Option<Seq<u8>> {
    match bytes {
        Some(bytes) => Some(bytes@),
        None => None,
    }
}

impl View for MkvWriter {
    type V = MkvQueue;

    closed spec fn view(&self) -> MkvQueue {
        MkvQueue {
            video_codec: self.video_codec,
            setup: match self.video_config {
                Some(private) => Some(vec_of(private)),
                None => None,
            },
            video: mkv_layout::sample_models(self.video_samples@),
            video_prev: self.video_prev_dts,
            video_delta: self.video_last_delta_ms,
            audio_track: self.audio_track,
            audio: mkv_layout::sample_models(self.audio_samples@),
            audio_prev: self.audio_prev_ms,
            audio_delta: self.audio_last_delta_ms,
            adts: match self.first_adts_header {
                Some(header) => Some(header@),
                None => None,
            },
            subtitle_track: self.subtitle_track,
            subtitles: mkv_layout::sample_models(self.subtitle_samples@),
            subtitle_prev: self.subtitle_prev_ms,
            finalized: self.finalized,
            bytes_written: self.bytes_written,
        }
    }
}

/// A queue with nothing in it.
pub open spec fn empty_queue() -> MkvQueue {
    MkvQueue {
        video_codec: None,
        setup: None,
        video: Seq::empty(),
        video_prev: None,
        video_delta: None,
        audio_track: None,
        audio: Seq::empty(),
        audio_prev: None,
        audio_delta: None,
        adts: None,
        subtitle_track: None,
        subtitles: Seq::empty(),
        subtitle_prev: None,
        finalized: false,
        bytes_written: 0,
    }
}

/// Sets the duration of the last sample.
fn set_last_duration(samples: &mut Vec<MkvSample>, duration: u64)
    ensures
        mkv_layout::sample_models(final(samples)@) == with_last_duration(
            mkv_layout::sample_models(old(samples)@),
            duration,
        ),
{
    let ghost before = mkv_layout::sample_models(samples@);
    match samples.pop() {
        None => {
            assert(mkv_layout::sample_models(samples@) =~= before);
        },
        Some(mut last) => {
            assert(before.last() == last@);
            last.duration_ms = Some(duration);
            samples.push(last);
            assert(mkv_layout::sample_models(samples@) =~= with_last_duration(before, duration));
        },
    }
}

/// The distance of two times, at least one millisecond.
fn step_ms(from: u64, to: u64) -> (delta: u64)
    ensures
        delta == step(from, to),
{
    if to > from {
        to - from
    } else {
        1
    }
}

impl MkvWriter {
    /// A writer with no tracks.
    pub fn new() -> (writer: Self)
        ensures
            writer@ == empty_queue(),
            writer@.is_sound(),
    {
        let writer = MkvWriter {
            video_codec: None,
            video_config: None,
            video_samples: Vec::new(),
            video_prev_dts: None,
            video_last_delta_ms: None,
            audio_track: None,
            audio_samples: Vec::new(),
            audio_prev_ms: None,
            audio_last_delta_ms: None,
            first_adts_header: None,
            subtitle_track: None,
            subtitle_samples: Vec::new(),
            subtitle_prev_ms: None,
            finalized: false,
            bytes_written: 0,
        };
        assert(writer@.video =~= Seq::empty());
        assert(writer@.audio =~= Seq::empty());
        assert(writer@.subtitles =~= Seq::empty());
        writer
    }

    /// The number of video samples.
    pub fn video_sample_count(&self) -> (count: u64)
        ensures
            count == self@.video.len(),
    {
        self.video_samples.len() as u64
    }

    /// The number of audio samples.
    pub fn audio_sample_count(&self) -> (count: u64)
        ensures
            count == self@.audio.len(),
    {
        self.audio_samples.len() as u64
    }

    /// The number of subtitles.
    pub fn subtitle_sample_count(&self) -> (count: u64)
        ensures
            count == self@.subtitles.len(),
    {
        self.subtitle_samples.len() as u64
    }

    /// The length of the written file.
    pub fn bytes_written(&self) -> (bytes: u64)
        ensures
            bytes == self@.bytes_written,
    {
        self.bytes_written
    }

    /// Sets the video codec.
    pub fn enable_video(&mut self, codec: VideoCodec)
        ensures
            final(self)@ == (MkvQueue { video_codec: Some(codec), ..old(self)@ }),
    {
        self.video_codec = Some(codec);
    }

    /// Sets the parameters of the audio track.
    pub fn enable_audio(&mut self, track: Mp4AudioTrack)
        ensures
            final(self)@ == (MkvQueue { audio_track: Some(track), ..old(self)@ }),
    {
        self.audio_track = Some(track);
    }

    /// Sets the parameters of the subtitle track.
    pub fn enable_subtitle(&mut self, track: Mp4SubtitleTrack)
        ensures
            final(self)@ == (MkvQueue { subtitle_track: Some(track), ..old(self)@ }),
    {
        self.subtitle_track = Some(track);
    }

    /// Queues a video sample that is decoded when it is shown.
    pub fn write_video_sample(
        &mut self,
        pts: u64,
        data: &[u8],
        is_keyframe: bool,
        record: Option<&[u8]>,
    ) -> (result: Result<(), MkvWriterError>)
        requires
            old(self)@.is_sound(),
        ensures
            final(self)@.is_sound(),
            match old(self)@.video_fault(pts, data@, is_keyframe, ebml::opt_bytes(record)) {
                Some(fault) => result == Err::<(), MkvWriterError>(fault) && final(self)@
                    == old(self)@,
                None => result is Ok && final(self)@ == old(self)@.with_video(
                    pts,
                    pts,
                    data@,
                    is_keyframe,
                    ebml::opt_bytes(record),
                ),
            },
    {
        self.write_video_sample_with_dts(pts, pts, data, is_keyframe, record)
    }

    /// Queues a video sample in decode order. `data` is the frame as the file
    /// stores it: length-prefixed for H.264 and H.265. `record` is the decoder
    /// configuration found in the frame; only the first frame needs one, and
    /// VP9 none.
    pub fn write_video_sample_with_dts(
        &mut self,
        pts: u64,
        dts: u64,
        data: &[u8],
        is_keyframe: bool,
        record: Option<&[u8]>,
    ) -> (result: Result<(), MkvWriterError>)
        requires
            old(self)@.is_sound(),
        ensures
            final(self)@.is_sound(),
            match old(self)@.video_fault(dts, data@, is_keyframe, ebml::opt_bytes(record)) {
                Some(fault) => result == Err::<(), MkvWriterError>(fault) && final(self)@
                    == old(self)@,
                None => result is Ok && final(self)@ == old(self)@.with_video(
                    pts,
                    dts,
                    data@,
                    is_keyframe,
                    ebml::opt_bytes(record),
                ),
            },
    {
        proof {
            queue_stays_sound(self@, pts, dts, 0, data@, is_keyframe, ebml::opt_bytes(record));
        }
        if self.finalized {
            return Err(MkvWriterError::AlreadyFinalized);
        }
        let codec = match self.video_codec {
            Some(codec) => codec,
            None => {
                return Err(MkvWriterError::VideoNotEnabled);
            },
        };
        let pts_ms: u64 = ticks_to_ms(pts);
        let dts_ms: u64 = ticks_to_ms(dts);
        match self.video_prev_dts {
            Some(prev) => {
                if dts <= prev {
                    return Err(MkvWriterError::NonIncreasingTimestamp);
                }
                let delta: u64 = step_ms(ticks_to_ms(prev), dts_ms);
                set_last_duration(&mut self.video_samples, delta);
                self.video_last_delta_ms = Some(delta);
            },
            None => {
                if !is_keyframe {
                    return Err(MkvWriterError::FirstFrameMustBeKeyframe);
                }
                let config: Option<Option<Vec<u8>>> = match codec {
                    VideoCodec::Vp9 => match extract_vp9_config(data) {
                        Some(_) => Some(None),
                        None => None,
                    },
                    _ => match record {
                        Some(record) => Some(Some(vstd::slice::slice_to_vec(record))),
                        None => None,
                    },
                };
                if config.is_none() {
                    return Err(
                        match codec {
                            VideoCodec::Av1 => MkvWriterError::FirstFrameMissingSequenceHeader,
                            VideoCodec::Vp9 => MkvWriterError::FirstFrameMissingVp9Config,
                            _ => MkvWriterError::FirstFrameMissingSpsPps,
                        },
                    );
                }
                self.video_config = config;
            },
        }
        let ghost before = mkv_layout::sample_models(self.video_samples@);
        let sample = MkvSample {
            pts_ms,
            dts_ms,
            data: vstd::slice::slice_to_vec(data),
            is_keyframe,
            duration_ms: None,
        };
        self.video_samples.push(sample);
        assert(mkv_layout::sample_models(self.video_samples@) =~= before.push(sample@));
        self.video_prev_dts = Some(dts);
        Ok(())
    }

    /// Queues an audio sample. `raw` is the access unit inside an ADTS frame;
    /// the other codecs need none.
    ///
    /// Once the time of the sample has been accepted, the sample before it
    /// lasts until then, even if the data is refused.
    pub fn write_audio_sample(&mut self, pts: u64, data: &[u8], raw: Option<&[u8]>) -> (result:
        Result<(), MkvWriterError>)
        requires
            old(self)@.is_sound(),
        ensures
            final(self)@.is_sound(),
            match old(self)@.audio_time_fault(pts) {
                Some(fault) => result == Err::<(), MkvWriterError>(fault) && final(self)@
                    == old(self)@,
                None => match old(self)@.audio_data_fault(data@, ebml::opt_bytes(raw)) {
                    Some(fault) => result == Err::<(), MkvWriterError>(fault) && final(self)@
                        == old(self)@.audio_timed(pts),
                    None => result is Ok && final(self)@ == old(self)@.with_audio(
                        pts,
                        data@,
                        ebml::opt_bytes(raw),
                    ),
                },
            },
    {
        proof {
            queue_stays_sound(self@, pts, pts, 0, data@, false, ebml::opt_bytes(raw));
        }
        if self.finalized {
            return Err(MkvWriterError::AlreadyFinalized);
        }
        let codec = match &self.audio_track {
            Some(track) => track.codec,
            None => {
                return Err(MkvWriterError::AudioNotEnabled);
            },
        };
        let pts_ms: u64 = ticks_to_ms(pts);
        if let Some(prev) = self.audio_prev_ms {
            if pts_ms < prev {
                return Err(MkvWriterError::NonIncreasingTimestamp);
            }
            let delta: u64 = step_ms(prev, pts_ms);
            set_last_duration(&mut self.audio_samples, delta);
            self.audio_last_delta_ms = Some(delta);
        }
        let stored: Vec<u8> = match codec {
            AudioCodec::Aac(_) => match raw {
                None => {
                    return Err(MkvWriterError::InvalidAdtsDetailed);
                },
                Some(raw) => {
                    if self.first_adts_header.is_none() && data.len() >= 4 {
                        let header: [u8; 4] = [data[0], data[1], data[2], data[3]];
                        assert(header@ =~= data@.take(4));
                        self.first_adts_header = Some(header);
                    }
                    vstd::slice::slice_to_vec(raw)
                },
            },
            AudioCodec::Opus => {
                if !is_valid_opus_packet(data) {
                    return Err(MkvWriterError::InvalidOpusPacket);
                }
                vstd::slice::slice_to_vec(data)
            },
            AudioCodec::Flac => {
                if !is_valid_flac_frame(data) {
                    return Err(MkvWriterError::InvalidFlacFrame);
                }
                vstd::slice::slice_to_vec(data)
            },
            AudioCodec::NoAudio => {
                return Err(MkvWriterError::AudioNotEnabled);
            },
        };
        let ghost before = mkv_layout::sample_models(self.audio_samples@);
        let sample = MkvSample {
            pts_ms,
            dts_ms: pts_ms,
            data: stored,
            is_keyframe: false,
            duration_ms: None,
        };
        self.audio_samples.push(sample);
        assert(mkv_layout::sample_models(self.audio_samples@) =~= before.push(sample@));
        self.audio_prev_ms = Some(pts_ms);
        Ok(())
    }

    /// Queues a subtitle.
    pub fn write_subtitle_sample(&mut self, pts: u64, duration: u32, data: &[u8]) -> (result:
        Result<(), MkvWriterError>)
        requires
            old(self)@.is_sound(),
        ensures
            final(self)@.is_sound(),
            match old(self)@.subtitle_fault(pts, data@) {
                Some(fault) => result == Err::<(), MkvWriterError>(fault) && final(self)@
                    == old(self)@,
                None => result is Ok && final(self)@ == old(self)@.with_subtitle(
                    pts,
                    duration,
                    data@,
                ),
            },
    {
        proof {
            queue_stays_sound(self@, pts, pts, duration, data@, false, None);
        }
        if self.finalized {
            return Err(MkvWriterError::AlreadyFinalized);
        }
        if self.subtitle_track.is_none() {
            return Err(MkvWriterError::SubtitleNotEnabled);
        }
        let pts_ms: u64 = ticks_to_ms(pts);
        let length: u64 = ticks_to_ms(duration as u64);
        if let Some(prev) = self.subtitle_prev_ms {
            if pts_ms < prev {
                return Err(MkvWriterError::NonIncreasingTimestamp);
            }
        }
        if data.len() == 0 {
            return Err(MkvWriterError::EmptySubtitle);
        }
        let ghost before = mkv_layout::sample_models(self.subtitle_samples@);
        let sample = MkvSample {
            pts_ms,
            dts_ms: pts_ms,
            data: vstd::slice::slice_to_vec(data),
            is_keyframe: false,
            duration_ms: Some(
                if length >= 1 {
                    length
                } else {
                    1
                },
            ),
        };
        self.subtitle_samples.push(sample);
        assert(mkv_layout::sample_models(self.subtitle_samples@) =~= before.push(sample@));
        self.subtitle_prev_ms = Some(pts_ms);
        Ok(())
    }
}

/// The end of a track: its last decode time and the last known distance.
pub open spec fn track_end(samples: Seq<SampleModel>, delta: Option<u64>) -> Option<int> {
    if samples.len() == 0 {
        None
    } else {
        Some(
            samples.last().dts_ms + match delta {
                Some(delta) => delta as int,
                None => 0,
            },
        )
    }
}

/// The later of two optional times.
pub open spec fn later(a: Option<int>, b: Option<int>) -> Option<int> {
    match (a, b) {
        (Some(x), Some(y)) => Some(
            if x >= y {
                x
            } else {
                y
            },
        ),
        (Some(x), None) => Some(x),
        (None, other) => other,
    }
}

/// The end of the subtitle that ends last.
pub open spec fn subtitles_end(samples: Seq<SampleModel>) -> Option<int>
    decreases samples.len(),
{
    if samples.len() == 0 {
        None
    } else {
        let last = samples.last();
        later(
            subtitles_end(samples.drop_last()),
            Some(
                last.pts_ms + match last.duration_ms {
                    Some(duration) => duration as int,
                    None => 0,
                },
            ),
        )
    }
}

/// A time in ticks of 1/90000 s, if the product fits 64 bits.
pub open spec fn ticks_of(ms: Option<int>) -> Option<int> {
    match ms {
        Some(ms) => if ms * 90_000 > u64::MAX {
            None
        } else {
            Some(ms * 90_000 / 1000)
        },
        None => None,
    }
}

/// An optional time as an integer.
pub open spec fn opt_int(time: Option<u64>) -> Option<int> {
    match time {
        Some(time) => Some(time as int),
        None => None,
    }
}

/// The identifier of the codec of an audio track.
pub open spec fn audio_codec_text(codec: AudioCodec) -> Seq<char> {
    match codec {
        AudioCodec::Aac(_) => "A_AAC"@,
        AudioCodec::Opus => "A_OPUS"@,
        _ => "A_FLAC"@,
    }
}

/// The private data of an audio track.
pub open spec fn audio_private(track: Mp4AudioTrack, adts: Option<Seq<u8>>) -> Option<Seq<u8>> {
    match track.codec {
        AudioCodec::Aac(_) => Some(
            match adts {
                Some(header) => asc_of(header),
                None => default_asc(),
            },
        ),
        AudioCodec::Opus => Some(
            opus_head_bytes(
                if track.channels > 8 {
                    8
                } else {
                    track.channels as u8
                },
            ),
        ),
        _ => vec_of(track.flac_streaminfo),
    }
}

/// The entry of an audio track.
pub open spec fn audio_entry(track: Mp4AudioTrack, adts: Option<Seq<u8>>, language: Seq<char>) -> Seq<
    u8,
> {
    let is_opus = track.codec is Opus;
    TrackModel {
        number: AUDIO_TRACK_NUMBER,
        uid: AUDIO_TRACK_NUMBER,
        kind: AUDIO_KIND,
        lacing: NO_LACING,
        language,
        codec_id: audio_codec_text(track.codec),
        delay: if is_opus {
            OPUS_CODEC_DELAY_NS
        } else {
            0
        },
        pre_roll: if is_opus {
            OPUS_SEEK_PRE_ROLL_NS
        } else {
            0
        },
        private: audio_private(track, adts),
    }.entry(ebml::audio_settings(track.sample_rate, track.channels as u64))
}

/// The identifier of a subtitle codec.
pub open spec fn subtitle_codec_text(codec: SubtitleCodec) -> Seq<char> {
    match codec {
        SubtitleCodec::Ssa => "S_TEXT/SSA"@,
        SubtitleCodec::Ass => "S_TEXT/ASS"@,
        _ => "S_TEXT/UTF8"@,
    }
}

/// The private data of a subtitle track.
pub open spec fn subtitle_private(track: Mp4SubtitleTrack) -> Option<Seq<u8>> {
    match track.codec {
        SubtitleCodec::Ssa => vec_of(track.codec_private),
        SubtitleCodec::Ass => vec_of(track.codec_private),
        _ => None,
    }
}

/// The entry of a subtitle track. A language of its own goes before that of
/// the file.
pub open spec fn subtitle_entry(track: Mp4SubtitleTrack, language: Seq<char>) -> Seq<u8> {
    TrackModel {
        number: SUBTITLE_TRACK_NUMBER,
        uid: SUBTITLE_TRACK_NUMBER,
        kind: SUBTITLE_KIND,
        lacing: NO_LACING,
        language: match track.language {
            Some(own) => own@,
            None => language,
        },
        codec_id: subtitle_codec_text(track.codec),
        delay: 0,
        pre_roll: 0,
        private: subtitle_private(track),
    }.entry(Seq::empty())
}

/// The entry of a video track.
pub open spec fn video_entry(
    codec: VideoCodec,
    private: Option<Seq<u8>>,
    language: Seq<char>,
    width: u32,
    height: u32,
) -> Seq<u8> {
    TrackModel {
        number: VIDEO_TRACK_NUMBER,
        uid: VIDEO_TRACK_NUMBER,
        kind: VIDEO_KIND,
        lacing: NO_LACING,
        language,
        codec_id: video_codec_text(codec),
        delay: 0,
        pre_roll: 0,
        private,
    }.entry(ebml::video_settings(PROGRESSIVE, width as u64, height as u64))
}

/// What describes a file as a whole.
pub struct FileModel {
    /// Width and height of the video track.
    pub size: Option<(u32, u32)>,
    pub title: Option<Seq<char>>,
    /// Seconds since 1970.
    pub creation_time: Option<u64>,
    pub language: Option<Seq<char>>,
    pub container: MkvContainer,
}

/// The description from track parameters and metadata.
pub open spec fn file_model(
    video: Option<&Mp4VideoTrack>,
    metadata: Option<&Metadata>,
    container: MkvContainer,
) -> FileModel {
    FileModel {
        size: match video {
            Some(track) => Some((track.width, track.height)),
            None => None,
        },
        title: match metadata {
            Some(metadata) => metadata@.title,
            None => None,
        },
        creation_time: match metadata {
            Some(metadata) => metadata@.creation_time,
            None => None,
        },
        language: match metadata {
            Some(metadata) => metadata@.language,
            None => None,
        },
        container,
    }
}

impl MkvQueue {
    /// The decoder configuration in force: an H.264 track without frames has
    /// a default one.
    pub open spec fn effective_setup(self) -> Option<Option<Seq<u8>>> {
        if self.setup is None && self.video.len() == 0 && self.video_codec == Some(
            VideoCodec::H264,
        ) {
            Some(Some(default_avc_record()))
        } else {
            self.setup
        }
    }

    /// What stands in the way of writing the file, if anything.
    pub open spec fn file_fault(self, file: FileModel) -> Option<MkvWriterError> {
        let has_video = self.effective_setup() is Some && file.size is Some;
        if self.finalized {
            Some(MkvWriterError::FinalizedTwice)
        } else if self.effective_setup() is Some && file.size is None {
            Some(MkvWriterError::ConfigWithoutVideoTrack)
        } else if !has_video && self.audio_track is None && self.subtitle_track is None {
            Some(MkvWriterError::NoTracks)
        } else if file.container is WebM && has_video && (self.video_codec matches Some(codec)
            && !file.container.takes_video(codec)) {
            Some(
                MkvWriterError::UnsupportedForWebM {
                    codec: CodecLabel::Video(self.video_codec->0),
                    reason: WEBM_VIDEO_REASON,
                },
            )
        } else if file.container is WebM && (self.audio_track matches Some(track)
            && !file.container.takes_audio(track.codec)) {
            Some(
                MkvWriterError::UnsupportedForWebM {
                    codec: CodecLabel::Audio(self.audio_track->0.codec),
                    reason: WEBM_AUDIO_REASON,
                },
            )
        } else if file.container is WebM && self.subtitle_track is Some {
            Some(
                MkvWriterError::UnsupportedForWebM {
                    codec: CodecLabel::Subtitle(SubtitleCodec::MovText),
                    reason: WEBM_SUBTITLE_REASON,
                },
            )
        } else if self.audio_track matches Some(track) && track.codec is NoAudio {
            Some(MkvWriterError::AudioNotEnabled)
        } else if self.audio_track matches Some(track) && track.codec is Flac
            && track.flac_streaminfo is None {
            Some(MkvWriterError::MissingFlacStreaminfo)
        } else {
            None
        }
    }

    /// The end of the last sample over all tracks, in milliseconds.
    pub open spec fn end_ms(self) -> Option<int> {
        later(
            later(
                track_end(self.video, self.video_delta),
                track_end(self.audio, self.audio_delta),
            ),
            subtitles_end(self.subtitles),
        )
    }

    /// The language of the file.
    pub open spec fn language(self, file: FileModel) -> Seq<char> {
        match file.language {
            Some(language) => language,
            None => "und"@,
        }
    }

    /// The entries of all tracks.
    pub open spec fn track_entries(self, file: FileModel) -> Seq<u8> {
        let language = self.language(file);
        let video = match (self.effective_setup(), file.size) {
            (Some(private), Some((width, height))) => video_entry(
                self.video_codec->0,
                private,
                language,
                width,
                height,
            ),
            _ => Seq::empty(),
        };
        let audio = match self.audio_track {
            Some(track) => audio_entry(track, self.adts, language),
            None => Seq::empty(),
        };
        let subtitle = match self.subtitle_track {
            Some(track) => subtitle_entry(track, language),
            None => Seq::empty(),
        };
        video + audio + subtitle
    }

    /// The segment up to the first cluster: the information and the tracks.
    pub open spec fn front(self, file: FileModel) -> Seq<u8> {
        ebml::info_element(
            MKV_TIMESTAMP_SCALE_NS,
            WRITING_APP@,
            WRITING_APP@,
            match self.end_ms() {
                Some(end) => Some(end as u64),
                None => None,
            },
            match file.creation_time {
                Some(time) => Some(date_of(time)),
                None => None,
            },
            file.title,
        ) + ebml::element(TRACKS_ID, self.track_entries(file))
    }

    /// The interleaved blocks of the file.
    pub open spec fn blocks(self) -> Seq<mkv_layout::BlockModel> {
        mkv_layout::merged(
            mkv_layout::on_track(self.video, VIDEO_TRACK_NUMBER),
            mkv_layout::on_track(self.audio, AUDIO_TRACK_NUMBER),
            mkv_layout::on_track(self.subtitles, SUBTITLE_TRACK_NUMBER),
        )
    }

    /// The clusters of the file.
    pub open spec fn clusters(self) -> Seq<mkv_layout::ClusterModel> {
        mkv_layout::clusters_from(self.blocks(), 0)
    }

    /// The body of the segment.
    pub open spec fn segment(self, file: FileModel) -> Seq<u8> {
        let front = self.front(file);
        front + mkv_layout::media_bytes(self.clusters(), front.len() as int)
    }

    /// The complete file.
    pub open spec fn file(self, file: FileModel) -> Seq<u8> {
        ebml::ebml_element(
            MAX_ID_LENGTH,
            MAX_SIZE_LENGTH,
            file.container.doc_type_text(),
            DOC_TYPE_VERSION,
            DOC_TYPE_READ_VERSION,
        ) + ebml::element(
            SEGMENT_ID,
            self.segment(file),
        )
    }

    /// Whether the file stays within the sizes that an element can have.
    pub open spec fn fits(self, file: FileModel) -> bool {
        &&& mkv_layout::samples_weight(self.video) + mkv_layout::samples_weight(self.audio)
            + mkv_layout::samples_weight(self.subtitles) <= MAX_BODY / 16
        &&& ebml::opt_text_len(file.title) <= MAX_BODY / 64
        &&& ebml::opt_text_len(file.language) <= MAX_BODY / 64
        &&& self.setup matches Some(Some(record)) ==> record.len() <= MAX_BODY / 64
        &&& self.audio_track matches Some(track) ==> ebml::opt_len(vec_of(track.flac_streaminfo))
            <= MAX_BODY / 64
        &&& self.subtitle_track matches Some(track) ==> ebml::opt_len(vec_of(track.codec_private))
            <= MAX_BODY / 64 && (track.language matches Some(own) ==> vstd::utf8::encode_utf8(
            own@,
        ).len() <= MAX_BODY / 64)
    }
}

/// The seek points of a written file lead to the clusters that begin with the
/// video keyframes: at each position, counted from the start of the segment
/// body, stands that cluster.
pub proof fn seek_points_lead_to_clusters(queue: MkvQueue, file: FileModel, k: int)
    requires
        0 <= k < queue.clusters().len(),
    ensures
        ({
            let at = mkv_layout::cluster_position(
                queue.clusters(),
                queue.front(file).len() as int,
                k,
            );
            let cluster = mkv_layout::cluster_element(queue.clusters()[k]);
            &&& 0 <= at
            &&& at + cluster.len() <= queue.segment(file).len()
            &&& queue.segment(file).subrange(at, at + cluster.len()) == cluster
        }),
{
    mkv_layout::cluster_stands_at_its_position(queue.front(file), queue.clusters(), k);
}

/// The clusters of a written file hold every queued sample, interleaved in
/// decode order, and keep each track in its own order.
pub proof fn clusters_hold_every_sample(queue: MkvQueue)
    requires
        queue.is_sound(),
    ensures
        mkv_layout::cluster_blocks(queue.clusters()) == queue.blocks(),
        mkv_layout::in_decode_order(queue.blocks()),
        mkv_layout::of_track(queue.blocks(), VIDEO_TRACK_NUMBER) == mkv_layout::on_track(
            queue.video,
            VIDEO_TRACK_NUMBER,
        ),
        mkv_layout::of_track(queue.blocks(), AUDIO_TRACK_NUMBER) == mkv_layout::on_track(
            queue.audio,
            AUDIO_TRACK_NUMBER,
        ),
        mkv_layout::of_track(queue.blocks(), SUBTITLE_TRACK_NUMBER) == mkv_layout::on_track(
            queue.subtitles,
            SUBTITLE_TRACK_NUMBER,
        ),
{
    let video = mkv_layout::on_track(queue.video, VIDEO_TRACK_NUMBER);
    let audio = mkv_layout::on_track(queue.audio, AUDIO_TRACK_NUMBER);
    let text = mkv_layout::on_track(queue.subtitles, SUBTITLE_TRACK_NUMBER);
    lemma_track_order(queue.video, VIDEO_TRACK_NUMBER);
    lemma_track_order(queue.audio, AUDIO_TRACK_NUMBER);
    lemma_track_order(queue.subtitles, SUBTITLE_TRACK_NUMBER);
    mkv_layout::merged_in_decode_order(video, audio, text, 0);
    mkv_layout::merged_keeps_tracks(video, audio, text);
    mkv_layout::clusters_hold_all_blocks(queue.blocks(), 0);
    assert(queue.blocks().skip(0) =~= queue.blocks());
}

proof fn lemma_track_order(samples: Seq<SampleModel>, track: u64)
    requires
        track_is_ordered(samples),
    ensures
        mkv_layout::in_decode_order(mkv_layout::on_track(samples, track)),
{
    let blocks = mkv_layout::on_track(samples, track);
    assert forall|i: int, j: int| 0 <= i <= j < blocks.len() implies (
    #[trigger] blocks[i]).sample.dts_ms <= (#[trigger] blocks[j]).sample.dts_ms by {
        assert(blocks[i].sample == samples[i] && blocks[j].sample == samples[j]);
    }
}

/// The later of two optional times.
fn later_of(a: Option<u64>, b: Option<u64>) -> (time: Option<u64>)
    ensures
        opt_int(time) == later(opt_int(a), opt_int(b)),
{
    match (a, b) {
        (Some(x), Some(y)) => Some(
            if x >= y {
                x
            } else {
                y
            },
        ),
        (Some(x), None) => Some(x),
        (None, other) => other,
    }
}

/// The end of a track.
fn track_end_ms(samples: &Vec<MkvSample>, delta: Option<u64>) -> (end: Option<u64>)
    requires
        track_is_ordered(mkv_layout::sample_models(samples@)),
        delta matches Some(delta) ==> delta < MAX_TIME_MS,
    ensures
        opt_int(end) == track_end(mkv_layout::sample_models(samples@), delta),
{
    if samples.len() == 0 {
        return None;
    }
    let ghost models = mkv_layout::sample_models(samples@);
    assert(models.last() == samples@.last()@);
    assert(models[models.len() - 1].dts_ms < MAX_TIME_MS);
    let last: u64 = samples[samples.len() - 1].dts_ms;
    Some(
        match delta {
            Some(delta) => last + delta,
            None => last,
        },
    )
}

/// The end of the subtitle that ends last.
fn subtitles_end_ms(samples: &Vec<MkvSample>) -> (end: Option<u64>)
    requires
        track_is_ordered(mkv_layout::sample_models(samples@)),
    ensures
        opt_int(end) == subtitles_end(mkv_layout::sample_models(samples@)),
{
    let ghost models = mkv_layout::sample_models(samples@);
    let mut end: Option<u64> = None;
    let mut i: usize = 0;
    assert(models.take(0) =~= Seq::empty());
    while i < samples.len()
        invariant
            i <= samples@.len(),
            models == mkv_layout::sample_models(samples@),
            track_is_ordered(models),
            opt_int(end) == subtitles_end(models.take(i as int)),
        decreases samples@.len() - i,
    {
        proof {
            assert(models[i as int] == samples@[i as int]@);
            assert(models.take(i + 1).drop_last() =~= models.take(i as int));
            assert(models.take(i + 1).last() == models[i as int]);
        }
        let length: u64 = match samples[i].duration_ms {
            Some(duration) => duration,
            None => 0,
        };
        end = later_of(end, Some(samples[i].pts_ms + length));
        i += 1;
    }
    assert(models.take(i as int) =~= models);
    end
}

/// Encodes the entry of an audio track.
fn build_audio_track(track: &Mp4AudioTrack, adts: Option<[u8; 4]>, language: &str) -> (result:
    Result<Vec<u8>, MkvWriterError>)
    requires
        ebml::opt_len(vec_of(track.flac_streaminfo)) <= MAX_BODY / 64,
        vstd::utf8::encode_utf8(language@).len() <= MAX_BODY / 32,
    ensures
        match result {
            Ok(bytes) => !(track.codec is NoAudio) && !(track.codec is Flac
                && track.flac_streaminfo is None) && bytes@ == audio_entry(
                *track,
                match adts {
                    Some(header) => Some(header@),
                    None => None,
                },
                language@,
            ) && bytes@.len() <= MAX_BODY / 16,
            Err(error) => if track.codec is NoAudio {
                error == MkvWriterError::AudioNotEnabled
            } else {
                track.codec is Flac && track.flac_streaminfo is None && error
                    == MkvWriterError::MissingFlacStreaminfo
            },
        },
{
    proof {
        reveal_strlit("A_AAC");
        reveal_strlit("A_OPUS");
        reveal_strlit("A_FLAC");
        crate::text::utf8_len_bound("A_AAC"@);
        crate::text::utf8_len_bound("A_OPUS"@);
        crate::text::utf8_len_bound("A_FLAC"@);
    }
    match track.codec {
        AudioCodec::Aac(_) => {
            let config: [u8; 2] = match adts {
                Some(header) => aac_audio_specific_config(header),
                None => [0x12, 0x10],
            };
            assert(adts is None ==> config@ =~= default_asc());
            Ok(encode_audio_entry(track, "A_AAC", config.as_slice(), language, 0, 0))
        },
        AudioCodec::Opus => {
            let head = opus_head(
                if track.channels > 8 {
                    8
                } else {
                    track.channels as u8
                },
            );
            Ok(
                encode_audio_entry(
                    track,
                    "A_OPUS",
                    head.as_slice(),
                    language,
                    OPUS_CODEC_DELAY_NS,
                    OPUS_SEEK_PRE_ROLL_NS,
                ),
            )
        },
        AudioCodec::Flac => match &track.flac_streaminfo {
            Some(info) => Ok(
                encode_audio_entry(track, "A_FLAC", info.as_slice(), language, 0, 0),
            ),
            None => Err(MkvWriterError::MissingFlacStreaminfo),
        },
        AudioCodec::NoAudio => Err(MkvWriterError::AudioNotEnabled),
    }
}

/// Encodes the entry of an audio track from its codec.
fn encode_audio_entry(
    track: &Mp4AudioTrack,
    codec_id: &str,
    private: &[u8],
    language: &str,
    delay: u64,
    pre_roll: u64,
) -> (bytes: Vec<u8>)
    requires
        vstd::utf8::encode_utf8(codec_id@).len() <= 64,
        private@.len() <= MAX_BODY / 64,
        vstd::utf8::encode_utf8(language@).len() <= MAX_BODY / 32,
    ensures
        bytes@ == (TrackModel {
            number: AUDIO_TRACK_NUMBER,
            uid: AUDIO_TRACK_NUMBER,
            kind: AUDIO_KIND,
            lacing: NO_LACING,
            language: language@,
            codec_id: codec_id@,
            delay,
            pre_roll,
            private: Some(private@),
        }).entry(ebml::audio_settings(track.sample_rate, track.channels as u64)),
        bytes@.len() <= MAX_BODY / 16,
{
    let fields = TrackFields {
        number: AUDIO_TRACK_NUMBER,
        uid: AUDIO_TRACK_NUMBER,
        kind: AUDIO_KIND,
        lacing: NO_LACING,
        language,
        codec_id,
        delay,
        pre_roll,
        private: Some(private),
    };
    let channels: u64 = track.channels as u64;
    proof {
        ebml::settings_overhead(0, 0, 0, track.sample_rate, channels);
        ebml::entry_overhead(fields@, ebml::audio_settings(track.sample_rate, channels));
    }
    encode_track(fields, Some((track.sample_rate, channels)))
}

/// Encodes the entry of a subtitle track.
fn build_subtitle_track(track: &Mp4SubtitleTrack, language: &str) -> (bytes: Vec<u8>)
    requires
        ebml::opt_len(vec_of(track.codec_private)) <= MAX_BODY / 64,
        vstd::utf8::encode_utf8(language@).len() <= MAX_BODY / 32,
        track.language matches Some(own) ==> vstd::utf8::encode_utf8(own@).len() <= MAX_BODY / 64,
    ensures
        bytes@ == subtitle_entry(*track, language@),
        bytes@.len() <= MAX_BODY / 16,
{
    proof {
        reveal_strlit("S_TEXT/SSA");
        reveal_strlit("S_TEXT/ASS");
        reveal_strlit("S_TEXT/UTF8");
        crate::text::utf8_len_bound("S_TEXT/SSA"@);
        crate::text::utf8_len_bound("S_TEXT/ASS"@);
        crate::text::utf8_len_bound("S_TEXT/UTF8"@);
    }
    let own: &str = match &track.language {
        Some(own) => own.as_str(),
        None => language,
    };
    let (codec_id, keeps_private): (&str, bool) = match track.codec {
        SubtitleCodec::Ssa => ("S_TEXT/SSA", true),
        SubtitleCodec::Ass => ("S_TEXT/ASS", true),
        _ => ("S_TEXT/UTF8", false),
    };
    let private: Option<&[u8]> = if keeps_private {
        match &track.codec_private {
            Some(private) => Some(private.as_slice()),
            None => None,
        }
    } else {
        None
    };
    let fields = TrackFields {
        number: SUBTITLE_TRACK_NUMBER,
        uid: SUBTITLE_TRACK_NUMBER,
        kind: SUBTITLE_KIND,
        lacing: NO_LACING,
        language: own,
        codec_id,
        delay: 0,
        pre_roll: 0,
        private,
    };
    proof {
        ebml::entry_overhead(fields@, Seq::empty());
    }
    encode_track(fields, None)
}

/// Encodes the entry of a video track.
fn build_video_track(
    dims: &Mp4VideoTrack,
    codec: VideoCodec,
    private: Option<&[u8]>,
    language: &str,
) -> (bytes: Vec<u8>)
    requires
        ebml::opt_len(ebml::opt_bytes(private)) <= MAX_BODY / 64,
        vstd::utf8::encode_utf8(language@).len() <= MAX_BODY / 32,
    ensures
        bytes@ == video_entry(
            codec,
            ebml::opt_bytes(private),
            language@,
            dims.width,
            dims.height,
        ),
        bytes@.len() <= MAX_BODY / 16,
{
    let codec_id = video_codec_id(codec);
    proof {
        crate::text::utf8_len_bound(codec_id@);
    }
    let fields = TrackFields {
        number: VIDEO_TRACK_NUMBER,
        uid: VIDEO_TRACK_NUMBER,
        kind: VIDEO_KIND,
        lacing: NO_LACING,
        language,
        codec_id,
        delay: 0,
        pre_roll: 0,
        private,
    };
    let (width, height): (u64, u64) = (dims.width as u64, dims.height as u64);
    proof {
        ebml::settings_overhead(PROGRESSIVE, width, height, 0, 0);
        ebml::entry_overhead(fields@, ebml::video_settings(PROGRESSIVE, width, height));
    }
    encode_video_track(fields, PROGRESSIVE, width, height)
}

impl MkvWriter {
    /// The end of the video or audio that ends last, in ticks of 1/90000 s.
    pub fn max_end_pts(&self) -> (end: Option<u64>)
        requires
            self@.is_sound(),
        ensures
            opt_int(end) == later(
                ticks_of(track_end(self@.video, self@.video_delta)),
                ticks_of(track_end(self@.audio, self@.audio_delta)),
            ),
    {
        let video = track_end_ms(&self.video_samples, self.video_last_delta_ms);
        let audio = track_end_ms(&self.audio_samples, self.audio_last_delta_ms);
        later_of(ticks_end(video), ticks_end(audio))
    }

    /// Writes the file. Whether or not that succeeds, the writer takes no
    /// more samples.
    pub fn finalize(
        &mut self,
        video: Option<&Mp4VideoTrack>,
        metadata: Option<&Metadata>,
        container: MkvContainer,
    ) -> (result: Result<Vec<u8>, MkvWriterError>)
        requires
            old(self)@.is_sound(),
            old(self)@.fits(file_model(video, metadata, container)),
        ensures
            final(self)@.is_sound(),
            match old(self)@.file_fault(file_model(video, metadata, container)) {
                Some(fault) => result == Err::<Vec<u8>, MkvWriterError>(fault) && final(self)@
                    == (MkvQueue { finalized: true, ..old(self)@ }),
                None => result matches Ok(file) && file@ == old(self)@.file(
                    file_model(video, metadata, container),
                ) && final(self)@ == (MkvQueue {
                    finalized: true,
                    bytes_written: old(self)@.bytes_with(file@.len()),
                    ..old(self)@
                }),
            },
    {
        if self.finalized {
            return Err(MkvWriterError::FinalizedTwice);
        }
        self.finalized = true;
        let file = match self.finalize_inner(video, metadata, container) {
            Ok(file) => file,
            Err(error) => {
                return Err(error);
            },
        };
        self.bytes_written = self.bytes_written.saturating_add(file.len() as u64);
        Ok(file)
    }

    /// Checks whether WebM takes the tracks.
    fn check_container(&self, has_video: bool, container: MkvContainer) -> (result: Result<
        (),
        MkvWriterError,
    >)
        ensures
            result == (if container is WebM && has_video && (self@.video_codec matches Some(codec)
                && !container.takes_video(codec)) {
                Err(
                    MkvWriterError::UnsupportedForWebM {
                        codec: CodecLabel::Video(self@.video_codec->0),
                        reason: WEBM_VIDEO_REASON,
                    },
                )
            } else if container is WebM && (self@.audio_track matches Some(track)
                && !container.takes_audio(track.codec)) {
                Err(
                    MkvWriterError::UnsupportedForWebM {
                        codec: CodecLabel::Audio(self@.audio_track->0.codec),
                        reason: WEBM_AUDIO_REASON,
                    },
                )
            } else if container is WebM && self@.subtitle_track is Some {
                Err(
                    MkvWriterError::UnsupportedForWebM {
                        codec: CodecLabel::Subtitle(SubtitleCodec::MovText),
                        reason: WEBM_SUBTITLE_REASON,
                    },
                )
            } else {
                Ok::<(), MkvWriterError>(())
            }),
    {
        if container == MkvContainer::Matroska {
            return Ok(());
        }
        if let Some(codec) = self.video_codec {
            if has_video && !container.supports_video(codec) {
                return Err(
                    MkvWriterError::UnsupportedForWebM {
                        codec: CodecLabel::Video(codec),
                        reason: WEBM_VIDEO_REASON,
                    },
                );
            }
        }
        if let Some(track) = &self.audio_track {
            if !container.supports_audio(track.codec) {
                return Err(
                    MkvWriterError::UnsupportedForWebM {
                        codec: CodecLabel::Audio(track.codec),
                        reason: WEBM_AUDIO_REASON,
                    },
                );
            }
        }
        if self.subtitle_track.is_some() {
            return Err(
                MkvWriterError::UnsupportedForWebM {
                    codec: CodecLabel::Subtitle(SubtitleCodec::MovText),
                    reason: WEBM_SUBTITLE_REASON,
                },
            );
        }
        Ok(())
    }

    /// Encodes the entries of all tracks.
    fn encode_tracks(
        &self,
        video: Option<&Mp4VideoTrack>,
        setup: &Option<Option<Vec<u8>>>,
        language: &str,
        Ghost(file): Ghost<FileModel>,
    ) -> (result: Result<Vec<u8>, MkvWriterError>)
        requires
            self@.fits(file),
            vstd::utf8::encode_utf8(language@).len() <= MAX_BODY / 32,
            language@ == self@.language(file),
            file.size == (match video {
                Some(track) => Some((track.width, track.height)),
                None => None,
            }),
            self@.effective_setup() == (match *setup {
                Some(private) => Some(vec_of(private)),
                None => None,
            }),
            setup matches Some(Some(record)) ==> record@.len() <= MAX_BODY / 64,
            self@.effective_setup() is Some && file.size is Some ==> self@.video_codec is Some,
        ensures
            match result {
                Ok(bytes) => bytes@ == self@.track_entries(file) && bytes@.len() <= MAX_BODY / 4
                    && !(self@.audio_track matches Some(track) && (track.codec is NoAudio
                    || track.codec is Flac && track.flac_streaminfo is None)),
                Err(error) => self@.audio_track matches Some(track) && (if track.codec is NoAudio {
                    error == MkvWriterError::AudioNotEnabled
                } else {
                    track.codec is Flac && track.flac_streaminfo is None && error
                        == MkvWriterError::MissingFlacStreaminfo
                }),
            },
    {
        let mut entries: Vec<u8> = Vec::new();
        if let (Some(dims), Some(private)) = (video, setup) {
            if let Some(codec) = self.video_codec {
                let record: Option<&[u8]> = match private {
                    Some(record) => Some(record.as_slice()),
                    None => None,
                };
                let entry = build_video_track(dims, codec, record, language);
                put_slice(&mut entries, entry.as_slice());
            }
        }
        let ghost video_part = entries@;
        if let Some(track) = &self.audio_track {
            match build_audio_track(track, self.first_adts_header, language) {
                Ok(entry) => {
                    put_slice(&mut entries, entry.as_slice());
                },
                Err(error) => {
                    return Err(error);
                },
            }
        }
        let ghost audio_part = entries@;
        if let Some(track) = &self.subtitle_track {
            let entry = build_subtitle_track(track, language);
            put_slice(&mut entries, entry.as_slice());
        }
        assert(entries@ =~= self@.track_entries(file));
        Ok(entries)
    }

    /// Lays out the file.
    fn finalize_inner(
        &self,
        video: Option<&Mp4VideoTrack>,
        metadata: Option<&Metadata>,
        container: MkvContainer,
    ) -> (result: Result<Vec<u8>, MkvWriterError>)
        requires
            self@.is_sound(),
            self@.fits(file_model(video, metadata, container)),
        ensures
            match (MkvQueue { finalized: false, ..self@ }).file_fault(
                file_model(video, metadata, container),
            ) {
                Some(fault) => result == Err::<Vec<u8>, MkvWriterError>(fault),
                None => result matches Ok(file) && file@ == self@.file(
                    file_model(video, metadata, container),
                ),
            },
    {
        let ghost file = file_model(video, metadata, container);
        let no_frames = self.video_config.is_none() && self.video_samples.len() == 0;
        let fallback = no_frames && matches!(self.video_codec, Some(VideoCodec::H264));
        let setup: Option<Option<Vec<u8>>> = if fallback {
            let record: Vec<u8> = vec![
                0x01, 0x42, 0x00, 0x1E, 0xFF, 0xE1, 0x00, 0x0A, 0x67, 0x42, 0x00, 0x1E, 0xDA, 0x02,
                0x80, 0x2D, 0x8B, 0x11, 0x01, 0x00, 0x04, 0x68, 0xCE, 0x38, 0x80,
            ];
            assert(record@ =~= default_avc_record());
            Some(Some(record))
        } else {
            match &self.video_config {
                Some(Some(record)) => Some(Some(vstd::slice::slice_to_vec(record.as_slice()))),
                Some(None) => Some(None),
                None => None,
            }
        };
        let has_video = setup.is_some() && video.is_some();
        if setup.is_some() && video.is_none() {
            return Err(MkvWriterError::ConfigWithoutVideoTrack);
        }
        if !has_video && self.audio_track.is_none() && self.subtitle_track.is_none() {
            return Err(MkvWriterError::NoTracks);
        }
        match self.check_container(has_video, container) {
            Ok(_) => {},
            Err(error) => {
                return Err(error);
            },
        }
        proof {
            reveal_strlit("und");
            crate::text::utf8_len_bound("und"@);
        }
        let language: &str = match metadata {
            Some(metadata) => match &metadata.language {
                Some(language) => language.as_str(),
                None => "und",
            },
            None => "und",
        };
        let entries = match self.encode_tracks(video, &setup, language, Ghost(file)) {
            Ok(entries) => entries,
            Err(error) => {
                return Err(error);
            },
        };
        let body = self.encode_segment(metadata, entries.as_slice(), Ghost(file));
        assert(body.len() == body@.len());
        let doc_type: &str = container.doc_type();
        proof {
            reveal_strlit("matroska");
            reveal_strlit("webm");
            crate::text::utf8_len_bound(doc_type@);
        }
        let mut out = encode_ebml(
            MAX_ID_LENGTH,
            MAX_SIZE_LENGTH,
            doc_type,
            DOC_TYPE_VERSION,
            DOC_TYPE_READ_VERSION,
        );
        let header = encode_header(SEGMENT_ID, body.len() as u64);
        put_slice(&mut out, header.as_slice());
        put_slice(&mut out, body.as_slice());
        assert(out@ =~= self@.file(file));
        Ok(out)
    }

    /// Encodes the body of the segment around the entries of its tracks.
    fn encode_segment(
        &self,
        metadata: Option<&Metadata>,
        entries: &[u8],
        Ghost(file): Ghost<FileModel>,
    ) -> (body: Vec<u8>)
        requires
            self@.is_sound(),
            self@.fits(file),
            entries@ == self@.track_entries(file),
            entries@.len() <= MAX_BODY / 4,
            file.title == (match metadata {
                Some(metadata) => metadata@.title,
                None => None,
            }),
            file.creation_time == (match metadata {
                Some(metadata) => metadata@.creation_time,
                None => None,
            }),
        ensures
            body@ == self@.segment(file),
            body@.len() <= MAX_BODY,
    {
        let end: Option<u64> = later_of(
            later_of(
                track_end_ms(&self.video_samples, self.video_last_delta_ms),
                track_end_ms(&self.audio_samples, self.audio_last_delta_ms),
            ),
            subtitles_end_ms(&self.subtitle_samples),
        );
        let date: Option<i64> = match metadata {
            Some(metadata) => match metadata.creation_time {
                Some(time) => Some(unix_to_ebml_date(time)),
                None => None,
            },
            None => None,
        };
        let title: Option<&str> = match metadata {
            Some(metadata) => match &metadata.title {
                Some(title) => Some(title.as_str()),
                None => None,
            },
            None => None,
        };
        proof {
            reveal_strlit("muxfin-0.2.2");
            crate::text::utf8_len_bound(WRITING_APP@);
        }
        proof {
            ebml::info_overhead(
                MKV_TIMESTAMP_SCALE_NS,
                WRITING_APP@,
                WRITING_APP@,
                end,
                date,
                ebml::opt_text(title),
            );
            ebml::element_overhead(TRACKS_ID, entries@);
        }
        let mut body = encode_info(
            MKV_TIMESTAMP_SCALE_NS,
            WRITING_APP,
            WRITING_APP,
            end,
            date,
            title,
        );
        let header = encode_header(TRACKS_ID, entries.len() as u64);
        put_slice(&mut body, header.as_slice());
        put_slice(&mut body, entries);
        assert(body@ =~= self@.front(file));
        let blocks = collect_blocks(
            &self.video_samples,
            &self.audio_samples,
            &self.subtitle_samples,
        );
        proof {
            lemma_blocks_writable(self@);
        }
        assert(body.len() == body@.len());
        let media = encode_media(&blocks, body.len() as u64);
        put_slice(&mut body, media.as_slice());
        body
    }
}

/// The time in ticks of 1/90000 s, if the product fits 64 bits.
fn ticks_end(ms: Option<u64>) -> (ticks: Option<u64>)
    ensures
        opt_int(ticks) == ticks_of(opt_int(ms)),
{
    match ms {
        Some(ms) => if ms > u64::MAX / 90_000 {
            None
        } else {
            Some(ms * 90_000 / 1000)
        },
        None => None,
    }
}

/// The blocks of an ordered queue that fits can be written.
proof fn lemma_blocks_writable(queue: MkvQueue)
    requires
        queue.is_sound(),
        mkv_layout::samples_weight(queue.video) + mkv_layout::samples_weight(queue.audio)
            + mkv_layout::samples_weight(queue.subtitles) <= MAX_BODY / 16,
    ensures
        mkv_layout::is_writable(queue.blocks()),
        mkv_layout::weight(queue.blocks()) <= MAX_BODY / 16,
{
    let video = mkv_layout::on_track(queue.video, VIDEO_TRACK_NUMBER);
    let audio = mkv_layout::on_track(queue.audio, AUDIO_TRACK_NUMBER);
    let text = mkv_layout::on_track(queue.subtitles, SUBTITLE_TRACK_NUMBER);
    mkv_layout::lemma_track_weight(queue.video, VIDEO_TRACK_NUMBER);
    mkv_layout::lemma_track_weight(queue.audio, AUDIO_TRACK_NUMBER);
    mkv_layout::lemma_track_weight(queue.subtitles, SUBTITLE_TRACK_NUMBER);
    mkv_layout::lemma_merged_weight(video, audio, text);
    lemma_merged_in_range(video, audio, text);
}

/// Whether blocks are on known tracks and their times are in range.
spec fn in_range(blocks: Seq<mkv_layout::BlockModel>) -> bool {
    forall|i: int|
        0 <= i < blocks.len() ==> 1 <= (#[trigger] blocks[i]).track <= 3 && blocks[i].sample.pts_ms
            < MAX_TIME_MS
}

proof fn lemma_merged_in_range(
    video: Seq<mkv_layout::BlockModel>,
    audio: Seq<mkv_layout::BlockModel>,
    text: Seq<mkv_layout::BlockModel>,
)
    requires
        in_range(video),
        in_range(audio),
        in_range(text),
    ensures
        in_range(mkv_layout::merged(video, audio, text)),
    decreases video.len() + audio.len() + text.len(),
{
    let all = mkv_layout::merged(video, audio, text);
    if video.len() > 0 && !mkv_layout::comes_before(audio, video[0]) && !mkv_layout::comes_before(
        text,
        video[0],
    ) {
        lemma_tail_in_range(video);
        lemma_merged_in_range(video.drop_first(), audio, text);
        lemma_prepended_in_range(
            video[0],
            mkv_layout::merged(video.drop_first(), audio, text),
        );
    } else if audio.len() > 0 && !mkv_layout::comes_before(text, audio[0]) {
        lemma_tail_in_range(audio);
        lemma_merged_in_range(video, audio.drop_first(), text);
        lemma_prepended_in_range(
            audio[0],
            mkv_layout::merged(video, audio.drop_first(), text),
        );
    } else if text.len() > 0 {
        lemma_tail_in_range(text);
        lemma_merged_in_range(video, audio, text.drop_first());
        lemma_prepended_in_range(text[0], mkv_layout::merged(video, audio, text.drop_first()));
    }
}

proof fn lemma_tail_in_range(blocks: Seq<mkv_layout::BlockModel>)
    requires
        in_range(blocks),
        blocks.len() > 0,
    ensures
        in_range(blocks.drop_first()),
{
    let tail = blocks.drop_first();
    assert forall|i: int| 0 <= i < tail.len() implies 1 <= (#[trigger] tail[i]).track <= 3
        && tail[i].sample.pts_ms < MAX_TIME_MS by {
        assert(tail[i] == blocks[i + 1]);
    }
}

proof fn lemma_prepended_in_range(
    first: mkv_layout::BlockModel,
    rest: Seq<mkv_layout::BlockModel>,
)
    requires
        1 <= first.track <= 3,
        first.sample.pts_ms < MAX_TIME_MS,
        in_range(rest),
    ensures
        in_range(seq![first] + rest),
{
    let all = seq![first] + rest;
    assert forall|i: int| 0 <= i < all.len() implies 1 <= (#[trigger] all[i]).track <= 3
        && all[i].sample.pts_ms < MAX_TIME_MS by {
        if i > 0 {
            assert(all[i] == rest[i - 1]);
        }
    }
}

} // verus!
