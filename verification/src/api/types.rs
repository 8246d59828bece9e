//! Codecs, containers and track settings.

use vstd::prelude::*;
use vstd::string::StringExecFns;
use crate::text::same_text;
use crate::time::LanguageCode;

verus! {

/// Video codecs.
#[derive(Debug, Clone, Copy, PartialEq, Eq, Structural)]
pub enum VideoCodec {
    /// H.264/AVC, Annex B.
    H264,
    /// H.265/HEVC, Annex B.
    H265,
    /// AV1, as a stream of OBUs.
    Av1,
    /// VP9 frames.
    Vp9,
}

/// AAC profiles.
#[derive(Debug, Clone, Copy, PartialEq, Eq, Structural)]
pub enum AacProfile {
    /// Low complexity.
    Lc,
    /// Main.
    Main,
    /// Scalable sample rate.
    Ssr,
    /// Long term prediction.
    Ltp,
    /// High efficiency.
    He,
    /// High efficiency, version 2.
    Hev2,
}

/// Audio codecs.
#[derive(Debug, Clone, Copy, PartialEq, Eq, Structural)]
pub enum AudioCodec {
    /// AAC in ADTS frames.
    Aac(AacProfile),
    /// Opus packets.
    Opus,
    /// FLAC frames.
    Flac,
    /// No audio.
    NoAudio,
}

/// Subtitle codecs.
#[derive(Debug, Clone, Copy, PartialEq, Eq, Structural)]
pub enum SubtitleCodec {
    /// Timed text (`tx3g`).
    MovText,
    /// WebVTT (`wvtt`).
    WebVtt,
    /// SubStation Alpha, in Matroska only.
    Ssa,
    /// Advanced SubStation Alpha, in Matroska only.
    Ass,
}

/// Output containers.
#[derive(Debug, Clone, Copy, PartialEq, Eq, Structural)]
pub enum ContainerFormat {
    /// MP4.
    Mp4,
    /// Matroska: every codec.
    Matroska,
    /// WebM: VP9 and AV1 video, Opus audio.
    WebM,
    /// Ogg: Opus audio.
    Ogg,
    /// Native FLAC.
    Flac,
}

/// A complete decoder configuration record, supplied by the caller.
#[derive(Debug, Clone, PartialEq, Eq)]
pub enum VideoDecoderConfig {
    AvcC(Vec<u8>),
    HvcC(Vec<u8>),
    Av1C(Vec<u8>),
    VpcC(Vec<u8>),
}

/// Framing of the video input.
#[derive(Debug, Clone, Copy, PartialEq, Eq, Structural)]
pub enum VideoBitstreamFormat {
    AnnexB,
    LengthPrefixed { length_size: u8 },
    ObuStream,
    RawVp9,
}

/// Chroma subsampling of VP9, as its frame header gives it.
#[derive(Debug, Clone, Copy, PartialEq, Eq, Structural)]
pub enum ChromaSubsampling {
    Cs420Vertical,
    Cs420Colocated,
    Cs422,
    Cs444,
}

/// AAC decoder configuration, supplied by the caller.
#[derive(Debug, Clone, PartialEq, Eq)]
pub struct AacConfig {
    pub audio_specific_config: Vec<u8>,
    pub output_sample_rate: u32,
    pub samples_per_access_unit: u32,
}

/// When a segment of fragmented output ends.
#[derive(Debug, Clone, Copy, PartialEq, Eq, Structural)]
pub enum SegmentBoundary {
    /// Only when asked for.
    Manual,
    /// After `target` ticks, at a sync sample if required.
    Duration { target: u64, require_sync_sample: bool },
}

/// Settings of an audio track.
#[derive(Debug, Clone, Copy)]
pub struct AudioTrackConfig {
    pub codec: AudioCodec,
    /// Samples per second.
    pub sample_rate: u32,
    pub channels: u16,
    /// Ticks per second.
    pub timescale: u32,
    pub language: LanguageCode,
}

/// Settings of a subtitle track.
#[derive(Debug, Clone)]
pub struct SubtitleTrackConfig {
    pub codec: SubtitleCodec,
    pub language: Option<String>,
    /// Ticks per second.
    pub timescale: u32,
}

/// The lowercase form of a text.
pub uninterp spec fn lowercased(text: Seq<char>) -> Seq<char>;

/// The lowercase form of an ASCII character.
pub open spec fn ascii_lowercase(c: char) -> char {
    if 'A' <= c && c <= 'Z' {
        ((c as u32) + 32) as char
    } else {
        c
    }
}

/// Whether a text is ASCII.
pub open spec fn all_ascii(text: Seq<char>) -> bool {
    forall|i: int| 0 <= i < text.len() ==> (#[trigger] text[i]) as u32 <= 127
}

/// The lowercase form of an ASCII text.
pub open spec fn ascii_lowered(text: Seq<char>) -> Seq<char> {
    text.map_values(|c: char| ascii_lowercase(c))
}

/// `str::to_lowercase` of the standard library. Its result, by Unicode's
/// lowercase mapping, is named `lowercased`; on an ASCII text it is the text
/// with `A` to `Z` replaced by `a` to `z`.
#[verifier::external_body]
fn to_lowercase(text: &str) -> (lower: String)
    ensures
        lower@ == lowercased(text@),
        all_ascii(text@) ==> lower@ == ascii_lowered(text@),
{
    text.to_lowercase()
}

impl VideoCodec {
    /// The name of the codec.
    pub open spec fn name_text(self) -> Seq<char> {
        match self {
            VideoCodec::H264 => "H.264"@,
            VideoCodec::H265 => "H.265"@,
            VideoCodec::Av1 => "AV1"@,
            VideoCodec::Vp9 => "VP9"@,
        }
    }

    /// The name of the codec.
    pub fn name(self) -> (name: &'static str)
        ensures
            name@ == self.name_text(),
    {
        match self {
            VideoCodec::H264 => "H.264",
            VideoCodec::H265 => "H.265",
            VideoCodec::Av1 => "AV1",
            VideoCodec::Vp9 => "VP9",
        }
    }
}

impl AacProfile {
    /// The name of the profile.
    pub open spec fn name_text(self) -> Seq<char> {
        match self {
            AacProfile::Lc => "LC"@,
            AacProfile::Main => "Main"@,
            AacProfile::Ssr => "SSR"@,
            AacProfile::Ltp => "LTP"@,
            AacProfile::He => "HE"@,
            AacProfile::Hev2 => "HEv2"@,
        }
    }

    /// The name of the profile.
    pub fn name(self) -> (name: &'static str)
        ensures
            name@ == self.name_text(),
    {
        match self {
            AacProfile::Lc => "LC",
            AacProfile::Main => "Main",
            AacProfile::Ssr => "SSR",
            AacProfile::Ltp => "LTP",
            AacProfile::He => "HE",
            AacProfile::Hev2 => "HEv2",
        }
    }
}

impl AudioCodec {
    /// The name of the codec.
    pub open spec fn name_text(self) -> Seq<char> {
        match self {
            AudioCodec::Aac(AacProfile::Lc) => "AAC-LC"@,
            AudioCodec::Aac(AacProfile::Main) => "AAC-Main"@,
            AudioCodec::Aac(AacProfile::Ssr) => "AAC-SSR"@,
            AudioCodec::Aac(AacProfile::Ltp) => "AAC-LTP"@,
            AudioCodec::Aac(AacProfile::He) => "AAC-HE"@,
            AudioCodec::Aac(AacProfile::Hev2) => "AAC-HEv2"@,
            AudioCodec::Opus => "Opus"@,
            AudioCodec::Flac => "FLAC"@,
            AudioCodec::NoAudio => "None"@,
        }
    }

    /// The name of the codec.
    pub fn name(self) -> (name: &'static str)
        ensures
            name@ == self.name_text(),
    {
        match self {
            AudioCodec::Aac(AacProfile::Lc) => "AAC-LC",
            AudioCodec::Aac(AacProfile::Main) => "AAC-Main",
            AudioCodec::Aac(AacProfile::Ssr) => "AAC-SSR",
            AudioCodec::Aac(AacProfile::Ltp) => "AAC-LTP",
            AudioCodec::Aac(AacProfile::He) => "AAC-HE",
            AudioCodec::Aac(AacProfile::Hev2) => "AAC-HEv2",
            AudioCodec::Opus => "Opus",
            AudioCodec::Flac => "FLAC",
            AudioCodec::NoAudio => "None",
        }
    }
}

impl SubtitleCodec {
    /// The name of the codec.
    pub open spec fn name_text(self) -> Seq<char> {
        match self {
            SubtitleCodec::MovText => "mov_text"@,
            SubtitleCodec::WebVtt => "webvtt"@,
            SubtitleCodec::Ssa => "ssa"@,
            SubtitleCodec::Ass => "ass"@,
        }
    }

    /// The name of the codec.
    pub fn name(self) -> (name: &'static str)
        ensures
            name@ == self.name_text(),
    {
        match self {
            SubtitleCodec::MovText => "mov_text",
            SubtitleCodec::WebVtt => "webvtt",
            SubtitleCodec::Ssa => "ssa",
            SubtitleCodec::Ass => "ass",
        }
    }
}

impl ContainerFormat {
    /// The name of the container.
    pub open spec fn name_text(self) -> Seq<char> {
        match self {
            ContainerFormat::Mp4 => "MP4"@,
            ContainerFormat::Matroska => "Matroska"@,
            ContainerFormat::WebM => "WebM"@,
            ContainerFormat::Ogg => "Ogg"@,
            ContainerFormat::Flac => "FLAC"@,
        }
    }

    /// The name of the container.
    pub fn name(self) -> (name: &'static str)
        ensures
            name@ == self.name_text(),
    {
        match self {
            ContainerFormat::Mp4 => "MP4",
            ContainerFormat::Matroska => "Matroska",
            ContainerFormat::WebM => "WebM",
            ContainerFormat::Ogg => "Ogg",
            ContainerFormat::Flac => "FLAC",
        }
    }
}

impl VideoCodec {
    /// The video codec that a lowercase name stands for.
    pub open spec fn named(name: Seq<char>) -> Option<VideoCodec> {
        if name == "h264"@ || name == "h.264"@ || name == "avc"@ {
            Some(VideoCodec::H264)
        } else if name == "h265"@ || name == "h.265"@ || name == "hevc"@ {
            Some(VideoCodec::H265)
        } else if name == "av1"@ {
            Some(VideoCodec::Av1)
        } else if name == "vp9"@ {
            Some(VideoCodec::Vp9)
        } else {
            None
        }
    }

    /// The video codec that a lowercase name stands for.
    pub fn from_lowercase(name: &str) -> (found: Option<VideoCodec>)
        ensures
            found == VideoCodec::named(name@),
    {
        if same_text(name, "h264") || same_text(name, "h.264") || same_text(name, "avc") {
            Some(VideoCodec::H264)
        } else if same_text(name, "h265") || same_text(name, "h.265") || same_text(name, "hevc") {
            Some(VideoCodec::H265)
        } else if same_text(name, "av1") {
            Some(VideoCodec::Av1)
        } else if same_text(name, "vp9") {
            Some(VideoCodec::Vp9)
        } else {
            None
        }
    }

    /// The video codec that a name stands for, whatever its case.
    pub fn from_name(name: &str) -> (result: Result<VideoCodec, String>)
        ensures
            match result {
                Ok(found) => VideoCodec::named(lowercased(name@)) == Some(found),
                Err(message) => VideoCodec::named(lowercased(name@)) is None && message@
                    == "Unknown video codec: "@ + name@,
            },
            all_ascii(name@) ==> match result {
                Ok(found) => VideoCodec::named(ascii_lowered(name@)) == Some(found),
                Err(_) => VideoCodec::named(ascii_lowered(name@)) is None,
            },
    {
        let lower = to_lowercase(name);
        match VideoCodec::from_lowercase(lower.as_str()) {
            Some(found) => Ok(found),
            None => {
                let mut message = String::from_str("Unknown video codec: ");
                message.append(name);
                Err(message)
            },
        }
    }
}

impl std::str::FromStr for VideoCodec {
    type Err = String;

    fn from_str(name: &str) -> Result<VideoCodec, String> {
        VideoCodec::from_name(name)
    }
}

impl AudioCodec {
    /// The audio codec that a lowercase name stands for.
    pub open spec fn named(name: Seq<char>) -> Option<AudioCodec> {
        if name == "aac"@ || name == "aac-lc"@ {
            Some(AudioCodec::Aac(AacProfile::Lc))
        } else if name == "aac-main"@ {
            Some(AudioCodec::Aac(AacProfile::Main))
        } else if name == "aac-ssr"@ {
            Some(AudioCodec::Aac(AacProfile::Ssr))
        } else if name == "aac-ltp"@ {
            Some(AudioCodec::Aac(AacProfile::Ltp))
        } else if name == "aac-he"@ {
            Some(AudioCodec::Aac(AacProfile::He))
        } else if name == "aac-hev2"@ {
            Some(AudioCodec::Aac(AacProfile::Hev2))
        } else if name == "opus"@ {
            Some(AudioCodec::Opus)
        } else if name == "flac"@ {
            Some(AudioCodec::Flac)
        } else if name == "none"@ {
            Some(AudioCodec::NoAudio)
        } else {
            None
        }
    }

    /// The audio codec that a lowercase name stands for.
    pub fn from_lowercase(name: &str) -> (found: Option<AudioCodec>)
        ensures
            found == AudioCodec::named(name@),
    {
        if same_text(name, "aac") || same_text(name, "aac-lc") {
            Some(AudioCodec::Aac(AacProfile::Lc))
        } else if same_text(name, "aac-main") {
            Some(AudioCodec::Aac(AacProfile::Main))
        } else if same_text(name, "aac-ssr") {
            Some(AudioCodec::Aac(AacProfile::Ssr))
        } else if same_text(name, "aac-ltp") {
            Some(AudioCodec::Aac(AacProfile::Ltp))
        } else if same_text(name, "aac-he") {
            Some(AudioCodec::Aac(AacProfile::He))
        } else if same_text(name, "aac-hev2") {
            Some(AudioCodec::Aac(AacProfile::Hev2))
        } else if same_text(name, "opus") {
            Some(AudioCodec::Opus)
        } else if same_text(name, "flac") {
            Some(AudioCodec::Flac)
        } else if same_text(name, "none") {
            Some(AudioCodec::NoAudio)
        } else {
            None
        }
    }

    /// The audio codec that a name stands for, whatever its case.
    pub fn from_name(name: &str) -> (result: Result<AudioCodec, String>)
        ensures
            match result {
                Ok(found) => AudioCodec::named(lowercased(name@)) == Some(found),
                Err(message) => AudioCodec::named(lowercased(name@)) is None && message@
                    == "Unknown audio codec: "@ + name@,
            },
            all_ascii(name@) ==> match result {
                Ok(found) => AudioCodec::named(ascii_lowered(name@)) == Some(found),
                Err(_) => AudioCodec::named(ascii_lowered(name@)) is None,
            },
    {
        let lower = to_lowercase(name);
        match AudioCodec::from_lowercase(lower.as_str()) {
            Some(found) => Ok(found),
            None => {
                let mut message = String::from_str("Unknown audio codec: ");
                message.append(name);
                Err(message)
            },
        }
    }
}

impl std::str::FromStr for AudioCodec {
    type Err = String;

    fn from_str(name: &str) -> Result<AudioCodec, String> {
        AudioCodec::from_name(name)
    }
}

impl SubtitleCodec {
    /// The subtitle codec that a lowercase name stands for.
    pub open spec fn named(name: Seq<char>) -> Option<SubtitleCodec> {
        if name == "mov_text"@ || name == "movtext"@ || name == "tx3g"@ {
            Some(SubtitleCodec::MovText)
        } else if name == "webvtt"@ || name == "wvtt"@ || name == "vtt"@ {
            Some(SubtitleCodec::WebVtt)
        } else {
            None
        }
    }

    /// The subtitle codec that a lowercase name stands for.
    pub fn from_lowercase(name: &str) -> (found: Option<SubtitleCodec>)
        ensures
            found == SubtitleCodec::named(name@),
    {
        if same_text(name, "mov_text") || same_text(name, "movtext") || same_text(name, "tx3g") {
            Some(SubtitleCodec::MovText)
        } else if same_text(name, "webvtt") || same_text(name, "wvtt") || same_text(name, "vtt") {
            Some(SubtitleCodec::WebVtt)
        } else {
            None
        }
    }

    /// The subtitle codec that a name stands for, whatever its case.
    pub fn from_name(name: &str) -> (result: Result<SubtitleCodec, String>)
        ensures
            match result {
                Ok(found) => SubtitleCodec::named(lowercased(name@)) == Some(found),
                Err(message) => SubtitleCodec::named(lowercased(name@)) is None && message@
                    == "Unknown subtitle codec: "@ + name@,
            },
            all_ascii(name@) ==> match result {
                Ok(found) => SubtitleCodec::named(ascii_lowered(name@)) == Some(found),
                Err(_) => SubtitleCodec::named(ascii_lowered(name@)) is None,
            },
    {
        let lower = to_lowercase(name);
        match SubtitleCodec::from_lowercase(lower.as_str()) {
            Some(found) => Ok(found),
            None => {
                let mut message = String::from_str("Unknown subtitle codec: ");
                message.append(name);
                Err(message)
            },
        }
    }
}

impl std::str::FromStr for SubtitleCodec {
    type Err = String;

    fn from_str(name: &str) -> Result<SubtitleCodec, String> {
        SubtitleCodec::from_name(name)
    }
}

impl ContainerFormat {
    /// The container format that a lowercase name stands for.
    pub open spec fn named(name: Seq<char>) -> Option<ContainerFormat> {
        if name == "mp4"@ || name == "m4v"@ || name == "isobmff"@ {
            Some(ContainerFormat::Mp4)
        } else if name == "mkv"@ || name == "matroska"@ || name == "mka"@ {
            Some(ContainerFormat::Matroska)
        } else if name == "webm"@ {
            Some(ContainerFormat::WebM)
        } else if name == "ogg"@ || name == "opus"@ {
            Some(ContainerFormat::Ogg)
        } else if name == "flac"@ {
            Some(ContainerFormat::Flac)
        } else {
            None
        }
    }

    /// The container format that a lowercase name stands for.
    pub fn from_lowercase(name: &str) -> (found: Option<ContainerFormat>)
        ensures
            found == ContainerFormat::named(name@),
    {
        if same_text(name, "mp4") || same_text(name, "m4v") || same_text(name, "isobmff") {
            Some(ContainerFormat::Mp4)
        } else if same_text(name, "mkv") || same_text(name, "matroska") || same_text(name, "mka") {
            Some(ContainerFormat::Matroska)
        } else if same_text(name, "webm") {
            Some(ContainerFormat::WebM)
        } else if same_text(name, "ogg") || same_text(name, "opus") {
            Some(ContainerFormat::Ogg)
        } else if same_text(name, "flac") {
            Some(ContainerFormat::Flac)
        } else {
            None
        }
    }

    /// The container format that a name stands for, whatever its case.
    pub fn from_name(name: &str) -> (result: Result<ContainerFormat, String>)
        ensures
            match result {
                Ok(found) => ContainerFormat::named(lowercased(name@)) == Some(found),
                Err(message) => ContainerFormat::named(lowercased(name@)) is None && message@
                    == "Unknown container format: "@ + name@ + " (expected mp4, mkv, or webm)"@,
            },
            all_ascii(name@) ==> match result {
                Ok(found) => ContainerFormat::named(ascii_lowered(name@)) == Some(found),
                Err(_) => ContainerFormat::named(ascii_lowered(name@)) is None,
            },
    {
        let lower = to_lowercase(name);
        match ContainerFormat::from_lowercase(lower.as_str()) {
            Some(found) => Ok(found),
            None => {
                let mut message = String::from_str("Unknown container format: ");
                message.append(name);
                message.append(" (expected mp4, mkv, or webm)");
                Err(message)
            },
        }
    }
}

impl std::str::FromStr for ContainerFormat {
    type Err = String;

    fn from_str(name: &str) -> Result<ContainerFormat, String> {
        ContainerFormat::from_name(name)
    }
}

impl ContainerFormat {
    /// The usual file extension.
    pub open spec fn extension_text(self) -> Seq<char> {
        match self {
            ContainerFormat::Mp4 => "mp4"@,
            ContainerFormat::Matroska => "mkv"@,
            ContainerFormat::WebM => "webm"@,
            ContainerFormat::Ogg => "ogg"@,
            ContainerFormat::Flac => "flac"@,
        }
    }

    /// The usual file extension.
    pub fn extension(self) -> (extension: &'static str)
        ensures
            extension@ == self.extension_text(),
    {
        match self {
            ContainerFormat::Mp4 => "mp4",
            ContainerFormat::Matroska => "mkv",
            ContainerFormat::WebM => "webm",
            ContainerFormat::Ogg => "ogg",
            ContainerFormat::Flac => "flac",
        }
    }

    /// Whether this is Matroska or WebM.
    pub fn is_matroska_family(self) -> (yes: bool)
        ensures
            yes == (self == ContainerFormat::Matroska || self == ContainerFormat::WebM),
    {
        match self {
            ContainerFormat::Matroska | ContainerFormat::WebM => true,
            _ => false,
        }
    }
}

impl Default for ContainerFormat {
    fn default() -> (format: Self)
        ensures
            format == ContainerFormat::Mp4,
    {
        ContainerFormat::Mp4
    }
}

/// Metadata of a recording.
#[derive(Debug)]
pub struct Metadata {
    /// Title.
    pub title: Option<String>,
    /// Creation time in seconds since 1970.
    pub creation_time: Option<u64>,
    /// Language code.
    pub language: Option<String>,
}

/// The contents of a [`Metadata`].
#[verifier::ext_equal]
pub struct MetadataModel {
    pub title: Option<Seq<char>>,
    pub creation_time: Option<u64>,
    pub language: Option<Seq<char>>,
}

/// Optional metadata as its contents.
pub open spec fn metadata_of(metadata: Option<Metadata>) -> Option<MetadataModel> {
    match metadata {
        Some(metadata) => Some(metadata@),
        None => None,
    }
}

/// The characters of an optional text.
pub open spec fn text_of(text: Option<String>) -> Option<Seq<char>> {
    match text {
        Some(text) => Some(text@),
        None => None,
    }
}

impl View for Metadata {
    type V = MetadataModel;

    open spec fn view(&self) -> MetadataModel {
        MetadataModel {
            title: text_of(self.title),
            creation_time: self.creation_time,
            language: text_of(self.language),
        }
    }
}

impl Default for Metadata {
    fn default() -> (metadata: Self)
        ensures
            metadata@ == (MetadataModel { title: None, creation_time: None, language: None }),
    {
        Metadata { title: None, creation_time: None, language: None }
    }
}

impl Clone for Metadata {
    fn clone(&self) -> (copy: Self)
        ensures
            copy@ == self@,
    {
        Metadata {
            title: self.title.clone(),
            creation_time: self.creation_time,
            language: self.language.clone(),
        }
    }
}

/// A point in time of the system clock.
#[verifier::external_type_specification]
#[verifier::external_body]
pub struct ExSystemTime(std::time::SystemTime);

/// How far a point in time lies before another one.
#[verifier::external_type_specification]
#[verifier::external_body]
pub struct ExSystemTimeError(std::time::SystemTimeError);

/// `std::time::SystemTime::now`: the present on the system clock. Nothing is
/// said of it: it depends on the time.
pub assume_specification[ std::time::SystemTime::now ]() -> (now: std::time::SystemTime);

/// `std::time::SystemTime::duration_since` from the start of 1970 on: the time
/// that has passed since, or an error where the point lies before it. Nothing
/// is said of when that is: the clock depends on the time.
#[verifier::external_body]
fn since_epoch(time: std::time::SystemTime) -> (elapsed: Result<
    std::time::Duration,
    std::time::SystemTimeError,
>)
{
    time.duration_since(std::time::UNIX_EPOCH)
}

/// `std::time::Duration::as_secs`: the whole seconds of a duration. Nothing is
/// said of them: no other part of a duration is looked at.
pub assume_specification[ std::time::Duration::as_secs ](elapsed: &std::time::Duration) -> (whole:
    u64);

/// The seconds since 1970 on the system clock, or nothing where the clock
/// stands before 1970.
fn system_clock_seconds() -> (seconds: Option<u64>) {
    match since_epoch(std::time::SystemTime::now()) {
        Ok(elapsed) => Some(elapsed.as_secs()),
        Err(_) => None,
    }
}

impl Metadata {
    /// Empty metadata.
    pub fn new() -> (metadata: Self)
        ensures
            metadata@ == (MetadataModel { title: None, creation_time: None, language: None }),
    {
        Metadata::default()
    }

    /// The metadata with a title.
    pub fn with_title(self, title: &str) -> (metadata: Self)
        ensures
            metadata@ == (MetadataModel { title: Some(title@), ..self@ }),
    {
        let mut metadata = self;
        metadata.title = Some(String::from_str(title));
        metadata
    }

    /// The metadata with a creation time in seconds since 1970.
    pub fn with_creation_time(self, unix_timestamp: u64) -> (metadata: Self)
        ensures
            metadata@ == (MetadataModel { creation_time: Some(unix_timestamp), ..self@ }),
    {
        let mut metadata = self;
        metadata.creation_time = Some(unix_timestamp);
        metadata
    }

    /// The metadata with the creation time that a clock shows, unchanged
    /// where it shows none.
    pub fn with_clock_reading(self, reading: Option<u64>) -> (metadata: Self)
        ensures
            metadata@ == (match reading {
                Some(seconds) => MetadataModel { creation_time: Some(seconds), ..self@ },
                None => self@,
            }),
    {
        match reading {
            Some(seconds) => self.with_creation_time(seconds),
            None => self,
        }
    }

    /// The metadata with the present as its creation time, unchanged where
    /// the system clock stands before 1970.
    pub fn with_current_time(self) -> (metadata: Self)
        ensures
            metadata@.title == self@.title,
            metadata@.language == self@.language,
            metadata@.creation_time is Some || metadata@.creation_time == self@.creation_time,
    {
        let reading = system_clock_seconds();
        self.with_clock_reading(reading)
    }

    /// The metadata with a language code.
    pub fn with_language(self, language: &str) -> (metadata: Self)
        ensures
            metadata@ == (MetadataModel { language: Some(language@), ..self@ }),
    {
        let mut metadata = self;
        metadata.language = Some(String::from_str(language));
        metadata
    }
}

} // verus!
