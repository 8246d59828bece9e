//! Which tracks can be built, and the names by which codecs and containers go.

use vstd::prelude::*;
use crate::api::builder::{self, MuxerBuilder};
use crate::api::config;
use crate::api::error::{CodecLabel, InputFault, MuxerError, RejectReason, RejectedCodec};
use crate::api::front::Front;
use crate::api::mkv;
use crate::api::mp4;
use crate::api::types::{self, AacProfile, AudioCodec, ContainerFormat, SubtitleCodec, VideoCodec};
use crate::codec::flac;
use crate::decimals;
use crate::muxer::mkv::{MkvContainer, MkvWriterError};
use crate::muxer::mp4::Mp4WriterError;
use crate::seconds::{self, Seconds};
use crate::text;
use crate::text_laws;

verus! {

/// There is something to build if and only if there is video, or audio of a
/// codec; subtitles need video; and an Opus layout must be in order.
pub proof fn there_must_be_something_to_build(b: MuxerBuilder)
    ensures
        b.track_fault() is None <==> (b.opus_config matches Some(config) ==> config@.defect()
            is None) && (b.subtitle is Some ==> b.video is Some) && (b.video is Some || (
        b.audio matches Some(audio) && !(audio.codec is NoAudio))),
        b.opus_config is None && b.subtitle is Some && b.video is None ==> b.track_fault() == Some(
            MuxerError::SubtitleRequiresVideo,
        ),
        b.opus_config is None && b.subtitle is None && b.video is None && (b.audio is None
            || b.audio->0.codec is NoAudio) ==> b.track_fault() == Some(MuxerError::MissingConfig),
{
}

/// A FLAC track needs a STREAMINFO block that is valid and has the rate and
/// the channels of the track.
pub proof fn flac_tracks_need_their_streaminfo(
    b: MuxerBuilder,
    absent: InputFault,
    malformed: InputFault,
)
    ensures
        b.streaminfo_fault(absent, malformed) is None <==> !(b.audio is Some
            && b.audio->0.codec is Flac) || (b.flac_streaminfo matches Some(bytes)
            && flac::streaminfo_of(bytes@) matches Some(info) && info.sample_rate
            == b.audio->0.sample_rate && info.channels == b.audio->0.channels),
        b.audio is Some && b.audio->0.codec is Flac && b.flac_streaminfo is None
            ==> b.streaminfo_fault(absent, malformed) == Some(MuxerError::Io(absent)),
        b.audio is Some && b.audio->0.codec is Flac && b.flac_streaminfo is Some
            && flac::streaminfo_of(b.flac_streaminfo->0@) is None ==> b.streaminfo_fault(
            absent,
            malformed,
        ) == Some(MuxerError::Io(malformed)),
{
}

/// MP4 takes every codec but scripts.
pub proof fn mp4_takes_no_scripts(b: MuxerBuilder)
    ensures
        b.mp4_fault() is None <==> b.track_fault() is None && (b.subtitle matches Some(track)
            ==> !(track.codec is Ssa) && !(track.codec is Ass)) && b.streaminfo_fault(
            InputFault::MissingFlacStreaminfo,
            InputFault::InvalidFlacStreaminfo,
        ) is None,
{
}

/// Matroska takes every codec, WebM no FLAC; scripts need their private data.
pub proof fn matroska_scripts_need_private_data(b: MuxerBuilder)
    ensures
        b.mkv_fault() is None <==> b.track_fault() is None && b.streaminfo_fault(
            InputFault::MatroskaFlacStreaminfo,
            InputFault::MatroskaFlacStreaminfo,
        ) is None && !(b.container is WebM && b.audio is Some && b.audio->0.codec is Flac) && (
        b.subtitle matches Some(track) ==> (track.codec is Ssa || track.codec is Ass)
            ==> b.ass_codec_private is Some),
        b.mkv_container() == MkvContainer::WebM <==> b.container == ContainerFormat::WebM,
{
}

/// Ogg takes Opus and FLAC files take FLAC, without video or subtitles.
pub proof fn audio_files_take_one_codec(
    b: MuxerBuilder,
    is_flac: bool,
    container: ContainerFormat,
    reason: &'static str,
)
    ensures
        b.audio_only_fault(is_flac, container, reason) is None <==> (b.opus_config matches Some(
            config,
        ) ==> config@.defect() is None) && b.video is None && b.subtitle is None && (
        b.audio matches Some(audio) && (is_flac ==> audio.codec is Flac) && (!is_flac
            ==> audio.codec is Opus)) && b.streaminfo_fault(
            InputFault::MissingFlacStreaminfo,
            InputFault::InvalidFlacStreaminfo,
        ) is None,
        b.opus_config is None && b.video is None && b.subtitle is None && (b.audio is None
            || b.audio->0.codec is NoAudio) ==> b.audio_only_fault(is_flac, container, reason)
            == Some(MuxerError::MissingConfig),
{
}

/// Fragments need video with its parameter sets: SPS and PPS for H.264, VPS too
/// for H.265, a sequence header for AV1, a configuration for VP9.
pub proof fn fragments_need_parameter_sets(b: MuxerBuilder)
    ensures
        b.fragment_fault() is None <==> (b.video matches Some(video) && match video.codec {
            VideoCodec::H264 => b.sps is Some && b.pps is Some,
            VideoCodec::H265 => b.vps is Some && b.sps is Some && b.pps is Some,
            VideoCodec::Av1 => b.av1_sequence_header is Some,
            VideoCodec::Vp9 => b.vp9_config is Some,
        }),
        b.video is None ==> b.fragment_fault() == Some(MuxerError::MissingConfig),
{
}

/// A builder hands on what it was told: the parts of the tracks, the limits,
/// and a muxer that has taken nothing yet. Video counts in 1/90000 s, Opus in
/// 1/48000 s, other audio in its samples.
pub proof fn muxers_start_as_told(b: MuxerBuilder, front: Front)
    requires
        b.starts_as(front),
    ensures
        b.video is Some <==> front.video_track is Some,
        b.video matches Some(video) ==> (front.video_track matches Some(track) && track.codec
            == video.codec && track.width == video.width && track.height == video.height
            && track.timescale == 90_000),
        front.audio_track is Some <==> (b.audio matches Some(audio) && !(audio.codec is NoAudio)),
        front.audio_track matches Some(track) ==> track.codec == b.audio->0.codec
            && track.sample_rate == b.audio->0.sample_rate && track.channels == b.audio->0.channels
            && (track.codec is Opus ==> track.timescale == 48_000) && (!(track.codec is Opus)
            ==> track.timescale == track.sample_rate),
        b.subtitle matches Some(chosen) ==> (front.subtitle matches Some(track) && track.codec
            == chosen.codec && track.timescale == chosen.timescale),
        b.video_language is None ==> (front.video_track matches Some(track)
            ==> track.language.bytes() == seq![0x75u8, 0x6E, 0x64]),
        b.audio_language is None ==> (front.audio_track matches Some(track)
            ==> track.language.bytes() == seq![0x75u8, 0x6E, 0x64]),
        front.video_frames == 0 && front.audio_frames == 0 && front.subtitle_frames == 0,
        front.last_video_pts is None && front.last_video_dts is None && front.last_audio_pts is None
            && front.last_subtitle_pts is None,
        !front.finished && front.limits == b.limits,
{
}

/// Opus counts in 1/48000 s whatever its rate; other audio in its samples.
pub proof fn scales_of_audio(codec: AudioCodec, sample_rate: u32)
    ensures
        codec is Opus ==> config::audio_timescale(codec, sample_rate) == 48_000,
        !(codec is Opus) ==> config::audio_timescale(codec, sample_rate) == sample_rate,
{
}

/// The names of the video codecs, and those that they are found by.
pub proof fn names_of_video_codecs(n: Seq<char>)
    ensures
        VideoCodec::H264.name_text() == seq!['H', '.', '2', '6', '4'],
        VideoCodec::H265.name_text() == seq!['H', '.', '2', '6', '5'],
        VideoCodec::Av1.name_text() == seq!['A', 'V', '1'],
        VideoCodec::Vp9.name_text() == seq!['V', 'P', '9'],
        VideoCodec::named(n) == Some(VideoCodec::H264) <==> n == seq!['h', '2', '6', '4'] || n
            == seq!['h', '.', '2', '6', '4'] || n == seq!['a', 'v', 'c'],
        VideoCodec::named(n) == Some(VideoCodec::H265) <==> n == seq!['h', '2', '6', '5'] || n
            == seq!['h', '.', '2', '6', '5'] || n == seq!['h', 'e', 'v', 'c'],
        VideoCodec::named(n) == Some(VideoCodec::Av1) <==> n == seq!['a', 'v', '1'],
        VideoCodec::named(n) == Some(VideoCodec::Vp9) <==> n == seq!['v', 'p', '9'],
{
    reveal_strlit("H.264");
    reveal_strlit("H.265");
    reveal_strlit("AV1");
    reveal_strlit("VP9");
    reveal_strlit("h264");
    reveal_strlit("h.264");
    reveal_strlit("avc");
    reveal_strlit("h265");
    reveal_strlit("h.265");
    reveal_strlit("hevc");
    reveal_strlit("av1");
    reveal_strlit("vp9");
    assert("h264"@ =~= seq!['h', '2', '6', '4']);
    assert("h.264"@ =~= seq!['h', '.', '2', '6', '4']);
    assert("avc"@ =~= seq!['a', 'v', 'c']);
    assert("h265"@ =~= seq!['h', '2', '6', '5']);
    assert("h.265"@ =~= seq!['h', '.', '2', '6', '5']);
    assert("hevc"@ =~= seq!['h', 'e', 'v', 'c']);
    assert("av1"@ =~= seq!['a', 'v', '1']);
    assert("vp9"@ =~= seq!['v', 'p', '9']);
    assert("h265"@[3] == '5' && "h264"@[3] == '4');
    assert("h.265"@[4] == '5' && "h.264"@[4] == '4');
    assert("hevc"@[1] == 'e' && "h264"@[1] == '2' && "h265"@[1] == '2');
    assert("av1"@[2] == '1' && "avc"@[2] == 'c');
    assert("vp9"@[0] == 'v' && "avc"@[0] == 'a' && "av1"@[0] == 'a');
}

/// The names of the subtitle codecs, and those that they are found by.
pub proof fn names_of_subtitle_codecs(n: Seq<char>)
    ensures
        SubtitleCodec::named(n) == Some(SubtitleCodec::MovText) <==> n == seq![
            'm', 'o', 'v', '_', 't', 'e', 'x', 't',
        ] || n == seq!['m', 'o', 'v', 't', 'e', 'x', 't'] || n == seq!['t', 'x', '3', 'g'],
        SubtitleCodec::named(n) == Some(SubtitleCodec::WebVtt) <==> n == seq![
            'w', 'e', 'b', 'v', 't', 't',
        ] || n == seq!['w', 'v', 't', 't'] || n == seq!['v', 't', 't'],
        SubtitleCodec::MovText.name_text() == seq!['m', 'o', 'v', '_', 't', 'e', 'x', 't'],
        SubtitleCodec::WebVtt.name_text() == seq!['w', 'e', 'b', 'v', 't', 't'],
        SubtitleCodec::Ssa.name_text() == seq!['s', 's', 'a'],
        SubtitleCodec::Ass.name_text() == seq!['a', 's', 's'],
{
    reveal_strlit("mov_text");
    reveal_strlit("movtext");
    reveal_strlit("tx3g");
    reveal_strlit("webvtt");
    reveal_strlit("wvtt");
    reveal_strlit("vtt");
    reveal_strlit("ssa");
    reveal_strlit("ass");
    assert("mov_text"@ =~= seq!['m', 'o', 'v', '_', 't', 'e', 'x', 't']);
    assert("movtext"@ =~= seq!['m', 'o', 'v', 't', 'e', 'x', 't']);
    assert("tx3g"@ =~= seq!['t', 'x', '3', 'g']);
    assert("webvtt"@ =~= seq!['w', 'e', 'b', 'v', 't', 't']);
    assert("wvtt"@ =~= seq!['w', 'v', 't', 't']);
    assert("vtt"@ =~= seq!['v', 't', 't']);
    assert("wvtt"@[0] == 'w' && "tx3g"@[0] == 't');
}

/// The extensions of the containers, which are among the names that they are
/// found by.
pub proof fn names_of_containers(n: Seq<char>)
    ensures
        ContainerFormat::Mp4.extension_text() == seq!['m', 'p', '4'],
        ContainerFormat::Matroska.extension_text() == seq!['m', 'k', 'v'],
        ContainerFormat::WebM.extension_text() == seq!['w', 'e', 'b', 'm'],
        ContainerFormat::Ogg.extension_text() == seq!['o', 'g', 'g'],
        ContainerFormat::Flac.extension_text() == seq!['f', 'l', 'a', 'c'],
        ContainerFormat::named(n) == Some(ContainerFormat::Mp4) <==> n == seq!['m', 'p', '4'] || n
            == seq!['m', '4', 'v'] || n == seq!['i', 's', 'o', 'b', 'm', 'f', 'f'],
        ContainerFormat::named(n) == Some(ContainerFormat::Matroska) <==> n == seq!['m', 'k', 'v']
            || n == seq!['m', 'a', 't', 'r', 'o', 's', 'k', 'a'] || n == seq!['m', 'k', 'a'],
        ContainerFormat::named(n) == Some(ContainerFormat::WebM) <==> n == seq!['w', 'e', 'b', 'm'],
        ContainerFormat::named(n) == Some(ContainerFormat::Ogg) <==> n == seq!['o', 'g', 'g'] || n
            == seq!['o', 'p', 'u', 's'],
        ContainerFormat::named(n) == Some(ContainerFormat::Flac) <==> n == seq!['f', 'l', 'a', 'c'],
{
    reveal_strlit("mp4");
    reveal_strlit("m4v");
    reveal_strlit("isobmff");
    reveal_strlit("mkv");
    reveal_strlit("matroska");
    reveal_strlit("mka");
    reveal_strlit("webm");
    reveal_strlit("ogg");
    reveal_strlit("opus");
    reveal_strlit("flac");
    assert("mp4"@ =~= seq!['m', 'p', '4']);
    assert("m4v"@ =~= seq!['m', '4', 'v']);
    assert("isobmff"@ =~= seq!['i', 's', 'o', 'b', 'm', 'f', 'f']);
    assert("mkv"@ =~= seq!['m', 'k', 'v']);
    assert("matroska"@ =~= seq!['m', 'a', 't', 'r', 'o', 's', 'k', 'a']);
    assert("mka"@ =~= seq!['m', 'k', 'a']);
    assert("webm"@ =~= seq!['w', 'e', 'b', 'm']);
    assert("ogg"@ =~= seq!['o', 'g', 'g']);
    assert("opus"@ =~= seq!['o', 'p', 'u', 's']);
    assert("flac"@ =~= seq!['f', 'l', 'a', 'c']);
    assert("mkv"@[1] == 'k' && "mka"@[1] == 'k' && "mp4"@[1] == 'p' && "m4v"@[1] == '4');
    assert("ogg"@[0] == 'o' && "mp4"@[0] == 'm' && "m4v"@[0] == 'm' && "mkv"@[0] == 'm'
        && "mka"@[0] == 'm');
    assert("webm"@[0] == 'w' && "opus"@[0] == 'o' && "flac"@[0] == 'f');
}

/// The names that audio codecs are found by.
pub proof fn names_of_audio_codecs(n: Seq<char>)
    ensures
        AudioCodec::named(n) == Some(AudioCodec::Aac(AacProfile::Lc)) <==> n == seq!['a', 'a', 'c']
            || n == seq!['a', 'a', 'c', '-', 'l', 'c'],
        AudioCodec::named(n) == Some(AudioCodec::Aac(AacProfile::Main)) <==> n == seq![
            'a', 'a', 'c', '-', 'm', 'a', 'i', 'n',
        ],
        AudioCodec::named(n) == Some(AudioCodec::Aac(AacProfile::Ssr)) <==> n == seq![
            'a', 'a', 'c', '-', 's', 's', 'r',
        ],
        AudioCodec::named(n) == Some(AudioCodec::Aac(AacProfile::Ltp)) <==> n == seq![
            'a', 'a', 'c', '-', 'l', 't', 'p',
        ],
        AudioCodec::named(n) == Some(AudioCodec::Aac(AacProfile::He)) <==> n == seq![
            'a', 'a', 'c', '-', 'h', 'e',
        ],
        AudioCodec::named(n) == Some(AudioCodec::Aac(AacProfile::Hev2)) <==> n == seq![
            'a', 'a', 'c', '-', 'h', 'e', 'v', '2',
        ],
        AudioCodec::named(n) == Some(AudioCodec::Opus) <==> n == seq!['o', 'p', 'u', 's'],
        AudioCodec::named(n) == Some(AudioCodec::Flac) <==> n == seq!['f', 'l', 'a', 'c'],
        AudioCodec::named(n) == Some(AudioCodec::NoAudio) <==> n == seq!['n', 'o', 'n', 'e'],
{
    reveal_strlit("aac");
    reveal_strlit("aac-lc");
    reveal_strlit("aac-main");
    reveal_strlit("aac-ssr");
    reveal_strlit("aac-ltp");
    reveal_strlit("aac-he");
    reveal_strlit("aac-hev2");
    reveal_strlit("opus");
    reveal_strlit("flac");
    reveal_strlit("none");
    assert("aac"@ =~= seq!['a', 'a', 'c']);
    assert("aac-lc"@ =~= seq!['a', 'a', 'c', '-', 'l', 'c']);
    assert("aac-main"@ =~= seq!['a', 'a', 'c', '-', 'm', 'a', 'i', 'n']);
    assert("aac-ssr"@ =~= seq!['a', 'a', 'c', '-', 's', 's', 'r']);
    assert("aac-ltp"@ =~= seq!['a', 'a', 'c', '-', 'l', 't', 'p']);
    assert("aac-he"@ =~= seq!['a', 'a', 'c', '-', 'h', 'e']);
    assert("aac-hev2"@ =~= seq!['a', 'a', 'c', '-', 'h', 'e', 'v', '2']);
    assert("opus"@ =~= seq!['o', 'p', 'u', 's']);
    assert("flac"@ =~= seq!['f', 'l', 'a', 'c']);
    assert("none"@ =~= seq!['n', 'o', 'n', 'e']);
    assert("aac-main"@[4] == 'm' && "aac-hev2"@[4] == 'h');
    assert("aac-ssr"@[4] == 's' && "aac-ltp"@[4] == 'l');
    assert("aac-he"@[4] == 'h' && "aac-lc"@[4] == 'l');
    assert("opus"@[0] == 'o' && "flac"@[0] == 'f' && "none"@[0] == 'n');
}

/// What the MP4 writer refuses is told in the words of the muxer.
pub proof fn refusals_of_the_mp4_writer(front: Front, frame_index: u64)
    ensures
        mp4::mp4_error(front, Mp4WriterError::NonIncreasingTimestamp, frame_index) == (
        MuxerError::NonIncreasingVideoPts {
            prev_pts: front.last_video_pts,
            curr_pts: None,
            frame_index,
        }),
        mp4::mp4_error(front, Mp4WriterError::FirstFrameMustBeKeyframe, frame_index)
            == MuxerError::FirstVideoFrameMustBeKeyframe,
        mp4::mp4_error(front, Mp4WriterError::FirstFrameMissingSpsPps, frame_index)
            == MuxerError::FirstVideoFrameMissingSpsPps,
        mp4::mp4_error(front, Mp4WriterError::FirstFrameMissingSequenceHeader, frame_index)
            == MuxerError::FirstAv1FrameMissingSequenceHeader,
        mp4::mp4_error(front, Mp4WriterError::FirstFrameMissingVp9Config, frame_index)
            == MuxerError::FirstVp9FrameMissingSequenceHeader,
        mp4::mp4_error(front, Mp4WriterError::InvalidAdts, frame_index) == (
        MuxerError::InvalidAdts { frame_index }),
        mp4::mp4_error(front, Mp4WriterError::InvalidOpusPacket, frame_index) == (
        MuxerError::InvalidOpusPacket { frame_index }),
        mp4::mp4_error(front, Mp4WriterError::InvalidFlacFrame, frame_index) == (
        MuxerError::InvalidFlacFrame { frame_index }),
        mp4::mp4_error(front, Mp4WriterError::AudioNotEnabled, frame_index)
            == MuxerError::AudioNotConfigured,
        mp4::mp4_error(front, Mp4WriterError::SubtitleNotEnabled, frame_index)
            == MuxerError::SubtitleNotConfigured,
        mp4::mp4_error(front, Mp4WriterError::DecoderConfigurationChanged, frame_index)
            == MuxerError::DecoderConfigurationChanged,
        mp4::mp4_error(front, Mp4WriterError::AlreadyFinalized, frame_index)
            == MuxerError::AlreadyFinished,
{
}

/// What the Matroska writer refuses is told in the words of the muxer.
pub proof fn refusals_of_the_matroska_writer(
    front: Front,
    container: MkvContainer,
    frame_index: u64,
)
    ensures
        mkv::mkv_error(front, container, MkvWriterError::NonIncreasingTimestamp, frame_index) == (
        MuxerError::NonIncreasingVideoPts {
            prev_pts: front.last_video_pts,
            curr_pts: None,
            frame_index,
        }),
        mkv::mkv_error(front, container, MkvWriterError::FirstFrameMustBeKeyframe, frame_index)
            == MuxerError::FirstVideoFrameMustBeKeyframe,
        mkv::mkv_error(front, container, MkvWriterError::FirstFrameMissingSpsPps, frame_index)
            == MuxerError::FirstVideoFrameMissingSpsPps,
        mkv::mkv_error(
            front,
            container,
            MkvWriterError::FirstFrameMissingSequenceHeader,
            frame_index,
        ) == MuxerError::FirstAv1FrameMissingSequenceHeader,
        mkv::mkv_error(front, container, MkvWriterError::FirstFrameMissingVp9Config, frame_index)
            == MuxerError::FirstVp9FrameMissingSequenceHeader,
        mkv::mkv_error(front, container, MkvWriterError::InvalidOpusPacket, frame_index) == (
        MuxerError::InvalidOpusPacket { frame_index }),
        mkv::mkv_error(front, container, MkvWriterError::InvalidFlacFrame, frame_index) == (
        MuxerError::InvalidFlacFrame { frame_index }),
        mkv::mkv_error(front, container, MkvWriterError::AudioNotEnabled, frame_index)
            == MuxerError::AudioNotConfigured,
        mkv::mkv_error(front, container, MkvWriterError::SubtitleNotEnabled, frame_index)
            == MuxerError::SubtitleNotConfigured,
        mkv::mkv_error(front, container, MkvWriterError::AlreadyFinalized, frame_index)
            == MuxerError::AlreadyFinished,
        mkv::format_of(MkvContainer::Matroska) == ContainerFormat::Matroska,
        mkv::format_of(MkvContainer::WebM) == ContainerFormat::WebM,
{
}

/// Seconds with three decimals: the digits in front of the point spell the
/// whole thousands of the thousandths, the three behind it the rest; and the
/// thousandths are the nearest to the time, halves to the even one.
pub proof fn three_decimals_spell_the_thousandths(n: nat)
    ensures
        ({
            let s = decimals::fixed_point(n);
            let k = s.len() - 4;
            &&& k >= 1
            &&& s[k] == '.'
            &&& text_laws::number_of(s.take(k), 10) == n / 1000
            &&& 100 * text_laws::value_of(s[k + 1]) + 10 * text_laws::value_of(s[k + 2])
                + text_laws::value_of(s[k + 3]) == n % 1000
            &&& forall|i: int| k < i < s.len() ==> 48 <= #[trigger] s[i] as int <= 57
        }),
{
    let m = n as int;
    let front = text::digits((m / 1000) as nat, 10);
    text_laws::digits_spell_the_number((m / 1000) as nat, 10);
    text_laws::one_digit_spells_its_value(m / 100 % 10);
    text_laws::one_digit_spells_its_value(m / 10 % 10);
    text_laws::one_digit_spells_its_value(m % 10);
    reveal_strlit(".");
    lemma_point(
        front,
        text::digit(m / 100 % 10),
        text::digit(m / 10 % 10),
        text::digit(m % 10),
        m,
    );
}

#[verifier::spinoff_prover]
proof fn lemma_point(front: Seq<char>, a: Seq<char>, b: Seq<char>, c: Seq<char>, m: int)
    requires
        m >= 0,
        front.len() >= 1,
        a.len() == 1 && b.len() == 1 && c.len() == 1,
        text_laws::number_of(front, 10) == m / 1000,
        text_laws::value_of(a[0]) == m / 100 % 10,
        text_laws::value_of(b[0]) == m / 10 % 10,
        text_laws::value_of(c[0]) == m % 10,
        48 <= a[0] as int <= 57 && 48 <= b[0] as int <= 57 && 48 <= c[0] as int <= 57,
        "."@.len() == 1 && "."@[0] == '.',
    ensures
        ({
            let s = front + "."@ + a + b + c;
            let k = s.len() - 4;
            &&& k >= 1
            &&& s[k] == '.'
            &&& text_laws::number_of(s.take(k), 10) == m / 1000
            &&& 100 * text_laws::value_of(s[k + 1]) + 10 * text_laws::value_of(s[k + 2])
                + text_laws::value_of(s[k + 3]) == m % 1000
            &&& forall|i: int| k < i < s.len() ==> 48 <= #[trigger] s[i] as int <= 57
        }),
{
    let s = front + "."@ + a + b + c;
    let k = front.len() as int;
    assert(s.take(k) =~= front);
    assert(s[k + 1] == a[0] && s[k + 2] == b[0] && s[k + 3] == c[0]);
    lemma_last_three(m);
}

#[verifier::spinoff_prover]
proof fn lemma_last_three(m: int)
    requires
        m >= 0,
    ensures
        100 * (m / 100 % 10) + 10 * (m / 10 % 10) + m % 10 == m % 1000,
{
    let tens = m / 10;
    let hundreds = tens / 10;
    let thousands = hundreds / 10;
    assert(m / 100 == hundreds);
    assert(m == 10 * tens + m % 10);
    assert(tens == 10 * hundreds + tens % 10);
    assert(hundreds == 10 * thousands + hundreds % 10);
    let rest = 100 * (hundreds % 10) + 10 * (tens % 10) + m % 10;
    assert(m == 1000 * thousands + rest && 0 <= rest < 1000);
}

/// The thousandths of a time are the nearest, halves to the even one.
pub proof fn thousandths_are_nearest(time: Seconds)
    requires
        time.scale() < 0,
    ensures
        ({
            let unit = vstd::arithmetic::power2::pow2((-time.scale()) as nat);
            let exact = time.significand() * 1000;
            let n = time.thousandths();
            2 * (n * unit - exact) <= unit && 2 * (exact - n * unit) <= unit
        }),
{
    vstd::arithmetic::power2::lemma_pow2_pos((-time.scale()) as nat);
    seconds::rounded_even_is_nearest(
        time.significand() * 1000,
        vstd::arithmetic::power2::pow2((-time.scale()) as nat),
    );
}

/// What is missing of the parameter sets is told in order: those of the video,
/// of the sequence, of the picture.
pub proof fn missing_parameter_sets_are_told_in_order(b: MuxerBuilder)
    ensures
        b.video matches Some(video) ==> {
            let fault = b.fragment_fault();
            let hevc = video.codec == VideoCodec::H265;
            let avc = video.codec == VideoCodec::H264;
            &&& hevc && b.vps is None ==> fault == Some(MuxerError::Io(InputFault::H265VpsMissing))
            &&& hevc && b.vps is Some && b.sps is None ==> fault == Some(
                MuxerError::Io(InputFault::H265SpsMissing),
            )
            &&& hevc && b.vps is Some && b.sps is Some && b.pps is None ==> fault == Some(
                MuxerError::Io(InputFault::H265PpsMissing),
            )
            &&& avc && b.sps is None ==> fault == Some(MuxerError::Io(InputFault::H264SpsMissing))
            &&& avc && b.sps is Some && b.pps is None ==> fault == Some(
                MuxerError::Io(InputFault::H264PpsMissing),
            )
            &&& video.codec == VideoCodec::Av1 && b.av1_sequence_header is None ==> fault == Some(
                MuxerError::Io(InputFault::Av1SequenceHeaderMissing),
            )
            &&& video.codec == VideoCodec::Vp9 && b.vp9_config is None ==> fault == Some(
                MuxerError::Io(InputFault::Vp9ConfigMissing),
            )
        },
{
}

/// A builder for WebM makes a file of that kind; any other one of Matroska.
pub proof fn files_are_of_the_kind_that_was_told(b: MuxerBuilder)
    ensures
        b.mkv_container() == MkvContainer::WebM <==> b.container == ContainerFormat::WebM,
        b.mkv_container() == MkvContainer::Matroska <==> b.container != ContainerFormat::WebM,
{
}

/// Faults of the writers that are no fault of a frame are told as they are; a
/// codec that the container does not take is told with it.
pub proof fn other_refusals_of_the_writers(
    front: Front,
    container: MkvContainer,
    codec: CodecLabel,
    reason: &'static str,
    frame_index: u64,
)
    ensures
        mp4::mp4_error(front, Mp4WriterError::InvalidAdtsDetailed, frame_index) == (
        MuxerError::InvalidAdtsDetailed { frame_index }),
        mp4::mp4_error(front, Mp4WriterError::MissingFlacStreaminfo, frame_index) == MuxerError::Io(
            InputFault::StreaminfoNotProvided,
        ),
        mp4::mp4_error(front, Mp4WriterError::DurationOverflow, frame_index) == MuxerError::Io(
            InputFault::DurationOverflow,
        ),
        mkv::mkv_error(front, container, MkvWriterError::InvalidAdtsDetailed, frame_index) == (
        MuxerError::InvalidAdtsDetailed { frame_index }),
        mkv::mkv_error(front, container, MkvWriterError::MissingFlacStreaminfo, frame_index)
            == MuxerError::Io(InputFault::StreaminfoNotProvided),
        mkv::mkv_error(
            front,
            container,
            MkvWriterError::UnsupportedForWebM { codec, reason },
            frame_index,
        ) == (MuxerError::UnsupportedForContainer {
            codec: RejectedCodec::Named(codec),
            container: if container == MkvContainer::WebM {
                ContainerFormat::WebM
            } else {
                ContainerFormat::Matroska
            },
            reason: RejectReason::Because(reason),
        }),
        forall|error: MkvWriterError|
            error is VideoNotEnabled || error is EmptySubtitle || error is ConfigWithoutVideoTrack
                || error is NoTracks || error is FinalizedTwice ==> #[trigger] mkv::mkv_error(
                front,
                container,
                error,
                frame_index,
            ) == MuxerError::Io(InputFault::Matroska(error)),
{
}

/// Names go by their letters: the twenty-six large ones become the small ones,
/// and nothing else changes.
pub proof fn letters_become_small(name: Seq<char>, i: int)
    requires
        0 <= i < name.len(),
    ensures
        types::ascii_lowered(name).len() == name.len(),
        ({
            let before = name[i] as int;
            let after = types::ascii_lowered(name)[i] as int;
            &&& 65 <= before < 65 + 26 ==> after == before - 65 + 97
            &&& !(65 <= before < 65 + 26) ==> after == before
        }),
{
}

/// The name of a container, in small letters, is one of those that it is found
/// by.
pub proof fn containers_are_found_by_their_names(container: ContainerFormat)
    ensures
        ContainerFormat::named(types::ascii_lowered(container.name_text())) == Some(container),
        ContainerFormat::named(container.extension_text()) == Some(container),
{
    reveal_strlit("MP4");
    reveal_strlit("Matroska");
    reveal_strlit("WebM");
    reveal_strlit("Ogg");
    reveal_strlit("FLAC");
    reveal_strlit("mp4");
    reveal_strlit("m4v");
    reveal_strlit("isobmff");
    reveal_strlit("mkv");
    reveal_strlit("matroska");
    reveal_strlit("mka");
    reveal_strlit("webm");
    reveal_strlit("ogg");
    reveal_strlit("opus");
    reveal_strlit("flac");
    let low = types::ascii_lowered(container.name_text());
    match container {
        ContainerFormat::Mp4 => {
            assert(low =~= "mp4"@);
        },
        ContainerFormat::Matroska => {
            assert(low =~= "matroska"@);
            assert(low[1] == 'a' && "isobmff"@[0] == 'i');
            assert("mkv"@.len() == 3 && "mp4"@[1] == 'p' && "m4v"@[1] == '4' && "mkv"@[1] == 'k');
        },
        ContainerFormat::WebM => {
            assert(low =~= "webm"@);
            assert(low[0] == 'w' && "webm"@.len() == 4);
        },
        ContainerFormat::Ogg => {
            assert(low =~= "ogg"@);
            assert(low[0] == 'o' && "mp4"@[0] == 'm' && "m4v"@[0] == 'm' && "mkv"@[0] == 'm'
                && "mka"@[0] == 'm');
        },
        ContainerFormat::Flac => {
            assert(low =~= "flac"@);
            assert(low[0] == 'f' && "webm"@[0] == 'w' && "opus"@[0] == 'o');
        },
    }
}

/// The name of an audio codec, in small letters, is one of those that it is
/// found by; that of AAC ends with its profile.
pub proof fn audio_codecs_are_found_by_their_names(codec: AudioCodec)
    ensures
        AudioCodec::named(types::ascii_lowered(codec.name_text())) == Some(codec),
        codec matches AudioCodec::Aac(profile) ==> codec.name_text() == seq!['A', 'A', 'C', '-']
            + profile.name_text(),
{
    reveal_strlit("AAC-LC");
    reveal_strlit("aac-lc");
    reveal_strlit("LC");
    reveal_strlit("AAC-Main");
    reveal_strlit("aac-main");
    reveal_strlit("Main");
    reveal_strlit("AAC-SSR");
    reveal_strlit("aac-ssr");
    reveal_strlit("SSR");
    reveal_strlit("AAC-LTP");
    reveal_strlit("aac-ltp");
    reveal_strlit("LTP");
    reveal_strlit("AAC-HE");
    reveal_strlit("aac-he");
    reveal_strlit("HE");
    reveal_strlit("AAC-HEv2");
    reveal_strlit("aac-hev2");
    reveal_strlit("HEv2");
    reveal_strlit("Opus");
    reveal_strlit("opus");
    reveal_strlit("FLAC");
    reveal_strlit("flac");
    reveal_strlit("None");
    reveal_strlit("none");
    reveal_strlit("aac");
    let low = types::ascii_lowered(codec.name_text());
    match codec {
        AudioCodec::Aac(AacProfile::Lc) => {
            assert(low =~= "aac-lc"@);
            assert(codec.name_text() =~= seq!['A', 'A', 'C', '-'] + AacProfile::Lc.name_text());
        },
        AudioCodec::Aac(AacProfile::Main) => {
            assert(low =~= "aac-main"@);
            assert(codec.name_text() =~= seq!['A', 'A', 'C', '-'] + AacProfile::Main.name_text());
        },
        AudioCodec::Aac(AacProfile::Ssr) => {
            assert(low =~= "aac-ssr"@);
            assert(codec.name_text() =~= seq!['A', 'A', 'C', '-'] + AacProfile::Ssr.name_text());
        },
        AudioCodec::Aac(AacProfile::Ltp) => {
            assert(low =~= "aac-ltp"@);
            assert(codec.name_text() =~= seq!['A', 'A', 'C', '-'] + AacProfile::Ltp.name_text());
        },
        AudioCodec::Aac(AacProfile::He) => {
            assert(low =~= "aac-he"@);
            assert(codec.name_text() =~= seq!['A', 'A', 'C', '-'] + AacProfile::He.name_text());
        },
        AudioCodec::Aac(AacProfile::Hev2) => {
            assert(low =~= "aac-hev2"@);
            assert(codec.name_text() =~= seq!['A', 'A', 'C', '-'] + AacProfile::Hev2.name_text());
        },
        AudioCodec::Opus => {
            assert(low =~= "opus"@);
        },
        AudioCodec::Flac => {
            assert(low =~= "flac"@);
        },
        AudioCodec::NoAudio => {
            assert(low =~= "none"@);
        },
    }
    assert("aac-main"@[4] == 'm' && "aac-hev2"@[4] == 'h');
    assert("aac-ssr"@[4] == 's' && "aac-ltp"@[4] == 'l');
    assert("opus"@[0] == 'o' && "flac"@[0] == 'f' && "none"@[0] == 'n');
    assert("aac-lc"@[4] == 'l' && "aac-he"@[4] == 'h');
}

} // verus!
