//! What is handed on when a muxer starts and when it ends.

use vstd::prelude::*;
use crate::api::builder::{self, Mp4Setup, MuxerBuilder};
use crate::api::streaming::{StreamingState, TrackAnswers};
use crate::api::types::{SegmentBoundary, SubtitleCodec, VideoCodec};
use crate::fragmented::FragmentConfig;
use crate::muxer::mp4::{Mp4AudioTrack, Mp4SubtitleTrack};
use crate::muxer::streaming::{self, FinishPlan, StreamModel};

verus! {

/// The audio track that a builder describes has the codec, the rate, the
/// channels and the configuration that it was told.
pub proof fn audio_tracks_are_as_told(b: MuxerBuilder, audio: Option<Mp4AudioTrack>)
    requires
        b.describes_audio(audio),
    ensures
        audio is Some <==> (b.audio matches Some(chosen) && !(chosen.codec is NoAudio)),
        audio matches Some(track) ==> {
            &&& track.codec == b.audio->0.codec
            &&& track.sample_rate == b.audio->0.sample_rate
            &&& track.channels == b.audio->0.channels
            &&& track.flac_streaminfo == b.flac_streaminfo
            &&& track.opus_preskip == b.opus_preskip
            &&& track.opus_config_override == b.opus_config
            &&& b.aac_config is None ==> track.aac_asc_override is None
            &&& b.aac_config matches Some(config) ==> track.aac_asc_override == Some(
                config.audio_specific_config,
            )
            &&& b.audio_language is None ==> (track.language matches Some(language) && language@
                == seq!['u', 'n', 'd'])
        },
{
    if audio is Some && b.audio_language is None {
        let language = audio->0.language->0@;
        assert(language =~= seq!['u', 'n', 'd']);
    }
}

/// The subtitle track that a builder describes has the codec and the language
/// that it was told, and private data for scripts alone.
pub proof fn subtitle_tracks_are_as_told(b: MuxerBuilder, subtitle: Option<Mp4SubtitleTrack>)
    requires
        b.describes_subtitle(subtitle),
    ensures
        subtitle is Some <==> b.subtitle is Some,
        subtitle matches Some(track) ==> {
            &&& track.codec == b.subtitle->0.codec
            &&& track.language == b.subtitle->0.language
            &&& track.codec == SubtitleCodec::Ssa || track.codec == SubtitleCodec::Ass
                ==> track.codec_private == b.ass_codec_private
            &&& track.codec == SubtitleCodec::MovText || track.codec == SubtitleCodec::WebVtt
                ==> track.codec_private is None
        },
{
}

/// The tracks of an MP4 file are as told.
pub proof fn mp4_tracks_are_as_told(b: MuxerBuilder, setup: Mp4Setup)
    requires
        b.describes(setup),
    ensures
        b.video is None ==> setup.video_codec is None && setup.video_config is None,
        b.video matches Some(video) ==> setup.video_codec == Some(video.codec) && setup.video_config
            == b.video_decoder_config,
        setup.metadata == b.metadata,
        setup.audio is Some <==> (b.audio matches Some(chosen) && !(chosen.codec is NoAudio)),
        setup.subtitle is Some <==> b.subtitle is Some,
{
}

/// Fragments have the size of the video, count in 1/90000 s, and end at the
/// first sync sample behind two seconds. They carry the parameter sets of their
/// codec and no others.
pub proof fn fragments_are_as_told(b: MuxerBuilder, config: FragmentConfig)
    requires
        b.fragment_fault() is None,
        b.describes_fragments(config),
    ensures
        config.width == b.video->0.width && config.height == b.video->0.height,
        config.timescale == 90_000,
        config.fragment_duration_ms == 2_000,
        config.boundary == (SegmentBoundary::Duration {
            target: 180_000,
            require_sync_sample: true,
        }),
        b.video->0.codec == VideoCodec::H264 || b.video->0.codec == VideoCodec::H265
            ==> config.sps@ == b.sps->0@ && config.pps@ == b.pps->0@,
        b.video->0.codec == VideoCodec::Av1 || b.video->0.codec == VideoCodec::Vp9
            ==> config.sps@.len() == 0 && config.pps@.len() == 0,
        b.video->0.codec == VideoCodec::H265 ==> config.vps == b.vps,
        b.video->0.codec != VideoCodec::H265 ==> config.vps is None,
        b.video->0.codec == VideoCodec::Av1 ==> config.av1_sequence_header == b.av1_sequence_header,
        b.video->0.codec != VideoCodec::Av1 ==> config.av1_sequence_header is None,
        b.video->0.codec == VideoCodec::Vp9 ==> config.vp9_config == b.vp9_config,
        b.video->0.codec != VideoCodec::Vp9 ==> config.vp9_config is None,
{
}

/// A stream begins with the header of its media data behind the file type, and
/// nothing on its tracks.
pub proof fn streams_begin_behind_the_file_type(len: nat)
    requires
        len + 16 <= u64::MAX,
    ensures
        ({
            let stream = streaming::empty_stream(len);
            &&& stream.header_pos == len
            &&& stream.cursor == len + 16
            &&& stream.bytes_written == len + 16
            &&& stream.video.len() == 0 && stream.audio.len() == 0 && stream.subtitles.len() == 0
            &&& !stream.finished
        }),
{
}

/// A stream takes samples until it is finished, each of a length that fits 32
/// bits.
pub proof fn streams_take_samples_until_they_are_finished(stream: StreamModel, len: nat)
    ensures
        stream.fault(len) is None <==> !stream.finished && len <= 0xFFFF_FFFF,
{
}

/// The summary of the tracks tells which there are, and what the caller found.
pub proof fn summaries_tell_which_tracks_there_are(state: StreamingState, answers: TrackAnswers)
    ensures
        ({
            let summary = state.summary(answers);
            &&& summary.has_video_track <==> state.front.video_track is Some
            &&& summary.has_audio_track <==> state.front.audio_track is Some
            &&& summary.has_subtitle_track <==> state.front.subtitle is Some
            &&& summary.has_video_config == answers.has_video_config
            &&& summary.video_delta == answers.video_delta
            &&& summary.audio_delta == answers.audio_delta
            &&& summary.subtitle_delta == answers.subtitle_delta
        }),
{
}

/// The end of a stream: the header of its media data is overwritten where it
/// stands, with the size of all samples and of itself, and the index goes behind
/// the last sample.
pub proof fn streams_end_behind_the_last_sample(
    state: StreamingState,
    answers: TrackAnswers,
    plan: FinishPlan,
)
    requires
        state.is_sound(),
        state.stream.cursor < u64::MAX,
        state.ends_with(answers, plan),
    ensures
        plan.header_pos == state.stream.header_pos,
        plan.end == state.stream.cursor,
        plan.header@.len() == 16,
        plan.header@[4] == 0x6D && plan.header@[5] == 0x64 && plan.header@[6] == 0x61
            && plan.header@[7] == 0x74,
        ({
            let h = plan.header@;
            256 * (256 * (256 * (256 * (256 * (256 * (256 * h[8] + h[9]) + h[10]) + h[11]) + h[12])
                + h[13]) + h[14]) + h[15] == plan.end - plan.header_pos
        }),
{
    streaming::mdat_ends_at_the_cursor(state.stream);
    let size = state.stream.mdat_size() as u64;
    crate::wire::big_endian_bytes(0, 0, 1, size);
    let h = plan.header@;
    let tail = crate::wire::be64(size);
    assert(h =~= crate::wire::be32(1) + streaming::MDAT@ + tail);
    assert(h[8] == tail[0] && h[9] == tail[1] && h[10] == tail[2] && h[11] == tail[3] && h[12]
        == tail[4] && h[13] == tail[5] && h[14] == tail[6] && h[15] == tail[7]);
}

} // verus!
