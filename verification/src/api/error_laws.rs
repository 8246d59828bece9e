//! What the messages of errors tell.

use vstd::prelude::*;
use crate::api::audio;
use crate::api::error::{CodecLabel, InputFault, MuxerError, RejectReason, RejectedCodec};
use crate::api::front::{self, Front};
use crate::api::mkv;
use crate::api::mp4::{self, AudioWrite, SubtitlePayload, SubtitleRefusal, VideoWrite};
use crate::api::types::{ContainerFormat, SubtitleCodec, VideoCodec};
use crate::cmaf::CmafError;
use crate::codec::opus::OpusConfigError;
use crate::muxer::flac::FlacWriterError;
use crate::muxer::mkv::{self as writer, MkvContainer, MkvWriterError};
use crate::muxer::mp4::Mp4WriterError;
use crate::muxer::ogg::OggWriterError;
use crate::seconds::Seconds;
use crate::text;

verus! {

/// The number of the frame that an error is about, and the word for its track.
pub open spec fn subject(error: MuxerError) -> Option<(Seq<char>, u64)> {
    match error {
        MuxerError::NegativeVideoPts { frame_index, .. } => Some(("video frame "@, frame_index)),
        MuxerError::InvalidVideoPts { frame_index, .. } => Some(("video frame "@, frame_index)),
        MuxerError::NegativeVideoDts { frame_index, .. } => Some(("video frame "@, frame_index)),
        MuxerError::InvalidVideoDts { frame_index, .. } => Some(("video frame "@, frame_index)),
        MuxerError::EmptyVideoFrame { frame_index } => Some(("video frame "@, frame_index)),
        MuxerError::NonIncreasingVideoPts { frame_index, .. } => Some(
            ("video frame "@, frame_index),
        ),
        MuxerError::NonIncreasingDts { frame_index, .. } => Some(("video frame "@, frame_index)),
        MuxerError::NegativeAudioPts { frame_index, .. } => Some(("audio frame "@, frame_index)),
        MuxerError::InvalidAudioPts { frame_index, .. } => Some(("audio frame "@, frame_index)),
        MuxerError::EmptyAudioFrame { frame_index } => Some(("audio frame "@, frame_index)),
        MuxerError::DecreasingAudioPts { frame_index, .. } => Some(("audio frame "@, frame_index)),
        MuxerError::InvalidAdts { frame_index } => Some(("audio frame "@, frame_index)),
        MuxerError::InvalidAdtsDetailed { frame_index } => Some(("audio frame "@, frame_index)),
        MuxerError::InvalidOpusPacket { frame_index } => Some(("audio frame "@, frame_index)),
        MuxerError::InvalidFlacFrame { frame_index } => Some(("audio frame "@, frame_index)),
        MuxerError::EmptySubtitleSample { frame_index } => Some(
            ("subtitle sample "@, frame_index),
        ),
        MuxerError::NegativeSubtitlePts { frame_index, .. } => Some(
            ("subtitle sample "@, frame_index),
        ),
        MuxerError::InvalidSubtitlePts { frame_index, .. } => Some(
            ("subtitle sample "@, frame_index),
        ),
        MuxerError::InvalidSubtitleDuration { frame_index, .. } => Some(
            ("subtitle sample "@, frame_index),
        ),
        MuxerError::DecreasingSubtitlePts { frame_index, .. } => Some(
            ("subtitle sample "@, frame_index),
        ),
        _ => None,
    }
}

/// A message about a frame begins with the word for its track and the number of
/// the frame.
#[verifier::spinoff_prover]
pub proof fn messages_begin_with_the_frame(error: MuxerError, report: Seq<char>)
    requires
        subject(error) is Some,
    ensures
        ({
            let (word, index) = subject(error)->0;
            (word + text::decimal(index as int)).is_prefix_of(error.text(report))
        }),
{
    let (word, index) = subject(error)->0;
    let number = text::decimal(index as int);
    let all = error.text(report);
    assert(all.take((word + number).len() as int) =~= word + number);
}

/// A message about times that do not advance tells the time of the frame first
/// and the one before it second.
pub proof fn messages_tell_both_times(
    prev: Seconds,
    curr: Seconds,
    frame_index: u64,
    report: Seq<char>,
)
    ensures
        ({
            let video = "video frame "@ + text::decimal(frame_index as int);
            let audio = "audio frame "@ + text::decimal(frame_index as int);
            let subtitle = "subtitle sample "@ + text::decimal(frame_index as int);
            let now = curr.three_decimals();
            let before = prev.three_decimals();
            &&& (video + " has PTS "@ + now + "s which is not greater than previous PTS "@
                + before).is_prefix_of(
                (MuxerError::NonIncreasingVideoPts {
                    prev_pts: Some(prev),
                    curr_pts: Some(curr),
                    frame_index,
                }).text(report),
            )
            &&& (video + " has DTS "@ + now + "s which is not greater than previous DTS "@
                + before).is_prefix_of(
                (MuxerError::NonIncreasingDts {
                    prev_dts: prev,
                    curr_dts: curr,
                    frame_index,
                }).text(report),
            )
            &&& (audio + " has PTS "@ + now + "s which is less than previous PTS "@
                + before).is_prefix_of(
                (MuxerError::DecreasingAudioPts {
                    prev_pts: prev,
                    curr_pts: curr,
                    frame_index,
                }).text(report),
            )
            &&& (subtitle + " has PTS "@ + now + "s which is less than previous PTS "@
                + before).is_prefix_of(
                (MuxerError::DecreasingSubtitlePts {
                    prev_pts: prev,
                    curr_pts: curr,
                    frame_index,
                }).text(report),
            )
        }),
{
    let video = "video frame "@ + text::decimal(frame_index as int);
    let audio = "audio frame "@ + text::decimal(frame_index as int);
    let subtitle = "subtitle sample "@ + text::decimal(frame_index as int);
    let now = curr.three_decimals();
    let before = prev.three_decimals();
    lemma_front(
        video + " has PTS "@ + now + "s which is not greater than previous PTS "@ + before,
        "s: video timestamps must strictly increase. For B-frames, use write_video_with_dts()"@,
    );
    lemma_front(
        video + " has DTS "@ + now + "s which is not greater than previous DTS "@ + before,
        "s: DTS (decode timestamps) must strictly increase"@,
    );
    lemma_front(
        audio + " has PTS "@ + now + "s which is less than previous PTS "@ + before,
        "s: audio timestamps must not decrease"@,
    );
    lemma_front(
        subtitle + " has PTS "@ + now + "s which is less than previous PTS "@ + before,
        "s: subtitle timestamps must not decrease"@,
    );
}

proof fn lemma_front(front: Seq<char>, back: Seq<char>)
    ensures
        front.is_prefix_of(front + back),
{
    assert((front + back).take(front.len() as int) =~= front);
}

/// What the Ogg and the FLAC writer refuse is told in the words of the muxer.
pub proof fn refusals_of_the_audio_writers(frame_index: u64)
    ensures
        audio::ogg_error(OggWriterError::InvalidOpusPacket, frame_index) == (
        MuxerError::InvalidOpusPacket { frame_index }),
        audio::ogg_error(OggWriterError::AudioNotEnabled, frame_index)
            == MuxerError::AudioNotConfigured,
        audio::ogg_error(OggWriterError::AlreadyFinalized, frame_index)
            == MuxerError::AlreadyFinished,
        audio::ogg_error(OggWriterError::NonIncreasingTimestamp, frame_index) == MuxerError::Io(
            InputFault::Ogg(OggWriterError::NonIncreasingTimestamp),
        ),
        audio::flac_error(FlacWriterError::InvalidFlacFrame, frame_index) == (
        MuxerError::InvalidFlacFrame { frame_index }),
        audio::flac_error(FlacWriterError::AudioNotEnabled, frame_index)
            == MuxerError::AudioNotConfigured,
        audio::flac_error(FlacWriterError::AlreadyFinalized, frame_index)
            == MuxerError::AlreadyFinished,
        audio::flac_error(FlacWriterError::NonMonotonicFrame, frame_index) == MuxerError::Io(
            InputFault::Flac(FlacWriterError::NonMonotonicFrame),
        ),
{
}

/// A codec that WebM does not take is told as such when the file is finished;
/// other faults of the writer as they are.
pub proof fn refusals_at_the_end(container: MkvContainer, error: MkvWriterError)
    ensures
        match error {
            MkvWriterError::UnsupportedForWebM { codec, reason } => mkv::finish_error(
                container,
                error,
            ) == (MuxerError::UnsupportedForContainer {
                codec: RejectedCodec::Configured,
                container: mkv::format_of(container),
                reason: RejectReason::NotInWebM { codec, reason },
            }),
            _ => mkv::finish_error(container, error) == MuxerError::Io(InputFault::Matroska(error)),
        },
{
}

/// Subtitles that are refused: too long, or for a reason of the writer.
pub proof fn refused_subtitles(front: Front, len: usize, error: Mp4WriterError)
    ensures
        mp4::refusal_error(front, SubtitleRefusal::TooLarge(len)) == MuxerError::SubtitleTooLarge(
            len,
        ),
        mp4::refusal_error(front, SubtitleRefusal::Writer(error)) == mp4::mp4_error(
            front,
            error,
            front.subtitle_frames,
        ),
{
}

/// What the first frame of a track lacks, by its codec.
pub proof fn first_frames_need_their_setup(
    codec: VideoCodec,
    data: Seq<u8>,
    record: Option<Seq<u8>>,
)
    ensures
        writer::missing_setup(VideoCodec::H264) == MkvWriterError::FirstFrameMissingSpsPps,
        writer::missing_setup(VideoCodec::H265) == MkvWriterError::FirstFrameMissingSpsPps,
        writer::missing_setup(VideoCodec::Av1) == MkvWriterError::FirstFrameMissingSequenceHeader,
        writer::missing_setup(VideoCodec::Vp9) == MkvWriterError::FirstFrameMissingVp9Config,
        codec != VideoCodec::Vp9 ==> (match record {
            Some(bytes) => writer::first_setup(codec, data, record) == Some(Some(bytes)),
            None => writer::first_setup(codec, data, record) is None,
        }),
        codec == VideoCodec::Vp9 ==> (writer::first_setup(codec, data, record) is Some
            <==> crate::codec::vp9::config_of(data) is Some),
        codec == VideoCodec::Vp9 && writer::first_setup(codec, data, record) is Some
            ==> writer::first_setup(codec, data, record)->0 is None,
{
}

/// A cue goes into a WebVTT track as a box of its text, and into others as timed
/// text.
pub proof fn cues_are_stored_by_codec(
    payload: SubtitlePayload,
    codec: SubtitleCodec,
    cue: Seq<u8>,
)
    requires
        mp4::is_cue_payload(payload, codec, cue),
    ensures
        codec == SubtitleCodec::WebVtt <==> payload is Boxed,
        codec != SubtitleCodec::WebVtt ==> payload is TimedText,
        payload matches SubtitlePayload::Boxed(bytes) ==> bytes@ == mp4::webvtt_cue(cue),
{
}

/// A frame that is written counts on its track, and, where it came without a
/// time, moves the clock of its track by its duration.
pub proof fn written_frames_move_the_clock(front: Front, video: VideoWrite, audio: AudioWrite)
    requires
        front.video_frames < u64::MAX,
        front.audio_frames < u64::MAX,
    ensures
        ({
            let next = front.video_answered(video);
            &&& next.video_frames == front.video_frames + 1
            &&& next.last_video_pts == Some(video.shown)
            &&& video.decoded is Some ==> next.last_video_dts == video.decoded
            &&& video.decoded is None ==> next.last_video_dts == front.last_video_dts
            &&& video.step is None ==> next.video_clock == front.video_clock
            &&& video.step matches Some(step) ==> next.video_clock == front.video_clock.plus(step)
            &&& next.audio_clock == front.audio_clock
            &&& next.audio_frames == front.audio_frames
        }),
        ({
            let next = front.audio_answered(audio);
            &&& next.audio_frames == front.audio_frames + 1
            &&& next.last_audio_pts == Some(audio.shown)
            &&& audio.step is None ==> next.audio_clock == front.audio_clock
            &&& audio.step matches Some(step) ==> next.audio_clock == front.audio_clock.plus(step)
            &&& next.video_clock == front.video_clock
            &&& next.video_frames == front.video_frames
        }),
{
}

/// Whether the next frame is a keyframe is told by its bytes, or, with AV1, by
/// whether it is the first; without a video track nothing is.
pub proof fn next_keyframes(front: Front, data: Seq<u8>)
    ensures
        front.video_track is None ==> !front.next_is_keyframe(data),
        front.video_track matches Some(track) ==> (front.next_is_keyframe(data)
            <==> front::is_keyframe(track.codec, data, front.video_frames)),
        front.video_track is None ==> front.video_timescale() == 90_000,
        front.audio_track is None ==> front.audio_timescale() == 48_000,
        front.subtitle is None ==> front.subtitle_timescale() == 1_000,
        front.video_track matches Some(track) ==> front.video_timescale() == track.timescale,
        front.audio_track matches Some(track) ==> front.audio_timescale() == track.timescale,
        front.subtitle matches Some(track) ==> front.subtitle_timescale() == track.timescale,
{
}

/// Whether a text ends with another.
pub open spec fn ends_with(s: Seq<char>, end: Seq<char>) -> bool {
    s.len() >= end.len() && s.skip(s.len() - end.len()) == end
}

proof fn lemma_ends(front: Seq<char>, a: Seq<char>, b: Seq<char>)
    ensures
        front.is_prefix_of(front + a + b),
        ends_with(front + a + b, a + b),
        ends_with(front + a + b, b),
        ends_with(front + a, a),
{
    let all = front + a + b;
    assert(all.take(front.len() as int) =~= front);
    assert(all.skip(front.len() as int) =~= a + b);
    assert(all.skip((front + a).len() as int) =~= b);
    assert((front + a).skip(front.len() as int) =~= a);
}

/// A message with two numbers tells them in their places: the earlier time and
/// the later one, the time to show and the one to decode.
pub proof fn messages_tell_both_numbers(first: i64, second: i64, report: Seq<char>)
    ensures
        ({
            let order = (MuxerError::NonIncreasingIntDts { previous: first, current: second }).text(
                report,
            );
            let offset = (MuxerError::CompositionOffsetOutOfRange { pts: first, dts: second }).text(
                report,
            );
            &&& ("DTS must increase: previous="@ + text::decimal(first as int)).is_prefix_of(order)
            &&& ends_with(order, ", current="@ + text::decimal(second as int))
            &&& ("composition offset is outside signed 32-bit range: pts="@ + text::decimal(
                first as int,
            )).is_prefix_of(offset)
            &&& ends_with(offset, ", dts="@ + text::decimal(second as int))
        }),
{
    lemma_ends(
        "DTS must increase: previous="@ + text::decimal(first as int),
        ", current="@,
        text::decimal(second as int),
    );
    lemma_ends(
        "composition offset is outside signed 32-bit range: pts="@ + text::decimal(first as int),
        ", dts="@,
        text::decimal(second as int),
    );
}

/// A codec that a container does not take is named with the container, and the
/// reason follows. A fault of the input follows its heading, and so does one of
/// an Opus layout.
pub proof fn messages_tell_what_is_refused(
    label: CodecLabel,
    container: ContainerFormat,
    why: &'static str,
    fault: InputFault,
    reason: OpusConfigError,
    report: Seq<char>,
)
    ensures
        ({
            let refused = (MuxerError::UnsupportedForContainer {
                codec: RejectedCodec::Named(label),
                container,
                reason: RejectReason::Because(why),
            }).text(report);
            &&& ("codec "@ + label.name_text() + " is not supported in "@
                + container.name_text()).is_prefix_of(refused)
            &&& ends_with(refused, ": "@ + why@)
            &&& ends_with(MuxerError::Io(fault).text(report), fault.text())
            &&& ends_with((MuxerError::InvalidOpusConfig { reason }).text(report), reason.text())
        }),
{
    lemma_ends(
        "codec "@ + label.name_text() + " is not supported in "@ + container.name_text(),
        ": "@,
        why@,
    );
    lemma_ends("IO error: "@, fault.text(), Seq::empty());
    lemma_ends("invalid Opus dOps config: "@, reason.text(), Seq::empty());
}

/// Where a track and its STREAMINFO disagree, the rate and the channels of the
/// track are told first, then those of STREAMINFO.
pub proof fn messages_tell_of_the_track_first(
    rate: u32,
    channels: u16,
    info_rate: u32,
    info_channels: u8,
)
    ensures
        ({
            let built = (InputFault::FlacParametersDisagree {
                sample_rate: rate,
                channels,
                info_rate,
                info_channels,
            }).text();
            let written = (FlacWriterError::StreaminfoMismatch {
                track_rate: rate,
                track_channels: channels,
                rate: info_rate,
                channels: info_channels,
            }).text();
            let own = text::decimal(rate as int) + " Hz, "@ + text::decimal(channels as int);
            let other = text::decimal(info_rate as int) + " Hz, "@ + text::decimal(
                info_channels as int,
            );
            &&& ("FLAC track parameters ("@ + own).is_prefix_of(built)
            &&& ends_with(built, " ch) disagree with STREAMINFO ("@ + other + " ch)"@)
            &&& ("FLAC track parameters disagree with STREAMINFO (track ("@ + own).is_prefix_of(
                written,
            )
            &&& ends_with(written, " ch) vs STREAMINFO ("@ + other + " ch))"@)
        }),
{
    let r = text::decimal(rate as int);
    let c = text::decimal(channels as int);
    let ir = text::decimal(info_rate as int);
    let ic = text::decimal(info_channels as int);
    let own = r + " Hz, "@ + c;
    let other = ir + " Hz, "@ + ic;
    let a = "FLAC track parameters ("@;
    let b = " ch) disagree with STREAMINFO ("@;
    let built = a + r + " Hz, "@ + c + b + ir + " Hz, "@ + ic + " ch)"@;
    assert(built =~= (a + own) + (b + other + " ch)"@) + Seq::<char>::empty());
    lemma_ends(a + own, b + other + " ch)"@, Seq::empty());
    assert((b + other + " ch)"@) + Seq::<char>::empty() =~= b + other + " ch)"@);
    let d = "FLAC track parameters disagree with STREAMINFO (track ("@;
    let e = " ch) vs STREAMINFO ("@;
    let written = d + r + " Hz, "@ + c + e + ir + " Hz, "@ + ic + " ch))"@;
    assert(written =~= (d + own) + (e + other + " ch))"@) + Seq::<char>::empty());
    lemma_ends(d + own, e + other + " ch))"@, Seq::empty());
    assert((e + other + " ch))"@) + Seq::<char>::empty() =~= e + other + " ch))"@);
}

/// A defect of an Opus layout is told with its numbers: the coupled streams of
/// all of them, the entries of the table for the channels, the entry and how
/// many there are.
pub proof fn messages_tell_of_the_layout(a: u8, b: u8, entries: usize, decoded: u16)
    ensures
        ({
            let coupled = (OpusConfigError::CoupledExceedsStreams { streams: a, coupled: b }).text();
            let length = (OpusConfigError::MappingLength { channels: a, entries }).text();
            let entry = (OpusConfigError::MappingEntryOutOfRange { entry: a, decoded }).text();
            &&& ("coupled count "@ + text::decimal(b as int)).is_prefix_of(coupled)
            &&& ends_with(coupled, " exceeds stream count "@ + text::decimal(a as int))
            &&& ("mapping table has "@ + text::decimal(entries as int)).is_prefix_of(length)
            &&& ends_with(length, " entries for "@ + text::decimal(a as int) + " channels"@)
            &&& ("mapping entry "@ + text::decimal(a as int)).is_prefix_of(entry)
            &&& ends_with(
                entry,
                " is outside 0.."@ + text::decimal(decoded as int) + " (or 255 for silent)"@,
            )
        }),
{
    let x = text::decimal(a as int);
    let y = text::decimal(b as int);
    let n = text::decimal(entries as int);
    let d = text::decimal(decoded as int);
    lemma_ends("coupled count "@ + y, " exceeds stream count "@, x);
    lemma_three("mapping table has "@ + n, " entries for "@, x, " channels"@);
    lemma_three("mapping entry "@ + x, " is outside 0.."@, d, " (or 255 for silent)"@);
}

proof fn lemma_three(front: Seq<char>, a: Seq<char>, b: Seq<char>, c: Seq<char>)
    ensures
        front.is_prefix_of(front + a + b + c),
        ends_with(front + a + b + c, a + b + c),
{
    let all = front + a + b + c;
    assert(all.take(front.len() as int) =~= front);
    assert(all.skip(front.len() as int) =~= a + b + c);
}

/// A breach of a fragment profile is told with what was asked for first and
/// what was found second.
pub proof fn messages_tell_what_was_asked_for(
    expected: u32,
    actual: u32,
    profile: &'static str,
    width: u32,
    height: u32,
)
    ensures
        ({
            let scale = (CmafError::BadTimescale { expected, actual }).text();
            let size = (CmafError::ResolutionTooLarge {
                profile,
                width,
                height,
                max_width: expected,
                max_height: actual,
            }).text();
            &&& ("CMAF video profiles require a "@ + text::decimal(expected as int)).is_prefix_of(
                scale,
            )
            &&& ends_with(scale, " Hz timescale, got "@ + text::decimal(actual as int) + " Hz"@)
            &&& ("CMAF profile "@ + profile@ + " caps resolution at "@ + text::decimal(
                expected as int,
            ) + "x"@ + text::decimal(actual as int)).is_prefix_of(size)
            &&& ends_with(
                size,
                ", got "@ + text::decimal(width as int) + "x"@ + text::decimal(height as int),
            )
        }),
{
    let e = text::decimal(expected as int);
    let a = text::decimal(actual as int);
    let w = text::decimal(width as int);
    let h = text::decimal(height as int);
    lemma_three("CMAF video profiles require a "@ + e, " Hz timescale, got "@, a, " Hz"@);
    let front = "CMAF profile "@ + profile@ + " caps resolution at "@ + e + "x"@ + a;
    let all = front + ", got "@ + w + "x"@ + h;
    assert(all.take(front.len() as int) =~= front);
    assert(all.skip(front.len() as int) =~= ", got "@ + w + "x"@ + h);
}

} // verus!
