//! What becomes of a sample that a muxer takes, and of one that it refuses.

use vstd::prelude::*;
use crate::api::audio::{self, FlacState, OggState};
use crate::api::error::{InputFault, MuxerError};
use crate::api::front::Front;
use crate::api::mkv::{self, MkvState};
use crate::api::mp4::{self, AudioWrite, SubtitleRefusal, SubtitleWrite, VideoWrite};
use crate::api::streaming::{self, StreamingState};
use crate::api::front_laws;
use crate::muxer::mkv_laws;
use crate::muxer::mp4::Mp4WriterError;
use crate::muxer::streaming::StreamEntry;
use crate::seconds::Seconds;
use crate::time::SampleTime;

verus! {

/// The later of two ends, where both are known; else the one that is.
pub proof fn the_later_end_counts(a: Option<u64>, b: Option<u64>)
    ensures
        streaming::later(a, b) is None <==> a is None && b is None,
        a matches Some(x) ==> streaming::later(a, b)->0 >= x,
        b matches Some(y) ==> streaming::later(a, b)->0 >= y,
        streaming::later(a, b) == a || streaming::later(a, b) == b,
{
}

/// What is written of a video sample is what was asked for: its times, its
/// flag and its duration.
pub proof fn video_writes_keep_the_sample(
    pts: u64,
    dts: u64,
    is_keyframe: bool,
    duration: Option<u32>,
)
    ensures
        ({
            let write = StreamingState::video_write(pts, dts, is_keyframe, duration);
            &&& write.pts == pts
            &&& write.dts == dts
            &&& write.is_keyframe == is_keyframe
            &&& write.duration == duration
            &&& write.shown == Seconds::of_ratio(pts as int, 90_000)
            &&& write.decoded == Some(Seconds::of_ratio(dts as int, 90_000))
            &&& write.step is None
        }),
{
}

/// A muxer that is done takes nothing more; else a fault of the sample counts
/// before a want of room; else the sample is written.
pub proof fn finished_muxers_take_nothing<T>(
    state: StreamingState,
    fault: Option<MuxerError>,
    room: Option<MuxerError>,
    write: T,
)
    ensures
        state.front.finished ==> state.decided(fault, room, write) == Err::<T, MuxerError>(
            MuxerError::AlreadyFinished,
        ),
        !state.front.finished && fault is Some ==> state.decided(fault, room, write) == Err::<
            T,
            MuxerError,
        >(fault->0),
        !state.front.finished && fault is None && room is Some ==> state.decided(fault, room, write)
            == Err::<T, MuxerError>(room->0),
        !state.front.finished && fault is None && room is None ==> state.decided(fault, room, write)
            == Ok::<T, MuxerError>(write),
{
}

/// There is room on a track up to its limit.
pub proof fn tracks_have_room_up_to_the_limit(state: StreamingState)
    ensures
        state.video_room() is None <==> state.front.video_track is Some && state.front.video_frames
            < state.front.limits.max_samples_per_track,
        state.audio_room() is None <==> state.front.audio_track is Some && state.front.audio_frames
            < state.front.limits.max_samples_per_track,
        state.cue_room() is None <==> state.front.subtitle_frames
            < state.front.limits.max_samples_per_track,
        state.front.video_track is None ==> state.video_room() == Some(
            MuxerError::Io(InputFault::VideoNotConfigured),
        ),
        state.front.audio_track is None ==> state.audio_room() == Some(
            MuxerError::AudioNotConfigured,
        ),
{
}

/// The place of a video sample: at the end of what is there, with the times and
/// the flag that were asked for and the length of its bytes. The sample before
/// it gets the distance to it. One that is refused changes nothing.
pub proof fn video_samples_get_the_next_place(
    state: StreamingState,
    write: VideoWrite,
    prepared: Result<(Seq<u8>, Option<u32>), Mp4WriterError>,
)
    ensures
        ({
            let (result, next) = state.after_video(write, prepared);
            &&& result is Ok <==> !state.stream.finished && prepared is Ok && prepared->Ok_0.0.len()
                <= 0xFFFF_FFFF
            &&& result matches Ok(entry) ==> {
                &&& entry.offset == state.stream.cursor
                &&& entry.meta.pts == write.pts
                &&& entry.meta.dts == write.dts
                &&& entry.meta.size == prepared->Ok_0.0.len()
                &&& entry.meta.is_keyframe == write.is_keyframe
                &&& entry.meta.duration is None
                &&& next.front == state.front
                &&& next.stream.cursor == state.stream.cursor
                &&& next.stream.video.len() == state.stream.video.len()
                &&& state.stream.video.len() > 0 ==> next.stream.video.last().meta.duration
                    == prepared->Ok_0.1 && next.stream.video.last().meta.pts
                    == state.stream.video.last().meta.pts
                &&& next.stream.audio == state.stream.audio && next.stream.subtitles
                    == state.stream.subtitles
            }
            &&& result is Err ==> next == state
        }),
{
}

/// A video sample that is stored counts, is the last of its track, and, where
/// its duration is told, lasts and ends as told.
pub proof fn stored_video_samples_count(state: StreamingState, write: VideoWrite, entry: StreamEntry)
    requires
        state.front.video_frames < u64::MAX,
        state.stream.cursor + entry.meta.size <= u64::MAX,
    ensures
        ({
            let next = state.video_committed(write, entry);
            let n = state.stream.video.len() as int;
            &&& next.stream.video.len() == n + 1
            &&& next.stream.video.take(n) == state.stream.video
            &&& next.stream.video[n].offset == entry.offset
            &&& next.stream.video[n].meta.pts == entry.meta.pts
            &&& next.stream.video[n].meta.dts == entry.meta.dts
            &&& next.stream.video[n].meta.size == entry.meta.size
            &&& next.stream.video[n].meta.is_keyframe == entry.meta.is_keyframe
            &&& write.duration is Some ==> next.stream.video[n].meta.duration == write.duration
            &&& write.duration is None ==> next.stream.video[n].meta.duration
                == entry.meta.duration
            &&& next.stream.cursor == state.stream.cursor + entry.meta.size
            &&& next.stream.audio == state.stream.audio && next.stream.subtitles
                == state.stream.subtitles
            &&& next.front.video_frames == state.front.video_frames + 1
            &&& next.front.last_video_pts == Some(write.shown)
            &&& write.duration matches Some(lasts) ==> write.pts + lasts <= u64::MAX
                ==> next.video_end == Some((write.pts + lasts) as u64)
            &&& write.duration is None ==> next.video_end == state.video_end
            &&& next.audio_end == state.audio_end && next.subtitle_end == state.subtitle_end
        }),
{
    let next = state.video_committed(write, entry);
    let n = state.stream.video.len() as int;
    assert(next.stream.video.take(n) =~= state.stream.video);
}

/// The place of an audio sample, as with video; it is decoded when it is
/// heard.
pub proof fn audio_samples_get_the_next_place(
    state: StreamingState,
    write: AudioWrite,
    prepared: Result<(Seq<u8>, Option<u32>), Mp4WriterError>,
)
    ensures
        ({
            let (result, next) = state.after_audio(write, prepared);
            &&& result is Ok <==> !state.stream.finished && prepared is Ok && prepared->Ok_0.0.len()
                <= 0xFFFF_FFFF
            &&& result matches Ok(entry) ==> {
                &&& entry.offset == state.stream.cursor
                &&& entry.meta.pts == write.pts
                &&& entry.meta.dts == write.pts
                &&& entry.meta.size == prepared->Ok_0.0.len()
                &&& entry.meta.duration is None
                &&& next.front == state.front
                &&& next.stream.video == state.stream.video && next.stream.subtitles
                    == state.stream.subtitles
                &&& state.stream.audio.len() > 0 ==> next.stream.audio.last().meta.duration
                    == prepared->Ok_0.1
            }
            &&& result is Err ==> next == state
        }),
{
}

/// An audio sample that is stored counts, as with video.
pub proof fn stored_audio_samples_count(state: StreamingState, write: AudioWrite, entry: StreamEntry)
    requires
        state.front.audio_frames < u64::MAX,
        state.stream.cursor + entry.meta.size <= u64::MAX,
    ensures
        ({
            let next = state.audio_committed(write, entry);
            let n = state.stream.audio.len() as int;
            &&& next.stream.audio.len() == n + 1
            &&& next.stream.audio.take(n) == state.stream.audio
            &&& next.stream.audio[n].offset == entry.offset
            &&& next.stream.audio[n].meta.pts == entry.meta.pts
            &&& next.stream.audio[n].meta.dts == entry.meta.dts
            &&& next.stream.audio[n].meta.size == entry.meta.size
            &&& write.duration is Some ==> next.stream.audio[n].meta.duration == write.duration
            &&& next.stream.cursor == state.stream.cursor + entry.meta.size
            &&& next.stream.video == state.stream.video && next.stream.subtitles
                == state.stream.subtitles
            &&& next.front.audio_frames == state.front.audio_frames + 1
            &&& next.front.last_audio_pts == Some(write.shown)
            &&& write.duration matches Some(lasts) ==> write.pts + lasts <= u64::MAX
                ==> next.audio_end == Some((write.pts + lasts) as u64)
            &&& write.duration is None ==> next.audio_end == state.audio_end
            &&& next.video_end == state.video_end && next.subtitle_end == state.subtitle_end
        }),
{
    let next = state.audio_committed(write, entry);
    let n = state.stream.audio.len() as int;
    assert(next.stream.audio.take(n) =~= state.stream.audio);
}

/// The place of a subtitle: at the end of what is there, at its time and for
/// the duration that was worked out for it.
pub proof fn subtitles_get_the_next_place(
    state: StreamingState,
    write: SubtitleWrite,
    prepared: Result<(Seq<u8>, u32), SubtitleRefusal>,
)
    ensures
        ({
            let result = state.subtitle_place(write, prepared);
            &&& result is Ok <==> !state.stream.finished && prepared is Ok && prepared->Ok_0.0.len()
                <= 0xFFFF_FFFF
            &&& result matches Ok(entry) ==> {
                &&& entry.offset == state.stream.cursor
                &&& entry.meta.pts == write.pts
                &&& entry.meta.dts == write.pts
                &&& entry.meta.size == prepared->Ok_0.0.len()
                &&& entry.meta.duration == Some(prepared->Ok_0.1)
            }
            &&& prepared matches Err(SubtitleRefusal::TooLarge(len)) ==> result == Err::<
                StreamEntry,
                MuxerError,
            >(MuxerError::SubtitleTooLarge(len))
        }),
{
}

/// A subtitle that is stored counts.
pub proof fn stored_subtitles_count(state: StreamingState, write: SubtitleWrite, entry: StreamEntry)
    requires
        state.front.subtitle_frames < u64::MAX,
        state.stream.cursor + entry.meta.size <= u64::MAX,
        write.pts + write.duration <= u64::MAX,
    ensures
        ({
            let next = state.subtitle_committed(write, entry);
            &&& next.stream.subtitles == state.stream.subtitles.push(entry)
            &&& next.stream.cursor == state.stream.cursor + entry.meta.size
            &&& next.stream.video == state.stream.video && next.stream.audio == state.stream.audio
            &&& next.front.subtitle_frames == state.front.subtitle_frames + 1
            &&& next.front.last_subtitle_pts == Some(write.shown)
            &&& next.subtitle_end == Some((write.pts + write.duration) as u64)
            &&& next.video_end == state.video_end && next.audio_end == state.audio_end
        }),
{
}

/// A box has its length in four bytes, the most significant first, its kind,
/// and what it holds.
pub proof fn boxes_have_their_length(kind: Seq<u8>, payload: Seq<u8>)
    requires
        kind.len() == 4,
        payload.len() + 8 < 0x1_0000_0000,
    ensures
        ({
            let bytes = mp4::small_box(kind, payload);
            &&& bytes.len() == payload.len() + 8
            &&& 256 * (256 * (256 * bytes[0] + bytes[1]) + bytes[2]) + bytes[3] == bytes.len()
            &&& bytes.subrange(4, 8) == kind
            &&& bytes.skip(8) == payload
        }),
{
    let bytes = mp4::small_box(kind, payload);
    crate::wire::big_endian_bytes(0, 0, (8 + payload.len()) as u32, 0);
    assert(bytes.subrange(4, 8) =~= kind);
    assert(bytes.skip(8) =~= payload);
}

/// A WebVTT cue is a `vttc` box that holds a `payl` box that holds the text.
pub proof fn cues_hold_their_text(text: Seq<u8>)
    requires
        text.len() + 16 < 0x1_0000_0000,
    ensures
        ({
            let bytes = mp4::webvtt_cue(text);
            &&& bytes.len() == text.len() + 16
            &&& 256 * (256 * (256 * bytes[0] + bytes[1]) + bytes[2]) + bytes[3] == bytes.len()
            &&& bytes[4] == 0x76 && bytes[5] == 0x74 && bytes[6] == 0x74 && bytes[7] == 0x63
            &&& 256 * (256 * (256 * bytes[8] + bytes[9]) + bytes[10]) + bytes[11] == text.len() + 8
            &&& bytes[12] == 0x70 && bytes[13] == 0x61 && bytes[14] == 0x79 && bytes[15] == 0x6C
            &&& bytes.skip(16) == text
        }),
{
    let inner = mp4::small_box(mp4::PAYL@, text);
    let bytes = mp4::webvtt_cue(text);
    boxes_have_their_length(mp4::PAYL@, text);
    boxes_have_their_length(mp4::VTTC@, inner);
    assert(forall|i: int| 0 <= i < inner.len() ==> bytes.skip(8)[i] == bytes[i + 8]);
    assert(forall|i: int| 0 <= i < 4 ==> bytes.subrange(4, 8)[i] == bytes[i + 4]);
    assert(forall|i: int| 0 <= i < 4 ==> inner.subrange(4, 8)[i] == inner[i + 4]);
    assert(inner[0] == bytes[8] && inner[1] == bytes[9] && inner[2] == bytes[10] && inner[3]
        == bytes[11]);
    assert(inner[4] == bytes[12] && inner[5] == bytes[13] && inner[6] == bytes[14] && inner[7]
        == bytes[15]);
    assert(mp4::VTTC@[0] == bytes[4] && mp4::VTTC@[1] == bytes[5] && mp4::VTTC@[2] == bytes[6]
        && mp4::VTTC@[3] == bytes[7]);
    assert(mp4::PAYL@[0] == inner[4] && mp4::PAYL@[1] == inner[5] && mp4::PAYL@[2] == inner[6]
        && mp4::PAYL@[3] == inner[7]);
    assert(bytes.skip(16) =~= text) by {
        assert(inner.skip(8) =~= text);
        assert(bytes.skip(8) =~= inner);
        assert(bytes.skip(16) =~= inner.skip(8));
    }
}

/// A sample that a Matroska muxer takes counts once and goes to the end of its
/// track, at its times in whole milliseconds, and with its bytes and its flag.
pub proof fn matroska_video_samples_are_queued(
    state: MkvState,
    timing: SampleTime,
    len: nat,
    stored: Seq<u8>,
    is_sync: bool,
    record: Option<Seq<u8>>,
)
    requires
        state.is_sound(),
        state.front.video_frames < u64::MAX,
        state.after_video_sample(timing, len, stored, is_sync, record).0 is Ok,
        timing.pts <= 0x7FFF_FFFF_FFFF && timing.dts <= 0x7FFF_FFFF_FFFF,
    ensures
        ({
            let next = state.after_video_sample(timing, len, stored, is_sync, record).1;
            let n = state.queue.video.len() as int;
            let sample = next.queue.video[n];
            &&& next.queue.video.len() == n + 1
            &&& 90 * sample.pts_ms <= timing.pts < 90 * (sample.pts_ms + 1)
            &&& 90 * sample.dts_ms <= timing.dts < 90 * (sample.dts_ms + 1)
            &&& sample.data == stored
            &&& sample.is_keyframe == is_sync
            &&& next.front.video_frames == state.front.video_frames + 1
            &&& next.front.last_video_pts == Some(Seconds::of_ratio(timing.pts as int, 90_000))
            &&& next.front.last_video_dts == Some(Seconds::of_ratio(timing.dts as int, 90_000))
            &&& next.queue.audio == state.queue.audio && next.queue.subtitles
                == state.queue.subtitles
            &&& next.container == state.container && next.metadata == state.metadata
        }),
{
    front_laws::video_samples_keep_their_ticks(state.front, timing, len);
    mkv_laws::video_samples_are_queued_as_they_are(
        state.queue,
        timing.pts as u64,
        timing.dts as u64,
        stored,
        is_sync,
        record,
    );
}

/// A frame in seconds goes to the end of its track at the tick of its time;
/// without a decode time it is decoded when it is shown.
pub proof fn matroska_frames_are_queued(
    state: MkvState,
    pts: Seconds,
    dts: Seconds,
    len: nat,
    stored: Seq<u8>,
    is_keyframe: bool,
    record: Option<Seq<u8>>,
)
    requires
        state.is_sound(),
        state.front.video_frames < u64::MAX,
        0 <= pts.in_ticks() <= 0x7FFF_FFFF_FFFF,
        0 <= dts.in_ticks() <= 0x7FFF_FFFF_FFFF,
    ensures
        state.after_video(pts, len, stored, is_keyframe, record).0 is Ok ==> ({
            let next = state.after_video(pts, len, stored, is_keyframe, record).1;
            let n = state.queue.video.len() as int;
            let sample = next.queue.video[n];
            &&& next.queue.video.len() == n + 1
            &&& 90 * sample.pts_ms <= pts.in_ticks() < 90 * (sample.pts_ms + 1)
            &&& sample.dts_ms == sample.pts_ms
            &&& sample.data == stored && sample.is_keyframe == is_keyframe
            &&& next.front.last_video_pts == Some(pts)
            &&& next.front.video_frames == state.front.video_frames + 1
        }),
        state.after_video_with_dts(pts, dts, len, stored, is_keyframe, record).0 is Ok ==> ({
            let next = state.after_video_with_dts(pts, dts, len, stored, is_keyframe, record).1;
            let n = state.queue.video.len() as int;
            let sample = next.queue.video[n];
            &&& next.queue.video.len() == n + 1
            &&& 90 * sample.pts_ms <= pts.in_ticks() < 90 * (sample.pts_ms + 1)
            &&& 90 * sample.dts_ms <= dts.in_ticks() < 90 * (sample.dts_ms + 1)
            &&& sample.data == stored && sample.is_keyframe == is_keyframe
            &&& next.front.last_video_pts == Some(pts) && next.front.last_video_dts == Some(dts)
            &&& next.front.video_frames == state.front.video_frames + 1
        }),
{
    if state.after_video(pts, len, stored, is_keyframe, record).0 is Ok {
        mkv_laws::video_samples_are_queued_as_they_are(
            state.queue,
            pts.in_ticks() as u64,
            pts.in_ticks() as u64,
            stored,
            is_keyframe,
            record,
        );
        mkv_laws::milliseconds_are_whole(pts.in_ticks() as u64);
    }
    if state.after_video_with_dts(pts, dts, len, stored, is_keyframe, record).0 is Ok {
        mkv_laws::video_samples_are_queued_as_they_are(
            state.queue,
            pts.in_ticks() as u64,
            dts.in_ticks() as u64,
            stored,
            is_keyframe,
            record,
        );
    }
}

/// Audio and subtitles go to the end of their tracks at the tick of their
/// time.
pub proof fn matroska_audio_and_subtitles_are_queued(
    state: MkvState,
    pts: Seconds,
    duration: Seconds,
    data: Seq<u8>,
    raw: Option<Seq<u8>>,
)
    requires
        state.is_sound(),
        state.front.audio_frames < u64::MAX,
        state.front.subtitle_frames < u64::MAX,
        0 <= pts.in_ticks() <= 0x7FFF_FFFF_FFFF,
    ensures
        state.after_audio(pts, data, raw).0 is Ok ==> ({
            let next = state.after_audio(pts, data, raw).1;
            let n = state.queue.audio.len() as int;
            &&& next.queue.audio.len() == n + 1
            &&& 90 * next.queue.audio[n].pts_ms <= pts.in_ticks() < 90 * (next.queue.audio[n].pts_ms
                + 1)
            &&& !(state.queue.audio_track->0.codec is Aac) ==> next.queue.audio[n].data == data
            &&& state.queue.audio_track->0.codec is Aac ==> Some(next.queue.audio[n].data) == raw
            &&& next.front.audio_frames == state.front.audio_frames + 1
            &&& next.front.last_audio_pts == Some(pts)
            &&& next.queue.video == state.queue.video && next.queue.subtitles
                == state.queue.subtitles
        }),
        state.after_subtitle(pts, duration, data).0 is Ok ==> ({
            let next = state.after_subtitle(pts, duration, data).1;
            let n = state.queue.subtitles.len() as int;
            let sample = next.queue.subtitles[n];
            &&& next.queue.subtitles.len() == n + 1
            &&& 90 * sample.pts_ms <= pts.in_ticks() < 90 * (sample.pts_ms + 1)
            &&& sample.data == data
            &&& 180 <= duration.in_ticks() <= 0xFFFF_FFFF ==> 90 * sample.duration_ms->0
                <= duration.in_ticks() < 90 * (sample.duration_ms->0 + 1)
            &&& next.front.subtitle_frames == state.front.subtitle_frames + 1
            &&& next.front.last_subtitle_pts == Some(pts)
            &&& next.queue.video == state.queue.video && next.queue.audio == state.queue.audio
        }),
{
    if state.after_audio(pts, data, raw).0 is Ok {
        mkv_laws::audio_samples_are_queued_as_they_are(
            state.queue,
            pts.in_ticks() as u64,
            data,
            raw,
        );
    }
    if state.after_subtitle(pts, duration, data).0 is Ok {
        mkv_laws::subtitles_are_queued_as_they_are(
            state.queue,
            pts.in_ticks() as u64,
            crate::api::front::subtitle_ticks(duration),
            data,
        );
        front_laws::subtitles_stay_at_least_a_tick(duration);
    }
}

/// What a Matroska muxer refuses leaves its tracks and counts as they were.
pub proof fn refused_matroska_samples_change_nothing(
    state: MkvState,
    pts: Seconds,
    dts: Seconds,
    timing: SampleTime,
    len: nat,
    stored: Seq<u8>,
    is_keyframe: bool,
    record: Option<Seq<u8>>,
)
    ensures
        state.after_video(pts, len, stored, is_keyframe, record).0 is Err ==> state.after_video(
            pts,
            len,
            stored,
            is_keyframe,
            record,
        ).1 == state,
        state.after_video_with_dts(pts, dts, len, stored, is_keyframe, record).0 is Err
            ==> state.after_video_with_dts(pts, dts, len, stored, is_keyframe, record).1 == state,
        state.after_video_sample(timing, len, stored, is_keyframe, record).0 is Err
            ==> state.after_video_sample(timing, len, stored, is_keyframe, record).1 == state,
        state.after_subtitle(pts, dts, stored).0 is Err ==> state.after_subtitle(
            pts,
            dts,
            stored,
        ).1 == state,
        state.after_audio(pts, stored, record).0 is Err ==> state.after_audio(
            pts,
            stored,
            record,
        ).1.front == state.front,
        state.front.finished ==> {
            &&& state.after_video_with_dts(pts, dts, len, stored, is_keyframe, record).0 == Err::<
                (),
                MuxerError,
            >(MuxerError::AlreadyFinished)
            &&& state.after_video_sample(timing, len, stored, is_keyframe, record).0 == Err::<
                (),
                MuxerError,
            >(MuxerError::AlreadyFinished)
            &&& state.after_audio(pts, stored, record).0 == Err::<(), MuxerError>(
                MuxerError::AlreadyFinished,
            )
            &&& state.after_subtitle(pts, dts, stored).0 == Err::<(), MuxerError>(
                MuxerError::AlreadyFinished,
            )
        },
{
}

/// The statistics of a Matroska file count what is on its tracks.
pub proof fn matroska_statistics_count_the_tracks(state: MkvState, bytes: nat)
    requires
        state.is_sound(),
    ensures
        state.stats(bytes).video_frames == state.queue.video.len(),
        state.stats(bytes).audio_frames == state.queue.audio.len(),
        state.stats(bytes).subtitle_frames == state.queue.subtitles.len(),
{
}

/// The time of a count of ticks is the count divided by the ticks in a second.
pub proof fn track_times_are_quotients(ticks: i64, timescale: u32)
    ensures
        timescale > 0 ==> mkv::track_time(ticks, timescale) == Seconds::of_ratio(
            ticks as int,
            timescale as nat,
        ),
        timescale == 0 ==> mkv::track_time(ticks, timescale) == Seconds::of_ratio(ticks as int, 1),
{
}

/// Packets that an Ogg muxer takes go to the end, as they are, and their time
/// is counted in 1/48000 s; what it refuses changes nothing.
pub proof fn ogg_packets_are_queued(state: OggState, pts: Seconds, data: Seq<u8>)
    requires
        state.front.audio_frames < u64::MAX,
    ensures
        ({
            let (result, next) = state.after_audio(pts, data);
            &&& result is Ok ==> {
                &&& next.queue.packets == state.queue.packets.push(data)
                &&& next.queue.last_pts == Some(pts.in_ticks_at(48_000) as u64)
                &&& next.front.audio_frames == state.front.audio_frames + 1
                &&& next.front.last_audio_pts == Some(pts)
                &&& next.queue.track == state.queue.track
                &&& next.metadata == state.metadata
            }
            &&& result is Err ==> next == state
            &&& state.front.finished ==> result == Err::<(), MuxerError>(
                MuxerError::AlreadyFinished,
            )
        }),
{
}

/// Frames that a FLAC muxer takes go to the end, as they are; what it refuses
/// changes nothing.
pub proof fn flac_frames_are_queued(state: FlacState, pts: Seconds, data: Seq<u8>)
    requires
        state.front.audio_frames < u64::MAX,
    ensures
        ({
            let (result, next) = state.after_audio(pts, data);
            &&& result is Ok ==> {
                &&& next.queue.frames == state.queue.frames.push(data)
                &&& next.queue.end is Some
                &&& next.front.audio_frames == state.front.audio_frames + 1
                &&& next.front.last_audio_pts == Some(pts)
                &&& next.queue.track == state.queue.track
                &&& next.metadata == state.metadata
            }
            &&& result is Err ==> next == state
            &&& state.front.finished ==> result == Err::<(), MuxerError>(
                MuxerError::AlreadyFinished,
            )
        }),
{
}

/// Samples of audio files need a duration and may be as long as is allowed.
pub proof fn audio_file_samples_need_a_duration(front: Front, timing: SampleTime, len: nat)
    ensures
        audio::sample_fault(front, timing, len) is None <==> timing.duration > 0 && len
            <= front.limits.max_sample_size,
        timing.duration == 0 ==> audio::sample_fault(front, timing, len) == Some(
            MuxerError::ZeroDuration,
        ),
{
}

/// Statistics of audio files: no video, no subtitles, the packets or frames
/// that are there, and the bytes of the file on top of those before.
pub proof fn audio_file_statistics(ogg: OggState, flac: FlacState, bytes: int)
    requires
        0 <= bytes,
        ogg.queue.packets.len() <= u64::MAX,
        flac.queue.frames.len() <= u64::MAX,
        ogg.queue.bytes_written + bytes <= u64::MAX,
        flac.queue.bytes_written + bytes <= u64::MAX,
    ensures
        ogg.stats(bytes).video_frames == 0 && ogg.stats(bytes).subtitle_frames == 0,
        ogg.stats(bytes).audio_frames == ogg.queue.packets.len(),
        ogg.stats(bytes).bytes_written == ogg.queue.bytes_written + bytes,
        flac.stats(bytes).video_frames == 0 && flac.stats(bytes).subtitle_frames == 0,
        flac.stats(bytes).audio_frames == flac.queue.frames.len(),
        flac.stats(bytes).bytes_written == flac.queue.bytes_written + bytes,
        flac.queue.end matches Some(end) ==> (flac.front.audio_track matches Some(track)
            ==> flac.stats(bytes).duration_secs == Seconds::of_ratio(
            end as int,
            track.sample_rate as nat,
        )),
{
}

/// An audio frame whose time is in order, but which its codec cannot read, is
/// refused, not queued and not counted; the frame before it lasts until then.
pub proof fn unreadable_audio_frames_leave_their_time(
    state: MkvState,
    pts: Seconds,
    data: Seq<u8>,
    raw: Option<Seq<u8>>,
)
    requires
        state.queue.is_sound(),
        !state.front.finished,
        state.front.audio_fault(pts, data.len()) is None,
        0 <= pts.in_ticks() <= u64::MAX / 1000,
        state.queue.audio_time_fault(pts.in_ticks() as u64) is None,
        state.queue.audio_data_fault(data, raw) is Some,
    ensures
        ({
            let n = state.queue.audio.len() as int;
            let (result, after) = state.after_audio(pts, data, raw);
            &&& result is Err
            &&& after.front == state.front
            &&& after.queue.audio.len() == n
            &&& after.queue.video == state.queue.video
            &&& after.queue.subtitles == state.queue.subtitles
            &&& after.container == state.container && after.metadata == state.metadata
            &&& n > 0 && pts.in_ticks() / 90 > state.queue.audio[n - 1].dts_ms
                ==> after.queue.audio[n - 1].duration_ms == Some(
                (pts.in_ticks() / 90 - state.queue.audio[n - 1].dts_ms) as u64,
            )
        }),
{
    mkv_laws::refused_audio_frames_leave_their_time(state.queue, pts.in_ticks() as u64);
}

/// A muxer that is finished a second time answers so and stays as it is. A file
/// that cannot be written closes the writer; one that can be ends the muxer, and
/// its bytes count.
pub proof fn matroska_muxers_finish_once(state: MkvState)
    ensures
        state.front.finished ==> state.output() == Err::<Seq<u8>, MuxerError>(
            MuxerError::AlreadyFinished,
        ) && state.after_finish() == state,
        !state.front.finished ==> {
            let after = state.after_finish();
            &&& after.queue.finalized
            &&& after.front.finished <==> state.output() is Ok
            &&& state.output() is Err ==> after.queue.bytes_written == state.queue.bytes_written
            &&& state.output() matches Ok(bytes) ==> (state.queue.bytes_written + bytes.len()
                <= u64::MAX ==> after.queue.bytes_written == state.queue.bytes_written
                + bytes.len())
            &&& after.queue.video == state.queue.video && after.queue.audio == state.queue.audio
                && after.queue.subtitles == state.queue.subtitles
            &&& after.front.video_frames == state.front.video_frames && after.front.audio_frames
                == state.front.audio_frames && after.front.subtitle_frames
                == state.front.subtitle_frames
        },
{
}

/// The duration in the statistics of a Matroska file: from zero to the later end
/// of its video and audio, where the last sample lasts as long as the one before
/// it.
pub proof fn matroska_statistics_reach_to_the_later_end(state: MkvState, bytes: nat)
    requires
        state.queue.is_sound(),
    ensures
        ({
            let v = state.queue.video.last().dts_ms + match state.queue.video_delta {
                Some(delta) => delta as int,
                None => 0,
            };
            let a = state.queue.audio.last().dts_ms + match state.queue.audio_delta {
                Some(delta) => delta as int,
                None => 0,
            };
            let has_video = state.queue.video.len() > 0;
            let has_audio = state.queue.audio.len() > 0;
            let time = state.stats(bytes).duration_secs;
            &&& !has_video && !has_audio ==> time == Seconds::of_ratio(0, 90_000)
            &&& has_video && v * 90_000 <= u64::MAX && (!has_audio || a <= v) ==> time
                == Seconds::of_ratio(90 * v, 90_000)
            &&& has_audio && a * 90_000 <= u64::MAX && (!has_video || v <= a) ==> time
                == Seconds::of_ratio(90 * a, 90_000)
        }),
{
}

/// A subtitle that is too long is told so. Behind the end of a stream every
/// other one is answered that the muxer is finished.
pub proof fn finished_streams_take_no_subtitles(
    state: StreamingState,
    write: SubtitleWrite,
    prepared: Result<(Seq<u8>, u32), SubtitleRefusal>,
)
    requires
        state.stream.finished,
    ensures
        state.subtitle_place(write, prepared) == Err::<StreamEntry, MuxerError>(
            match prepared {
                Err(SubtitleRefusal::TooLarge(len)) => MuxerError::SubtitleTooLarge(len),
                _ => MuxerError::AlreadyFinished,
            },
        ),
{
}

} // verus!
