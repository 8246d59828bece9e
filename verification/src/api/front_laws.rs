//! What a muxer takes and what becomes of the times that it takes.

use vstd::prelude::*;
use crate::api::error::MuxerError;
use crate::api::front::{self, Front, SampleTicks};
use crate::api::types::VideoCodec;
use crate::codec::common;
use crate::codec::vp9;
use crate::seconds::Seconds;
use crate::time::{self, SampleTime};

verus! {

/// Ticks of a track become ticks of 1/90000 s: no further from the exact time
/// than half of one, halves up. A track that counts in 1/90000 s keeps its
/// counts.
pub proof fn media_ticks_are_nearest(value: i64, timescale: u32)
    requires
        timescale > 0,
    ensures
        front::media_ticks(value, timescale) matches Ok(ticks) ==> -timescale < 2 * (ticks
            * timescale - value * 90_000) <= timescale,
        timescale == 90_000 ==> front::media_ticks(value, timescale) == Ok::<i64, MuxerError>(value),
        front::media_ticks(value, timescale) is Err ==> front::media_ticks(value, timescale)
            == Err::<i64, MuxerError>(MuxerError::TimestampOverflow),
        -0x4000_0000_0000 <= value <= 0x4000_0000_0000 ==> front::media_ticks(value, timescale)
            is Ok,
{
    let v = value as int;
    let t = timescale as int;
    time::halves_are_rescaled_up(v, t, 90_000);
    if timescale == 90_000 {
        time::rescaled_to_same_scale(v, 90_000);
    }
    let r = time::rescaled(v, t, 90_000);
    if -0x4000_0000_0000 <= value <= 0x4000_0000_0000 {
        assert(i64::MIN <= r <= i64::MAX) by (nonlinear_arith)
            requires
                -t < 2 * (r * t - v * 90_000) <= t,
                -0x4000_0000_0000 <= v <= 0x4000_0000_0000,
                t >= 1,
        ;
    }
}

/// A duration is taken like a time, and refused where nothing is left of it.
pub proof fn media_durations_are_nearest(duration: u32, timescale: u32)
    requires
        timescale > 0,
    ensures
        front::media_duration(duration, timescale) matches Ok(ticks) ==> ticks > 0 && -timescale < 2
            * (ticks * timescale - duration * 90_000) <= timescale,
        timescale == 90_000 && duration > 0 ==> front::media_duration(duration, timescale) == Ok::<
            u32,
            MuxerError,
        >(duration),
        2 * duration * 90_000 < timescale ==> front::media_duration(duration, timescale) == Err::<
            u32,
            MuxerError,
        >(MuxerError::ZeroDuration),
{
    media_ticks_are_nearest(duration as i64, timescale);
    let t = timescale as int;
    if 2 * duration * 90_000 < timescale {
        let r = front::media_ticks(duration as i64, timescale)->Ok_0 as int;
        assert(r <= 0) by (nonlinear_arith)
            requires
                2 * (r * t - duration * 90_000) <= t,
                2 * duration * 90_000 < t,
                t > 0,
        ;
    }
}

/// A video sample is taken if and only if it has bytes, no more than are
/// allowed, a duration, times that are not negative and an offset that fits 32
/// bits, and is decoded behind the one before it. It keeps its times and its
/// duration.
pub proof fn video_samples_keep_their_ticks(front: Front, timing: SampleTime, len: nat)
    requires
        front.is_sound(),
    ensures
        front.video_sample(timing, len) is Ok <==> {
            &&& 0 < len <= front.limits.max_sample_size
            &&& timing.duration > 0
            &&& timing.pts >= 0 && timing.dts >= 0
            &&& -0x8000_0000 <= timing.pts - timing.dts <= 0x7FFF_FFFF
            &&& front.last_video_dts matches Some(prev) ==> timing.dts > prev.in_ticks()
        },
        front.video_sample(timing, len) matches Ok(ticks) ==> ticks.pts == timing.pts && ticks.dts
            == timing.dts && ticks.duration == timing.duration,
{
    media_ticks_are_nearest(timing.pts, 90_000);
    media_ticks_are_nearest(timing.dts, 90_000);
    media_durations_are_nearest(timing.duration, 90_000);
    time::offsets_lead_to_the_presentation_time(timing);
}

/// An audio sample is heard at the tick nearest to its time, and decoded then
/// too.
pub proof fn audio_samples_keep_their_ticks(front: Front, timing: SampleTime, len: nat)
    requires
        front.audio_timescale() > 0,
    ensures
        front.audio_sample(timing, len) matches Ok(ticks) ==> {
            &&& ticks.dts == ticks.pts
            &&& -front.audio_timescale() < 2 * (ticks.pts * front.audio_timescale() - timing.pts
                * 90_000) <= front.audio_timescale()
            &&& ticks.duration > 0
            &&& -front.audio_timescale() < 2 * (ticks.duration * front.audio_timescale()
                - timing.duration * 90_000) <= front.audio_timescale()
            &&& front.audio_track is Some
            &&& 0 < len <= front.limits.max_sample_size
            &&& timing.pts >= 0 && timing.duration > 0
        },
        front.audio_timescale() == 90_000 && front.audio_track is Some && 0 < len
            <= front.limits.max_sample_size && timing.pts >= 0 && timing.duration > 0
            ==> front.audio_sample(timing, len) == Ok::<SampleTicks, MuxerError>(
            SampleTicks {
                pts: timing.pts as u64,
                dts: timing.pts as u64,
                duration: timing.duration,
            },
        ),
{
    let t = front.audio_timescale();
    media_ticks_are_nearest(timing.pts, t);
    media_durations_are_nearest(timing.duration, t);
    if front.audio_sample(timing, len) is Ok {
        let r = front::media_ticks(timing.pts, t)->Ok_0;
        lemma_not_below(r as int, timing.pts as int, t as int);
    }
}

proof fn lemma_not_below(r: int, v: int, t: int)
    requires
        t > 0,
        v >= 0,
        -t < 2 * (r * t - v * 90_000),
    ensures
        r >= 0,
{
    assert(r >= 0) by (nonlinear_arith)
        requires
            t > 0,
            v >= 0,
            -t < 2 * (r * t - v * 90_000),
    ;
}

/// A cue appears at the tick nearest to its start and stays for the nearest
/// number of ticks.
pub proof fn cues_keep_their_ticks(front: Front, start: i64, duration: u32)
    requires
        front.subtitle matches Some(track) && track.timescale > 0,
    ensures
        front.cue(start, duration) matches Ok(ticks) ==> {
            let scale = front.subtitle->0.timescale;
            &&& ticks.dts == ticks.pts
            &&& -scale < 2 * (ticks.pts * scale - start * 90_000) <= scale
            &&& ticks.duration > 0
            &&& -scale < 2 * (ticks.duration * scale - duration * 90_000) <= scale
        },
        front.subtitle->0.timescale == 90_000 && start >= 0 && duration > 0 ==> front.cue(
            start,
            duration,
        ) == Ok::<SampleTicks, MuxerError>(
            SampleTicks { pts: start as u64, dts: start as u64, duration },
        ),
        front.subtitle->0.timescale == 90_000 && start < 0 ==> front.cue(start, duration) == Err::<
            SampleTicks,
            MuxerError,
        >(MuxerError::NegativeSubtitleDts { dts: start }),
{
    let scale = front.subtitle->0.timescale;
    media_ticks_are_nearest(start, scale);
    media_ticks_are_nearest(duration as i64, scale);
    media_durations_are_nearest(duration, scale);
}

/// How long a subtitle stays: the nearest number of ticks, at least one and no
/// more than fits 32 bits.
pub proof fn subtitles_stay_at_least_a_tick(duration: Seconds)
    ensures
        1 <= front::subtitle_ticks(duration) <= 0xFFFF_FFFF,
        1 <= duration.in_ticks() <= 0xFFFF_FFFF ==> front::subtitle_ticks(duration)
            == duration.in_ticks(),
        duration.in_ticks() <= 1 ==> front::subtitle_ticks(duration) == 1,
        duration.in_ticks() > 0xFFFF_FFFF ==> front::subtitle_ticks(duration) == 0xFFFF_FFFF,
{
}

/// Video frames are taken if and only if they have bytes and a time that is
/// finite, not negative and later than that of the frame before.
pub proof fn video_frames_are_taken_when_they_advance(front: Front, pts: Seconds, len: nat)
    ensures
        front.video_fault(pts, len) is None <==> len > 0 && pts.finite() && !pts.negative() && (
        front.last_video_pts matches Some(prev) ==> pts.magnitude() > prev.magnitude()),
        len == 0 ==> front.video_fault(pts, len) == Some(
            MuxerError::EmptyVideoFrame { frame_index: front.video_frames },
        ),
        len > 0 && !pts.finite() ==> front.video_fault(pts, len) == Some(
            MuxerError::InvalidVideoPts { pts, frame_index: front.video_frames },
        ),
        len > 0 && pts.finite() && pts.negative() ==> front.video_fault(pts, len) == Some(
            MuxerError::NegativeVideoPts { pts, frame_index: front.video_frames },
        ),
        front.video_fault(pts, len) is Some && len > 0 && pts.finite() && !pts.negative()
            ==> front.video_fault(pts, len) == Some(
            MuxerError::NonIncreasingVideoPts {
                prev_pts: front.last_video_pts,
                curr_pts: Some(pts),
                frame_index: front.video_frames,
            },
        ),
{
}

/// Frames with decode times are taken if and only if they have bytes and two
/// times that are finite and not negative, and are decoded later than the one
/// before. Their presentation times may go back.
pub proof fn reordered_frames_are_taken_when_decoding_advances(
    front: Front,
    pts: Seconds,
    dts: Seconds,
    len: nat,
)
    ensures
        front.video_dts_fault(pts, dts, len) is None <==> len > 0 && pts.finite() && !pts.negative()
            && dts.finite() && !dts.negative() && (front.last_video_dts matches Some(prev)
            ==> dts.magnitude() > prev.magnitude()),
        len == 0 ==> front.video_dts_fault(pts, dts, len) == Some(
            MuxerError::EmptyVideoFrame { frame_index: front.video_frames },
        ),
        len > 0 && pts.finite() && !pts.negative() && !dts.finite() ==> front.video_dts_fault(
            pts,
            dts,
            len,
        ) == Some(MuxerError::InvalidVideoDts { dts, frame_index: front.video_frames }),
        len > 0 && pts.finite() && !pts.negative() && dts.finite() && dts.negative()
            ==> front.video_dts_fault(pts, dts, len) == Some(
            MuxerError::NegativeVideoDts { dts, frame_index: front.video_frames },
        ),
        len > 0 && pts.finite() && !pts.negative() && dts.finite() && !dts.negative()
            && front.video_dts_fault(pts, dts, len) is Some ==> front.video_dts_fault(pts, dts, len)
            == Some(
            MuxerError::NonIncreasingDts {
                prev_dts: front.last_video_dts->0,
                curr_dts: dts,
                frame_index: front.video_frames,
            },
        ),
{
}

/// Audio frames are taken if and only if there is an audio track, they have
/// bytes and a time that is finite, not negative and no earlier than that of
/// the frame before.
pub proof fn audio_frames_are_taken_unless_they_go_back(front: Front, pts: Seconds, len: nat)
    ensures
        front.audio_fault(pts, len) is None <==> front.audio_track is Some && len > 0
            && pts.finite() && !pts.negative() && (front.last_audio_pts matches Some(prev)
            ==> pts.magnitude() >= prev.magnitude()),
        front.audio_track is None ==> front.audio_fault(pts, len) == Some(
            MuxerError::AudioNotConfigured,
        ),
        front.audio_track is Some && pts.finite() && !pts.negative() && len == 0
            ==> front.audio_fault(pts, len) == Some(
            MuxerError::EmptyAudioFrame { frame_index: front.audio_frames },
        ),
        front.audio_track is Some && pts.finite() && !pts.negative() && len > 0
            && front.audio_fault(pts, len) is Some ==> front.audio_fault(pts, len) == Some(
            MuxerError::DecreasingAudioPts {
                prev_pts: front.last_audio_pts->0,
                curr_pts: pts,
                frame_index: front.audio_frames,
            },
        ),
{
}

/// Subtitles are taken if and only if there is a subtitle track, they have text,
/// a duration that is finite and above zero, and a time that is finite, not
/// negative and no earlier than that of the one before.
pub proof fn subtitles_are_taken_unless_they_go_back(
    front: Front,
    pts: Seconds,
    duration: Seconds,
    len: nat,
)
    ensures
        front.subtitle_fault(pts, duration, len) is None <==> front.subtitle is Some && len > 0
            && pts.finite() && !pts.negative() && duration.finite() && !duration.negative()
            && duration.magnitude() > 0 && (front.last_subtitle_pts matches Some(prev)
            ==> pts.magnitude() >= prev.magnitude()),
        front.subtitle is None ==> front.subtitle_fault(pts, duration, len) == Some(
            MuxerError::SubtitleNotConfigured,
        ),
        front.subtitle is Some && pts.finite() && !pts.negative() && (!duration.finite()
            || duration.negative() || duration.magnitude() == 0) ==> front.subtitle_fault(
            pts,
            duration,
            len,
        ) == Some(
            MuxerError::InvalidSubtitleDuration {
                duration_secs: duration,
                frame_index: front.subtitle_frames,
            },
        ),
{
}

/// Cues are taken if and only if there is a subtitle track, they have text, no
/// longer than is allowed, and a duration.
pub proof fn cues_are_taken_when_they_fit(front: Front, duration: u32, len: nat)
    ensures
        front.cue_fault(duration, len) is None <==> front.subtitle is Some && 0 < len
            <= front.limits.max_subtitle_size && duration > 0,
        front.subtitle is Some && len > front.limits.max_subtitle_size && duration > 0
            ==> front.cue_fault(duration, len) == Some(MuxerError::SubtitleTooLarge(len as usize)),
{
}

/// Each sample taken counts once, on its own track alone, and its time is the
/// last.
pub proof fn samples_are_counted_on_their_track(
    front: Front,
    pts: Seconds,
    dts: Option<Seconds>,
)
    requires
        front.video_frames < u64::MAX,
        front.audio_frames < u64::MAX,
        front.subtitle_frames < u64::MAX,
    ensures
        ({
            let next = front.with_video(pts, dts);
            &&& next.video_frames == front.video_frames + 1
            &&& next.last_video_pts == Some(pts)
            &&& dts is Some ==> next.last_video_dts == dts
            &&& dts is None ==> next.last_video_dts == front.last_video_dts
            &&& next.audio_frames == front.audio_frames && next.subtitle_frames
                == front.subtitle_frames
            &&& next.last_audio_pts == front.last_audio_pts && next.last_subtitle_pts
                == front.last_subtitle_pts
        }),
        ({
            let next = front.with_audio(pts);
            &&& next.audio_frames == front.audio_frames + 1
            &&& next.last_audio_pts == Some(pts)
            &&& next.video_frames == front.video_frames && next.subtitle_frames
                == front.subtitle_frames
            &&& next.last_video_pts == front.last_video_pts && next.last_video_dts
                == front.last_video_dts && next.last_subtitle_pts == front.last_subtitle_pts
        }),
        ({
            let next = front.with_subtitle(pts);
            &&& next.subtitle_frames == front.subtitle_frames + 1
            &&& next.last_subtitle_pts == Some(pts)
            &&& next.video_frames == front.video_frames && next.audio_frames == front.audio_frames
            &&& next.last_video_pts == front.last_video_pts && next.last_video_dts
                == front.last_video_dts && next.last_audio_pts == front.last_audio_pts
        }),
{
}

/// Which frames are keyframes: with H.264 and H.265 those with an IDR unit
/// behind a start code, with VP9 those that say so, with AV1 the first.
pub proof fn keyframes_are_told_by_their_bytes(data: Seq<u8>, frame_index: u64)
    ensures
        front::is_keyframe(VideoCodec::H264, data, frame_index) <==> exists|h: int|
            3 <= h < data.len() && data[h - 3] == 0 && data[h - 2] == 0 && data[h - 1] == 1
                && #[trigger] data[h] % 32 == 5,
        front::is_keyframe(VideoCodec::H265, data, frame_index) <==> exists|h: int|
            3 <= h < data.len() && data[h - 3] == 0 && data[h - 2] == 0 && data[h - 1] == 1 && 19
                <= #[trigger] data[h] / 2 % 64 <= 21,
        front::is_keyframe(VideoCodec::Av1, data, frame_index) <==> frame_index == 0,
        front::is_keyframe(VideoCodec::Vp9, data, frame_index) <==> vp9::keyframe_of(data) == Ok::<
            bool,
            vp9::Vp9Error,
        >(true),
{
    common::idr_units_are_behind_start_codes(data);
}

} // verus!
