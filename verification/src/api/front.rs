//! The rules that all muxers apply to the times and sizes of samples, before
//! a container sees them.

use vstd::prelude::*;
use crate::api::{
    AudioTrackConfig, MuxerError, SubtitleCodec, VideoCodec, VideoTrackConfig,
};
use crate::codec::common::{self, contains_idr};
use crate::codec::vp9::{self, is_vp9_keyframe};
use crate::muxer::mp4::MEDIA_TIMESCALE;
use crate::seconds::{self, Seconds, TICKS_PER_SECOND};
use crate::time::{self, rescale, Limits, SampleTime, Timescale};

verus! {

/// What the rules need of a subtitle track.
#[derive(Debug, Clone, Copy, PartialEq, Eq, Structural)]
pub struct SubtitleTiming {
    pub codec: SubtitleCodec,
    /// Ticks per second.
    pub timescale: u32,
}

/// Times of a sample in ticks of the media clock.
#[derive(Debug, Clone, Copy, PartialEq, Eq, Structural)]
pub struct SampleTicks {
    pub pts: u64,
    pub dts: u64,
    pub duration: u32,
}

/// The tracks of a muxer, and the times and numbers of their samples so far.
#[derive(Debug, Clone, Copy)]
pub struct Front {
    pub video_track: Option<VideoTrackConfig>,
    pub audio_track: Option<AudioTrackConfig>,
    pub subtitle: Option<SubtitleTiming>,
    pub limits: Limits,
    pub last_video_pts: Option<Seconds>,
    pub last_video_dts: Option<Seconds>,
    pub last_audio_pts: Option<Seconds>,
    pub last_subtitle_pts: Option<Seconds>,
    pub video_frames: u64,
    pub audio_frames: u64,
    pub subtitle_frames: u64,
    /// When the next frame of a video without times is shown.
    pub video_clock: Seconds,
    /// When the next frame of audio without times is heard.
    pub audio_clock: Seconds,
    pub finished: bool,
}

/// Ticks of a track in ticks of the media clock. A timescale of zero counts
/// as one.
pub open spec fn media_ticks(value: i64, timescale: u32) -> Result<i64, MuxerError> {
    let exact = time::rescaled(
        value as int,
        if timescale == 0 {
            1
        } else {
            timescale as int
        },
        MEDIA_TIMESCALE as int,
    );
    if i64::MIN <= exact <= i64::MAX {
        Ok(exact as i64)
    } else {
        Err(MuxerError::TimestampOverflow)
    }
}

/// A duration in ticks of the media clock; one that vanishes or does not fit
/// 32 bits is refused.
pub open spec fn media_duration(duration: u32, timescale: u32) -> Result<u32, MuxerError> {
    match media_ticks(duration as i64, timescale) {
        Err(error) => Err(error),
        Ok(ticks) => if 0 < ticks <= u32::MAX {
            Ok(ticks as u32)
        } else {
            Err(MuxerError::ZeroDuration)
        },
    }
}

/// A duration in ticks of the media clock, at least one tick.
pub open spec fn subtitle_ticks(duration: Seconds) -> u32 {
    if duration.in_ticks() < 1 {
        1
    } else if duration.in_ticks() > u32::MAX {
        u32::MAX
    } else {
        duration.in_ticks() as u32
    }
}

/// A duration in ticks of the media clock, at least one tick.
pub fn to_subtitle_ticks(duration: Seconds) -> (ticks: u32)
    requires
        duration.finite(),
        !duration.negative(),
    ensures
        ticks == subtitle_ticks(duration),
{
    let exact: u64 = duration.ticks();
    if exact < 1 {
        1
    } else if exact > u32::MAX as u64 {
        u32::MAX
    } else {
        exact as u32
    }
}

/// Whether a frame can start decoding. That of AV1 is told by its number.
pub open spec fn is_keyframe(codec: VideoCodec, data: Seq<u8>, frame_index: u64) -> bool {
    match codec {
        VideoCodec::H264 => common::has_idr(data, false),
        VideoCodec::H265 => common::has_idr(data, true),
        VideoCodec::Av1 => frame_index == 0,
        VideoCodec::Vp9 => vp9::keyframe_of(data) matches Ok(yes) && yes,
    }
}

impl Front {
    /// What is wrong with the time of a video frame, if anything.
    pub open spec fn video_fault(self, pts: Seconds, len: nat) -> Option<MuxerError> {
        let frame_index = self.video_frames;
        if len == 0 {
            Some(MuxerError::EmptyVideoFrame { frame_index })
        } else if !pts.finite() {
            Some(MuxerError::InvalidVideoPts { pts, frame_index })
        } else if pts.negative() {
            Some(MuxerError::NegativeVideoPts { pts, frame_index })
        } else if self.last_video_pts matches Some(prev) && pts.magnitude() <= prev.magnitude() {
            Some(
                MuxerError::NonIncreasingVideoPts {
                    prev_pts: self.last_video_pts,
                    curr_pts: Some(pts),
                    frame_index,
                },
            )
        } else {
            None
        }
    }

    /// What is wrong with the times of a video frame in decode order, if
    /// anything.
    pub open spec fn video_dts_fault(self, pts: Seconds, dts: Seconds, len: nat) -> Option<
        MuxerError,
    > {
        let frame_index = self.video_frames;
        if len == 0 {
            Some(MuxerError::EmptyVideoFrame { frame_index })
        } else if !pts.finite() {
            Some(MuxerError::InvalidVideoPts { pts, frame_index })
        } else if pts.negative() {
            Some(MuxerError::NegativeVideoPts { pts, frame_index })
        } else if !dts.finite() {
            Some(MuxerError::InvalidVideoDts { dts, frame_index })
        } else if dts.negative() {
            Some(MuxerError::NegativeVideoDts { dts, frame_index })
        } else if self.last_video_dts matches Some(prev) && dts.magnitude() <= prev.magnitude() {
            Some(
                MuxerError::NonIncreasingDts {
                    prev_dts: self.last_video_dts->0,
                    curr_dts: dts,
                    frame_index,
                },
            )
        } else {
            None
        }
    }

    /// What is wrong with the time of an audio frame, if anything.
    pub open spec fn audio_fault(self, pts: Seconds, len: nat) -> Option<MuxerError> {
        let frame_index = self.audio_frames;
        if self.audio_track is None {
            Some(MuxerError::AudioNotConfigured)
        } else if !pts.finite() {
            Some(MuxerError::InvalidAudioPts { pts, frame_index })
        } else if pts.negative() {
            Some(MuxerError::NegativeAudioPts { pts, frame_index })
        } else if len == 0 {
            Some(MuxerError::EmptyAudioFrame { frame_index })
        } else if self.last_audio_pts matches Some(prev) && pts.magnitude() < prev.magnitude() {
            Some(
                MuxerError::DecreasingAudioPts {
                    prev_pts: self.last_audio_pts->0,
                    curr_pts: pts,
                    frame_index,
                },
            )
        } else {
            None
        }
    }

    /// What is wrong with the times of a subtitle, if anything.
    pub open spec fn subtitle_fault(self, pts: Seconds, duration: Seconds, len: nat) -> Option<
        MuxerError,
    > {
        let frame_index = self.subtitle_frames;
        if self.subtitle is None {
            Some(MuxerError::SubtitleNotConfigured)
        } else if !pts.finite() {
            Some(MuxerError::InvalidSubtitlePts { pts, frame_index })
        } else if pts.negative() {
            Some(MuxerError::NegativeSubtitlePts { pts, frame_index })
        } else if !duration.finite() || duration.negative() || duration.magnitude() == 0 {
            Some(MuxerError::InvalidSubtitleDuration { duration_secs: duration, frame_index })
        } else if len == 0 {
            Some(MuxerError::EmptySubtitleSample { frame_index })
        } else if self.last_subtitle_pts matches Some(prev) && pts.magnitude()
            < prev.magnitude() {
            Some(
                MuxerError::DecreasingSubtitlePts {
                    prev_pts: self.last_subtitle_pts->0,
                    curr_pts: pts,
                    frame_index,
                },
            )
        } else {
            None
        }
    }

    /// Ticks per second of the video track.
    pub open spec fn video_timescale(self) -> u32 {
        match self.video_track {
            Some(track) => track.timescale,
            None => 90_000,
        }
    }

    /// Ticks per second of the audio track.
    pub open spec fn audio_timescale(self) -> u32 {
        match self.audio_track {
            Some(track) => track.timescale,
            None => 48_000,
        }
    }

    /// Ticks per second of the subtitle track.
    pub open spec fn subtitle_timescale(self) -> u32 {
        match self.subtitle {
            Some(track) => track.timescale,
            None => 1_000,
        }
    }

    /// The times of a video sample with whole ticks, or what is wrong with
    /// them. Decode times strictly increase on the media clock.
    pub open spec fn video_sample(self, timing: SampleTime, len: nat) -> Result<
        SampleTicks,
        MuxerError,
    > {
        let scale = self.video_timescale();
        if len == 0 {
            Err(MuxerError::EmptyVideoFrame { frame_index: self.video_frames })
        } else if timing.duration == 0 {
            Err(MuxerError::ZeroDuration)
        } else if timing.pts < 0 || timing.dts < 0 {
            Err(
                MuxerError::NegativeVideoDts {
                    dts: Seconds::of_whole(timing.dts as int),
                    frame_index: self.video_frames,
                },
            )
        } else if timing.offset() is Err {
            Err(timing.offset()->Err_0)
        } else if len > self.limits.max_sample_size {
            Err(MuxerError::ResourceLimitExceeded { what: "video sample" })
        } else {
            match (
                media_ticks(timing.pts, scale),
                media_ticks(timing.dts, scale),
                media_duration(timing.duration, scale),
            ) {
                (Err(error), _, _) => Err(error),
                (_, Err(error), _) => Err(error),
                (_, _, Err(error)) => Err(error),
                (Ok(pts), Ok(dts), Ok(duration)) => if self.last_video_dts matches Some(prev)
                    && dts <= prev.in_ticks() {
                    Err(
                        MuxerError::NonIncreasingIntDts {
                            previous: self.last_video_dts->0.in_ticks() as i64,
                            current: dts,
                        },
                    )
                } else {
                    Ok(SampleTicks { pts: pts as u64, dts: dts as u64, duration })
                },
            }
        }
    }

    /// The times of an audio sample with whole ticks, or what is wrong with
    /// them.
    pub open spec fn audio_sample(self, timing: SampleTime, len: nat) -> Result<
        SampleTicks,
        MuxerError,
    > {
        let scale = self.audio_timescale();
        if self.audio_track is None {
            Err(MuxerError::AudioNotConfigured)
        } else if len == 0 {
            Err(MuxerError::EmptyAudioFrame { frame_index: self.audio_frames })
        } else if timing.duration == 0 {
            Err(MuxerError::ZeroDuration)
        } else if timing.pts < 0 {
            Err(
                MuxerError::NegativeAudioPts {
                    pts: Seconds::of_whole(timing.pts as int),
                    frame_index: self.audio_frames,
                },
            )
        } else if len > self.limits.max_sample_size {
            Err(MuxerError::ResourceLimitExceeded { what: "audio sample" })
        } else {
            match (media_ticks(timing.pts, scale), media_duration(timing.duration, scale)) {
                (Err(error), _) => Err(error),
                (_, Err(error)) => Err(error),
                (Ok(pts), Ok(duration)) => Ok(
                    SampleTicks { pts: pts as u64, dts: pts as u64, duration },
                ),
            }
        }
    }

    /// What is wrong with the size of a subtitle cue, if anything.
    pub open spec fn cue_fault(self, duration: u32, len: nat) -> Option<MuxerError> {
        if self.subtitle is None {
            Some(MuxerError::SubtitleNotConfigured)
        } else if len == 0 {
            Some(MuxerError::EmptySubtitleSample { frame_index: self.subtitle_frames })
        } else if duration == 0 {
            Some(MuxerError::ZeroDuration)
        } else if len > self.limits.max_subtitle_size {
            Some(MuxerError::SubtitleTooLarge(len as usize))
        } else {
            None
        }
    }

    /// The times of a subtitle cue with whole ticks, or what is wrong with
    /// them.
    pub open spec fn cue(self, start: i64, duration: u32) -> Result<SampleTicks, MuxerError> {
        let scale = self.subtitle->0.timescale;
        match media_ticks(start, scale) {
            Err(error) => Err(error),
            Ok(pts) => match media_ticks(duration as i64, scale) {
                Err(error) => Err(error),
                Ok(_) => if pts < 0 {
                    Err(MuxerError::NegativeSubtitleDts { dts: pts })
                } else {
                    match media_duration(duration, scale) {
                        Err(error) => Err(error),
                        Ok(duration) => Ok(
                            SampleTicks { pts: pts as u64, dts: pts as u64, duration },
                        ),
                    }
                },
            },
        }
    }

    /// Whether video is timed by the media clock, and the remembered times are
    /// finite and not negative.
    pub open spec fn is_sound(self) -> bool {
        &&& self.video_timescale() == TICKS_PER_SECOND
        &&& self.last_video_dts matches Some(prev) ==> prev.finite() && !prev.negative()
    }

    /// The front after a video frame.
    pub open spec fn with_video(self, pts: Seconds, dts: Option<Seconds>) -> Front {
        Front {
            last_video_pts: Some(pts),
            last_video_dts: if dts is Some {
                dts
            } else {
                self.last_video_dts
            },
            video_frames: (self.video_frames + 1) as u64,
            ..self
        }
    }

    /// The front after an audio frame.
    pub open spec fn with_audio(self, pts: Seconds) -> Front {
        Front {
            last_audio_pts: Some(pts),
            audio_frames: (self.audio_frames + 1) as u64,
            ..self
        }
    }

    /// The front after a subtitle.
    pub open spec fn with_subtitle(self, pts: Seconds) -> Front {
        Front {
            last_subtitle_pts: Some(pts),
            subtitle_frames: (self.subtitle_frames + 1) as u64,
            ..self
        }
    }

    /// Whether the frame behind the last one is a keyframe, as far as its data
    /// tells; without a video track there is none.
    pub open spec fn next_is_keyframe(self, data: Seq<u8>) -> bool {
        match self.video_track {
            Some(track) => is_keyframe(track.codec, data, self.video_frames),
            None => false,
        }
    }
}

/// Whether a frame can start decoding.
pub fn detect_keyframe(codec: VideoCodec, data: &[u8], video_frame_count: u64) -> (yes: bool)
    ensures
        yes == is_keyframe(codec, data@, video_frame_count),
{
    match codec {
        VideoCodec::H264 => contains_idr(data, false),
        VideoCodec::H265 => contains_idr(data, true),
        VideoCodec::Av1 => video_frame_count == 0,
        VideoCodec::Vp9 => match is_vp9_keyframe(data) {
            Ok(yes) => yes,
            Err(_) => false,
        },
    }
}

/// Ticks of a track in ticks of the media clock.
pub fn to_media_ticks(value: i64, timescale: u32) -> (result: Result<i64, MuxerError>)
    ensures
        result == media_ticks(value, timescale),
{
    let from: u32 = if timescale == 0 {
        1
    } else {
        timescale
    };
    rescale(value, Timescale::new(from), Timescale::new(MEDIA_TIMESCALE))
}

/// A duration in ticks of the media clock.
pub fn to_media_duration(duration: u32, timescale: u32) -> (result: Result<u32, MuxerError>)
    ensures
        result == media_duration(duration, timescale),
{
    match to_media_ticks(duration as i64, timescale) {
        Err(error) => Err(error),
        Ok(ticks) => if ticks <= 0 || ticks > u32::MAX as i64 {
            Err(MuxerError::ZeroDuration)
        } else {
            Ok(ticks as u32)
        },
    }
}

/// A rescaled time that is not negative stays so.
proof fn lemma_media_ticks_sign(value: i64, timescale: u32)
    ensures
        value >= 0 ==> (media_ticks(value, timescale) matches Ok(ticks) ==> ticks >= 0),
{
    let from = if timescale == 0 {
        1
    } else {
        timescale as int
    };
    if value >= 0 {
        let numerator = value * MEDIA_TIMESCALE;
        assert(numerator / from >= 0) by (nonlinear_arith)
            requires
                numerator >= 0,
                from > 0,
        ;
    }
}

impl Front {
    /// Rules out a video frame by its time.
    pub fn check_video(&self, pts: Seconds, len: usize) -> (fault: Option<MuxerError>)
        ensures
            fault == self.video_fault(pts, len as nat),
    {
        let frame_index: u64 = self.video_frames;
        if len == 0 {
            return Some(MuxerError::EmptyVideoFrame { frame_index });
        }
        if !pts.is_finite() {
            return Some(MuxerError::InvalidVideoPts { pts, frame_index });
        }
        if pts.is_negative() {
            return Some(MuxerError::NegativeVideoPts { pts, frame_index });
        }
        match self.last_video_pts {
            Some(prev) => if prev.is_before(&pts) {
                None
            } else {
                Some(
                    MuxerError::NonIncreasingVideoPts {
                        prev_pts: self.last_video_pts,
                        curr_pts: Some(pts),
                        frame_index,
                    },
                )
            },
            None => None,
        }
    }

    /// Rules out a video frame in decode order by its times.
    pub fn check_video_dts(&self, pts: Seconds, dts: Seconds, len: usize) -> (fault: Option<
        MuxerError,
    >)
        ensures
            fault == self.video_dts_fault(pts, dts, len as nat),
    {
        let frame_index: u64 = self.video_frames;
        if len == 0 {
            return Some(MuxerError::EmptyVideoFrame { frame_index });
        }
        if !pts.is_finite() {
            return Some(MuxerError::InvalidVideoPts { pts, frame_index });
        }
        if pts.is_negative() {
            return Some(MuxerError::NegativeVideoPts { pts, frame_index });
        }
        if !dts.is_finite() {
            return Some(MuxerError::InvalidVideoDts { dts, frame_index });
        }
        if dts.is_negative() {
            return Some(MuxerError::NegativeVideoDts { dts, frame_index });
        }
        match self.last_video_dts {
            Some(prev) => if prev.is_before(&dts) {
                None
            } else {
                Some(MuxerError::NonIncreasingDts { prev_dts: prev, curr_dts: dts, frame_index })
            },
            None => None,
        }
    }

    /// Rules out an audio frame by its time.
    pub fn check_audio(&self, pts: Seconds, len: usize) -> (fault: Option<MuxerError>)
        ensures
            fault == self.audio_fault(pts, len as nat),
    {
        let frame_index: u64 = self.audio_frames;
        if self.audio_track.is_none() {
            return Some(MuxerError::AudioNotConfigured);
        }
        if !pts.is_finite() {
            return Some(MuxerError::InvalidAudioPts { pts, frame_index });
        }
        if pts.is_negative() {
            return Some(MuxerError::NegativeAudioPts { pts, frame_index });
        }
        if len == 0 {
            return Some(MuxerError::EmptyAudioFrame { frame_index });
        }
        match self.last_audio_pts {
            Some(prev) => if pts.is_before(&prev) {
                Some(MuxerError::DecreasingAudioPts { prev_pts: prev, curr_pts: pts, frame_index })
            } else {
                None
            },
            None => None,
        }
    }

    /// Rules out a subtitle by its times.
    pub fn check_subtitle(&self, pts: Seconds, duration: Seconds, len: usize) -> (fault: Option<
        MuxerError,
    >)
        ensures
            fault == self.subtitle_fault(pts, duration, len as nat),
    {
        let frame_index: u64 = self.subtitle_frames;
        if self.subtitle.is_none() {
            return Some(MuxerError::SubtitleNotConfigured);
        }
        if !pts.is_finite() {
            return Some(MuxerError::InvalidSubtitlePts { pts, frame_index });
        }
        if pts.is_negative() {
            return Some(MuxerError::NegativeSubtitlePts { pts, frame_index });
        }
        let zero = Seconds { bits: 0 };
        if !duration.is_finite() || duration.is_negative() || !zero.is_before(&duration) {
            return Some(
                MuxerError::InvalidSubtitleDuration { duration_secs: duration, frame_index },
            );
        }
        if len == 0 {
            return Some(MuxerError::EmptySubtitleSample { frame_index });
        }
        match self.last_subtitle_pts {
            Some(prev) => if pts.is_before(&prev) {
                Some(
                    MuxerError::DecreasingSubtitlePts {
                        prev_pts: prev,
                        curr_pts: pts,
                        frame_index,
                    },
                )
            } else {
                None
            },
            None => None,
        }
    }

    /// The times of a video sample on the media clock.
    pub fn check_video_sample(&self, timing: SampleTime, len: usize) -> (result: Result<
        SampleTicks,
        MuxerError,
    >)
        requires
            self.is_sound(),
        ensures
            result == self.video_sample(timing, len as nat),
    {
        if len == 0 {
            return Err(MuxerError::EmptyVideoFrame { frame_index: self.video_frames });
        }
        if timing.duration == 0 {
            return Err(MuxerError::ZeroDuration);
        }
        if timing.pts < 0 || timing.dts < 0 {
            return Err(
                MuxerError::NegativeVideoDts {
                    dts: Seconds::from_whole(timing.dts),
                    frame_index: self.video_frames,
                },
            );
        }
        match timing.composition_offset() {
            Ok(_) => {},
            Err(error) => return Err(error),
        }
        if len > self.limits.max_sample_size {
            return Err(MuxerError::ResourceLimitExceeded { what: "video sample" });
        }
        let scale: u32 = match self.video_track {
            Some(track) => track.timescale,
            None => 90_000,
        };
        proof {
            lemma_media_ticks_sign(timing.pts, scale);
            lemma_media_ticks_sign(timing.dts, scale);
        }
        let pts: i64 = match to_media_ticks(timing.pts, scale) {
            Ok(pts) => pts,
            Err(error) => return Err(error),
        };
        let dts: i64 = match to_media_ticks(timing.dts, scale) {
            Ok(dts) => dts,
            Err(error) => return Err(error),
        };
        let duration: u32 = match to_media_duration(timing.duration, scale) {
            Ok(duration) => duration,
            Err(error) => return Err(error),
        };
        match self.last_video_dts {
            Some(prev) => {
                let previous: u64 = prev.ticks();
                if dts as u64 <= previous {
                    return Err(
                        MuxerError::NonIncreasingIntDts {
                            previous: previous as i64,
                            current: dts,
                        },
                    );
                }
            },
            None => {},
        }
        Ok(SampleTicks { pts: pts as u64, dts: dts as u64, duration })
    }

    /// The times of an audio sample on the media clock.
    pub fn check_audio_sample(&self, timing: SampleTime, len: usize) -> (result: Result<
        SampleTicks,
        MuxerError,
    >)
        ensures
            result == self.audio_sample(timing, len as nat),
    {
        let scale: u32 = match self.audio_track {
            Some(track) => track.timescale,
            None => return Err(MuxerError::AudioNotConfigured),
        };
        if len == 0 {
            return Err(MuxerError::EmptyAudioFrame { frame_index: self.audio_frames });
        }
        if timing.duration == 0 {
            return Err(MuxerError::ZeroDuration);
        }
        if timing.pts < 0 {
            return Err(
                MuxerError::NegativeAudioPts {
                    pts: Seconds::from_whole(timing.pts),
                    frame_index: self.audio_frames,
                },
            );
        }
        if len > self.limits.max_sample_size {
            return Err(MuxerError::ResourceLimitExceeded { what: "audio sample" });
        }
        proof {
            lemma_media_ticks_sign(timing.pts, scale);
        }
        let pts: i64 = match to_media_ticks(timing.pts, scale) {
            Ok(pts) => pts,
            Err(error) => return Err(error),
        };
        let duration: u32 = match to_media_duration(timing.duration, scale) {
            Ok(duration) => duration,
            Err(error) => return Err(error),
        };
        Ok(SampleTicks { pts: pts as u64, dts: pts as u64, duration })
    }

    /// Rules out a subtitle cue by its size.
    pub fn check_cue(&self, duration: u32, len: usize) -> (fault: Option<MuxerError>)
        ensures
            fault == self.cue_fault(duration, len as nat),
    {
        if self.subtitle.is_none() {
            return Some(MuxerError::SubtitleNotConfigured);
        }
        if len == 0 {
            return Some(MuxerError::EmptySubtitleSample { frame_index: self.subtitle_frames });
        }
        if duration == 0 {
            return Some(MuxerError::ZeroDuration);
        }
        if len > self.limits.max_subtitle_size {
            return Some(MuxerError::SubtitleTooLarge(len));
        }
        None
    }

    /// The times of a subtitle cue on the media clock.
    pub fn cue_times(&self, start: i64, duration: u32) -> (result: Result<SampleTicks, MuxerError>)
        requires
            self.subtitle is Some,
        ensures
            result == self.cue(start, duration),
    {
        let scale: u32 = self.subtitle.unwrap().timescale;
        let pts: i64 = match to_media_ticks(start, scale) {
            Ok(pts) => pts,
            Err(error) => return Err(error),
        };
        match to_media_ticks(duration as i64, scale) {
            Ok(_) => {},
            Err(error) => return Err(error),
        }
        if pts < 0 {
            return Err(MuxerError::NegativeSubtitleDts { dts: pts });
        }
        let duration: u32 = match to_media_duration(duration, scale) {
            Ok(duration) => duration,
            Err(error) => return Err(error),
        };
        Ok(SampleTicks { pts: pts as u64, dts: pts as u64, duration })
    }

    /// Whether the next frame is a keyframe, as far as its data tells.
    pub fn guess_keyframe(&self, data: &[u8]) -> (yes: bool)
        ensures
            yes == self.next_is_keyframe(data@),
    {
        match self.video_track {
            Some(track) => detect_keyframe(track.codec, data, self.video_frames),
            None => false,
        }
    }
}

/// A sample whose times are accepted has a decode time behind the one before
/// it on the media clock, and a duration.
pub proof fn accepted_samples_advance(front: Front, timing: SampleTime, len: nat)
    requires
        front.video_sample(timing, len) is Ok,
    ensures
        front.last_video_dts matches Some(prev) ==> front.video_sample(timing, len)->Ok_0.dts
            > prev.in_ticks(),
        front.video_sample(timing, len)->Ok_0.duration > 0,
        len <= front.limits.max_sample_size,
{
    lemma_media_ticks_sign(timing.dts, front.video_timescale());
}

/// A sample whose decode time is not behind the one before it is refused, and
/// the error names both times.
pub proof fn decode_times_must_increase(front: Front, previous: i64, timing: SampleTime, len: nat)
    requires
        front.is_sound(),
        0 <= previous < 0x4_0000_0000_0000,
        front.last_video_dts == Some(Seconds::of_ratio(previous as int, TICKS_PER_SECOND as nat)),
        0 < len <= front.limits.max_sample_size,
        timing.duration > 0 && timing.pts >= 0,
        0 <= timing.dts <= previous,
        i32::MIN <= timing.pts - timing.dts <= i32::MAX,
    ensures
        front.video_sample(timing, len) == Err::<SampleTicks, MuxerError>(
            MuxerError::NonIncreasingIntDts { previous, current: timing.dts },
        ),
{
    seconds::ticks_survive_seconds(previous as nat);
    time::rescaled_to_same_scale(timing.pts as int, TICKS_PER_SECOND as int);
    time::rescaled_to_same_scale(timing.dts as int, TICKS_PER_SECOND as int);
    time::rescaled_to_same_scale(timing.duration as int, TICKS_PER_SECOND as int);
}

} // verus!
