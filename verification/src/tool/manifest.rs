//! Muxing by a manifest that gives the times of each sample.

use vstd::prelude::*;
use vstd::string::StringExecFns;
use crate::api::MuxerError;
use crate::time::{self, rescale, SampleTime, Timescale};

verus! {

/// Ticks per second of a video track that says nothing else.
pub const DEFAULT_VIDEO_TIMESCALE: u32 = 90_000;

/// Ticks per second of an audio track that says nothing else.
pub const DEFAULT_AUDIO_TIMESCALE: u32 = 48_000;

/// What is wrong with a manifest.
#[derive(Debug, Clone, Copy, PartialEq, Eq, Structural)]
pub enum ManifestFault {
    ZeroTimescale,
    NoTracks,
    OutputExists,
    ZeroVideoDuration,
    NegativeVideoTime,
    VideoOrder,
    EmptyVideoSample,
    ZeroAudioDuration,
    NegativeAudioTime,
    AudioOrder,
    EmptyAudioSample,
}

impl ManifestFault {
    /// The message text; `path` is that of the sample or the output.
    pub open spec fn text(self, path: Seq<char>) -> Seq<char> {
        match self {
            ManifestFault::ZeroTimescale => "manifest timescale must be non-zero"@,
            ManifestFault::NoTracks => "manifest must contain video and/or audio"@,
            ManifestFault::OutputExists => "output "@ + path
                + " exists (use --overwrite to replace)"@,
            ManifestFault::ZeroVideoDuration => "video sample "@ + path + " has zero duration"@,
            ManifestFault::NegativeVideoTime => "video sample "@ + path
                + " has negative timestamp"@,
            ManifestFault::VideoOrder => "video DTS must strictly increase"@,
            ManifestFault::EmptyVideoSample => "video sample "@ + path + " is empty"@,
            ManifestFault::ZeroAudioDuration => "audio sample "@ + path + " has zero duration"@,
            ManifestFault::NegativeAudioTime => "audio sample "@ + path
                + " has negative timestamp"@,
            ManifestFault::AudioOrder => "audio DTS must not decrease"@,
            ManifestFault::EmptyAudioSample => "audio sample "@ + path + " is empty"@,
        }
    }

    /// The fault as a message.
    pub fn message(&self, path: &str) -> (message: String)
        ensures
            message@ == self.text(path@),
    {
        let (head, tail): (&str, &str) = match *self {
            ManifestFault::ZeroTimescale => return String::from_str(
                "manifest timescale must be non-zero",
            ),
            ManifestFault::NoTracks => return String::from_str(
                "manifest must contain video and/or audio",
            ),
            ManifestFault::VideoOrder => return String::from_str(
                "video DTS must strictly increase",
            ),
            ManifestFault::AudioOrder => return String::from_str("audio DTS must not decrease"),
            ManifestFault::OutputExists => ("output ", " exists (use --overwrite to replace)"),
            ManifestFault::ZeroVideoDuration => ("video sample ", " has zero duration"),
            ManifestFault::NegativeVideoTime => ("video sample ", " has negative timestamp"),
            ManifestFault::EmptyVideoSample => ("video sample ", " is empty"),
            ManifestFault::ZeroAudioDuration => ("audio sample ", " has zero duration"),
            ManifestFault::NegativeAudioTime => ("audio sample ", " has negative timestamp"),
            ManifestFault::EmptyAudioSample => ("audio sample ", " is empty"),
        };
        let mut out = String::from_str(head);
        out.append(path);
        out.append(tail);
        out
    }
}

/// What is wrong with a manifest as a whole, if anything.
pub open spec fn manifest_fault(timescale: u32, has_video: bool, has_audio: bool) -> Option<
    ManifestFault,
> {
    if timescale == 0 {
        Some(ManifestFault::ZeroTimescale)
    } else if !has_video && !has_audio {
        Some(ManifestFault::NoTracks)
    } else {
        None
    }
}

/// What is wrong with the times of a video sample, if anything. `prev` is the
/// decode time of the sample before it.
pub open spec fn video_entry_fault(prev: Option<i64>, timing: SampleTime) -> Option<ManifestFault> {
    if timing.duration == 0 {
        Some(ManifestFault::ZeroVideoDuration)
    } else if timing.pts < 0 || timing.dts < 0 {
        Some(ManifestFault::NegativeVideoTime)
    } else if prev matches Some(prev) && timing.dts <= prev {
        Some(ManifestFault::VideoOrder)
    } else {
        None
    }
}

/// What is wrong with the times of an audio sample, if anything. `prev` is the
/// decode time of the sample before it.
pub open spec fn audio_entry_fault(prev: Option<i64>, timing: SampleTime) -> Option<ManifestFault> {
    if timing.duration == 0 {
        Some(ManifestFault::ZeroAudioDuration)
    } else if timing.pts < 0 {
        Some(ManifestFault::NegativeAudioTime)
    } else if prev matches Some(prev) && timing.dts < prev {
        Some(ManifestFault::AudioOrder)
    } else {
        None
    }
}

/// The decode time of the sample before the one at `i`.
pub open spec fn time_before(timings: Seq<SampleTime>, i: int) -> Option<i64> {
    if i <= 0 {
        None
    } else {
        Some(timings[i - 1].dts)
    }
}

/// Whether each video sample passes behind the one before it.
pub open spec fn video_passes(timings: Seq<SampleTime>) -> bool {
    forall|i: int|
        0 <= i < timings.len() ==> video_entry_fault(#[trigger] time_before(timings, i), timings[i])
            is None
}

/// The decode times of a video track that passes strictly increase.
pub proof fn passing_video_advances(timings: Seq<SampleTime>, i: int, j: int)
    requires
        video_passes(timings),
        0 <= i < j < timings.len(),
    ensures
        timings[i].dts < timings[j].dts,
    decreases j,
{
    assert(video_entry_fault(time_before(timings, j), timings[j]) is None);
    if i < j - 1 {
        passing_video_advances(timings, i, j - 1);
    }
}

/// Rules out a manifest as a whole.
pub fn check_manifest(timescale: u32, has_video: bool, has_audio: bool) -> (fault: Option<
    ManifestFault,
>)
    ensures
        fault == manifest_fault(timescale, has_video, has_audio),
{
    if timescale == 0 {
        return Some(ManifestFault::ZeroTimescale);
    }
    if !has_video && !has_audio {
        return Some(ManifestFault::NoTracks);
    }
    None
}

/// Rules out an output that is there, unless it may be replaced or nothing is
/// to be written.
pub fn check_output(exists: bool, overwrite: bool, validate_only: bool) -> (fault: Option<
    ManifestFault,
>)
    ensures
        fault == if exists && !overwrite && !validate_only {
            Some(ManifestFault::OutputExists)
        } else {
            None
        },
{
    if exists && !overwrite && !validate_only {
        Some(ManifestFault::OutputExists)
    } else {
        None
    }
}

/// Ticks per second of a track that may say nothing of them. Zero counts as
/// one.
pub open spec fn scale_or(given: Option<u32>, default: u32) -> u32 {
    match given {
        Some(0) => 1,
        Some(scale) => scale,
        None => default,
    }
}

fn choose_scale(given: Option<u32>, default: u32) -> (scale: u32)
    requires
        default > 0,
    ensures
        scale == scale_or(given, default),
        scale > 0,
{
    match given {
        Some(0) => 1,
        Some(scale) => scale,
        None => default,
    }
}

/// Ticks per second of the video of a manifest, from the timescale of its
/// track.
pub fn video_scale(timescale: Option<u32>) -> (scale: u32)
    ensures
        scale == scale_or(timescale, DEFAULT_VIDEO_TIMESCALE),
        scale > 0,
{
    choose_scale(timescale, DEFAULT_VIDEO_TIMESCALE)
}

/// Ticks per second of the audio of a manifest, from the timescale of its
/// track; those of the audio that is written, from its sample rate.
pub fn audio_scale(timescale: Option<u32>) -> (scale: u32)
    ensures
        scale == scale_or(timescale, DEFAULT_AUDIO_TIMESCALE),
        scale > 0,
{
    choose_scale(timescale, DEFAULT_AUDIO_TIMESCALE)
}

/// Rules out a video sample by its times.
pub fn check_video_entry(prev: Option<i64>, timing: SampleTime) -> (fault: Option<ManifestFault>)
    ensures
        fault == video_entry_fault(prev, timing),
{
    if timing.duration == 0 {
        return Some(ManifestFault::ZeroVideoDuration);
    }
    if timing.pts < 0 || timing.dts < 0 {
        return Some(ManifestFault::NegativeVideoTime);
    }
    match prev {
        Some(prev) => if timing.dts <= prev {
            Some(ManifestFault::VideoOrder)
        } else {
            None
        },
        None => None,
    }
}

/// Rules out an audio sample by its times.
pub fn check_audio_entry(prev: Option<i64>, timing: SampleTime) -> (fault: Option<ManifestFault>)
    ensures
        fault == audio_entry_fault(prev, timing),
{
    if timing.duration == 0 {
        return Some(ManifestFault::ZeroAudioDuration);
    }
    if timing.pts < 0 {
        return Some(ManifestFault::NegativeAudioTime);
    }
    match prev {
        Some(prev) => if timing.dts < prev {
            Some(ManifestFault::AudioOrder)
        } else {
            None
        },
        None => None,
    }
}

/// Whose turn it is to write a sample.
#[derive(Debug, Clone, Copy, PartialEq, Eq, Structural)]
pub enum Turn {
    Video,
    Audio,
}

/// Whether a video sample is due no later than an audio sample.
pub open spec fn video_is_due(
    video: SampleTime,
    audio: SampleTime,
    video_timescale: u32,
    audio_timescale: u32,
) -> bool {
    video.dts * audio_timescale <= audio.dts * video_timescale
}

/// The order in which the samples of both tracks are written: by decode time,
/// video first where the times are equal.
pub open spec fn turns(
    video: Seq<SampleTime>,
    audio: Seq<SampleTime>,
    video_timescale: u32,
    audio_timescale: u32,
) -> Seq<Turn>
    decreases video.len() + audio.len(),
{
    if video.len() > 0 && (audio.len() == 0 || video_is_due(
        video[0],
        audio[0],
        video_timescale,
        audio_timescale,
    )) {
        seq![Turn::Video] + turns(video.skip(1), audio, video_timescale, audio_timescale)
    } else if audio.len() > 0 {
        seq![Turn::Audio] + turns(video, audio.skip(1), video_timescale, audio_timescale)
    } else {
        Seq::empty()
    }
}

/// How many of the turns are those of a track.
pub open spec fn count(turns: Seq<Turn>, turn: Turn) -> nat
    decreases turns.len(),
{
    if turns.len() == 0 {
        0
    } else {
        count(turns.skip(1), turn) + if turns[0] == turn {
            1nat
        } else {
            0
        }
    }
}

/// Each sample of both tracks has one turn.
pub proof fn every_sample_has_a_turn(
    video: Seq<SampleTime>,
    audio: Seq<SampleTime>,
    video_timescale: u32,
    audio_timescale: u32,
)
    ensures
        ({
            let order = turns(video, audio, video_timescale, audio_timescale);
            &&& count(order, Turn::Video) == video.len()
            &&& count(order, Turn::Audio) == audio.len()
        }),
    decreases video.len() + audio.len(),
{
    let order = turns(video, audio, video_timescale, audio_timescale);
    if video.len() > 0 && (audio.len() == 0 || video_is_due(
        video[0],
        audio[0],
        video_timescale,
        audio_timescale,
    )) {
        every_sample_has_a_turn(video.skip(1), audio, video_timescale, audio_timescale);
        assert(order.skip(1) =~= turns(video.skip(1), audio, video_timescale, audio_timescale));
    } else if audio.len() > 0 {
        every_sample_has_a_turn(video, audio.skip(1), video_timescale, audio_timescale);
        assert(order.skip(1) =~= turns(video, audio.skip(1), video_timescale, audio_timescale));
    }
}

/// Whether the order is by decode time: whenever an audio sample is written,
/// it is due before every video sample that is still to come, and the other
/// way round a video sample is due no later than the audio to come.
pub open spec fn in_time_order(
    video: Seq<SampleTime>,
    audio: Seq<SampleTime>,
    video_timescale: u32,
    audio_timescale: u32,
) -> bool
    decreases video.len() + audio.len(),
{
    if video.len() > 0 && (audio.len() == 0 || video_is_due(
        video[0],
        audio[0],
        video_timescale,
        audio_timescale,
    )) {
        &&& forall|j: int|
            0 <= j < audio.len() ==> video_is_due(
                video[0],
                #[trigger] audio[j],
                video_timescale,
                audio_timescale,
            )
        &&& in_time_order(video.skip(1), audio, video_timescale, audio_timescale)
    } else if audio.len() > 0 {
        &&& forall|i: int|
            0 <= i < video.len() ==> !video_is_due(
                #[trigger] video[i],
                audio[0],
                video_timescale,
                audio_timescale,
            )
        &&& in_time_order(video, audio.skip(1), video_timescale, audio_timescale)
    } else {
        true
    }
}

/// Whether decode times do not decrease.
pub open spec fn is_ordered(timings: Seq<SampleTime>) -> bool {
    forall|i: int, j: int|
        0 <= i <= j < timings.len() ==> (#[trigger] timings[i]).dts <= (#[trigger] timings[j]).dts
}

/// Tracks in order are interleaved in order.
pub proof fn ordered_tracks_interleave_in_order(
    video: Seq<SampleTime>,
    audio: Seq<SampleTime>,
    video_timescale: u32,
    audio_timescale: u32,
)
    requires
        is_ordered(video),
        is_ordered(audio),
    ensures
        in_time_order(video, audio, video_timescale, audio_timescale),
    decreases video.len() + audio.len(),
{
    if video.len() > 0 && (audio.len() == 0 || video_is_due(
        video[0],
        audio[0],
        video_timescale,
        audio_timescale,
    )) {
        assert forall|j: int| 0 <= j < audio.len() implies video_is_due(
            video[0],
            #[trigger] audio[j],
            video_timescale,
            audio_timescale,
        ) by {
            assert(audio[0].dts <= audio[j].dts);
            assert(audio[0].dts * video_timescale <= audio[j].dts * video_timescale)
                by (nonlinear_arith)
                requires
                    audio[0].dts <= audio[j].dts,
                    video_timescale >= 0,
            ;
        }
        ordered_tracks_interleave_in_order(
            video.skip(1),
            audio,
            video_timescale,
            audio_timescale,
        );
    } else if audio.len() > 0 {
        assert forall|i: int| 0 <= i < video.len() implies !video_is_due(
            #[trigger] video[i],
            audio[0],
            video_timescale,
            audio_timescale,
        ) by {
            assert(video[0].dts <= video[i].dts);
            assert(video[0].dts * audio_timescale <= video[i].dts * audio_timescale)
                by (nonlinear_arith)
                requires
                    video[0].dts <= video[i].dts,
                    audio_timescale >= 0,
            ;
        }
        ordered_tracks_interleave_in_order(
            video,
            audio.skip(1),
            video_timescale,
            audio_timescale,
        );
    }
}

/// The order in which the samples of both tracks are written.
pub fn interleave(
    video: &[SampleTime],
    audio: &[SampleTime],
    video_timescale: u32,
    audio_timescale: u32,
) -> (order: Vec<Turn>)
    ensures
        order@ == turns(video@, audio@, video_timescale, audio_timescale),
{
    let mut order: Vec<Turn> = Vec::new();
    let mut v: usize = 0;
    let mut a: usize = 0;
    let ghost whole = turns(video@, audio@, video_timescale, audio_timescale);
    assert(video@.skip(0) =~= video@);
    assert(audio@.skip(0) =~= audio@);
    assert(order@ + whole =~= whole);
    while v < video.len() || a < audio.len()
        invariant
            v <= video@.len(),
            a <= audio@.len(),
            whole == turns(video@, audio@, video_timescale, audio_timescale),
            whole == order@ + turns(
                video@.skip(v as int),
                audio@.skip(a as int),
                video_timescale,
                audio_timescale,
            ),
        decreases video@.len() - v + audio@.len() - a,
    {
        let ghost before = order@;
        let ghost video_left = video@.skip(v as int);
        let ghost audio_left = audio@.skip(a as int);
        assert(v < video@.len() ==> video_left.skip(1) =~= video@.skip(v + 1));
        assert(a < audio@.len() ==> audio_left.skip(1) =~= audio@.skip(a + 1));
        let take_video: bool = if v >= video.len() {
            false
        } else if a >= audio.len() {
            true
        } else {
            let video_dts: i64 = video[v].dts;
            let audio_dts: i64 = audio[a].dts;
            proof {
                lemma_product_bounds(video_dts, audio_timescale);
                lemma_product_bounds(audio_dts, video_timescale);
            }
            video_dts as i128 * audio_timescale as i128 <= audio_dts as i128
                * video_timescale as i128
        };
        if take_video {
            order.push(Turn::Video);
            v = v + 1;
            assert(whole =~= order@ + turns(
                video@.skip(v as int),
                audio_left,
                video_timescale,
                audio_timescale,
            ));
        } else {
            order.push(Turn::Audio);
            a = a + 1;
            assert(whole =~= order@ + turns(
                video_left,
                audio@.skip(a as int),
                video_timescale,
                audio_timescale,
            ));
        }
    }
    assert(order@ =~= whole);
    order
}

proof fn lemma_product_bounds(x: i64, y: u32)
    ensures
        -0x8000_0000_0000_0000_0000_0000 <= x * y <= 0x8000_0000_0000_0000_0000_0000,
{
    assert(-0x8000_0000_0000_0000_0000_0000 <= x * y <= 0x8000_0000_0000_0000_0000_0000)
        by (nonlinear_arith)
        requires
            -0x8000_0000_0000_0000 <= x <= 0x7FFF_FFFF_FFFF_FFFF,
            0 <= y <= 0xFFFF_FFFF,
    ;
}

/// A time in ticks of another timescale, or that it does not fit.
pub open spec fn rescaled_time(value: i64, from: u32, to: u32) -> Result<i64, MuxerError> {
    let exact = time::rescaled(value as int, from as int, to as int);
    if i64::MIN <= exact <= i64::MAX {
        Ok(exact as i64)
    } else {
        Err(MuxerError::TimestampOverflow)
    }
}

/// A time in ticks of another timescale.
pub fn manifest_rescale(value: i64, from: u32, to: u32) -> (result: Result<i64, MuxerError>)
    requires
        from > 0,
        to > 0,
    ensures
        result == rescaled_time(value, from, to),
{
    rescale(value, Timescale::new(from), Timescale::new(to))
}

/// The times of a sample in ticks of another timescale, or what is wrong with
/// them. Of the duration the low 32 bits count.
pub open spec fn rescaled_sample(timing: SampleTime, from: u32, to: u32) -> Result<
    SampleTime,
    MuxerError,
> {
    let moved = if from == to {
        Ok(timing)
    } else {
        match (
            rescaled_time(timing.pts, from, to),
            rescaled_time(timing.dts, from, to),
            rescaled_time(timing.duration as i64, from, to),
        ) {
            (Err(error), _, _) => Err(error),
            (_, Err(error), _) => Err(error),
            (_, _, Err(error)) => Err(error),
            (Ok(pts), Ok(dts), Ok(duration)) => Ok(
                SampleTime { pts, dts, duration: (duration as int % 0x1_0000_0000) as u32 },
            ),
        }
    };
    match moved {
        Err(error) => Err(error),
        Ok(moved) => if moved.duration == 0 {
            Err(MuxerError::ZeroDuration)
        } else {
            Ok(moved)
        },
    }
}

/// The times of a sample in ticks of another timescale.
pub fn rescale_sample(timing: SampleTime, from: u32, to: u32) -> (result: Result<
    SampleTime,
    MuxerError,
>)
    requires
        from > 0,
        to > 0,
    ensures
        result == rescaled_sample(timing, from, to),
{
    if from == to {
        return SampleTime::new(timing.pts, timing.dts, timing.duration);
    }
    let pts: i64 = match manifest_rescale(timing.pts, from, to) {
        Ok(pts) => pts,
        Err(error) => return Err(error),
    };
    let dts: i64 = match manifest_rescale(timing.dts, from, to) {
        Ok(dts) => dts,
        Err(error) => return Err(error),
    };
    let duration: i64 = match manifest_rescale(timing.duration as i64, from, to) {
        Ok(duration) => duration,
        Err(error) => return Err(error),
    };
    proof {
        let numerator = timing.duration * to;
        assert(numerator >= 0) by (nonlinear_arith)
            requires
                numerator == timing.duration * to,
                to > 0,
        ;
        assert(numerator / from as int >= 0) by (nonlinear_arith)
            requires
                numerator >= 0,
                from > 0,
        ;
    }
    SampleTime::new(pts, dts, (duration as u64 % 0x1_0000_0000) as u32)
}

/// The times of a video sample in ticks of the track that is written.
pub fn place_video(timing: SampleTime, from: u32) -> (result: Result<SampleTime, MuxerError>)
    requires
        from > 0,
    ensures
        result == rescaled_sample(timing, from, DEFAULT_VIDEO_TIMESCALE),
{
    rescale_sample(timing, from, DEFAULT_VIDEO_TIMESCALE)
}

/// The times of an audio sample in ticks of the track that is written. It is
/// decoded when it is heard.
pub fn place_audio(timing: SampleTime, from: u32, to: u32) -> (result: Result<
    SampleTime,
    MuxerError,
>)
    requires
        from > 0,
        to > 0,
    ensures
        result == rescaled_sample(SampleTime { dts: timing.pts, ..timing }, from, to),
{
    rescale_sample(SampleTime { dts: timing.pts, ..timing }, from, to)
}

} // verus!
