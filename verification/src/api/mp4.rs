//! Muxer for MP4.
//!
//! The box writer stands outside: a muxer says what to write, and takes the
//! writer's answer.

use vstd::prelude::*;
use crate::api::front::{self, to_subtitle_ticks, Front, SampleTicks};
use crate::api::{InputFault, MuxerError, MuxerStats, SubtitleCodec};
use crate::muxer::mp4::{Mp4VideoTrack, Mp4WriterError};
use crate::seconds::{Seconds, TICKS_PER_SECOND};
use crate::time::{EncodedSample, SubtitleCue};
use crate::wire::{self, put_be32, put_slice};

verus! {

/// A video sample for the box writer, and what to remember of it once it is
/// written.
#[derive(Debug, Clone, Copy, PartialEq, Eq, Structural)]
pub struct VideoWrite {
    /// Presentation time, in ticks of the media clock.
    pub pts: u64,
    /// Decode time, in ticks of the media clock.
    pub dts: u64,
    pub is_keyframe: bool,
    /// Duration in ticks, where it is explicit.
    pub duration: Option<u32>,
    /// The time that the next frame is compared with.
    pub shown: Seconds,
    /// The decode time that the next frame is compared with, if it changes.
    pub decoded: Option<Seconds>,
    /// How far the clock of frames without times moves.
    pub step: Option<Seconds>,
}

impl VideoWrite {
    /// Whether the remembered decode time is finite and not negative.
    pub open spec fn is_sound(self) -> bool {
        self.decoded matches Some(dts) ==> dts.finite() && !dts.negative()
    }
}

/// An audio sample for the box writer, and what to remember of it once it is
/// written.
#[derive(Debug, Clone, Copy, PartialEq, Eq, Structural)]
pub struct AudioWrite {
    /// Time in ticks of the media clock.
    pub pts: u64,
    /// Duration in ticks, where it is explicit.
    pub duration: Option<u32>,
    /// The time that the next frame is compared with.
    pub shown: Seconds,
    /// How far the clock of frames without times moves.
    pub step: Option<Seconds>,
}

/// How the text of a subtitle is stored.
#[derive(Debug)]
pub enum SubtitlePayload {
    /// As it is.
    Plain,
    /// As a 3GPP timed text sample.
    TimedText,
    /// As this box.
    Boxed(Vec<u8>),
}

/// A subtitle for the box writer, and what to remember of it once it is
/// written.
#[derive(Debug, Clone, Copy, PartialEq, Eq, Structural)]
pub struct SubtitleWrite {
    /// Time in ticks of the media clock.
    pub pts: u64,
    /// Duration in ticks of the media clock.
    pub duration: u32,
    /// The time that the next subtitle is compared with.
    pub shown: Seconds,
}

/// The error of a muxer for an error of the box writer.
pub open spec fn mp4_error(front: Front, error: Mp4WriterError, frame_index: u64) -> MuxerError {
    match error {
        Mp4WriterError::NonIncreasingTimestamp => MuxerError::NonIncreasingVideoPts {
            prev_pts: front.last_video_pts,
            curr_pts: None,
            frame_index,
        },
        Mp4WriterError::FirstFrameMustBeKeyframe => MuxerError::FirstVideoFrameMustBeKeyframe,
        Mp4WriterError::FirstFrameMissingSpsPps => MuxerError::FirstVideoFrameMissingSpsPps,
        Mp4WriterError::FirstFrameMissingSequenceHeader =>
            MuxerError::FirstAv1FrameMissingSequenceHeader,
        Mp4WriterError::FirstFrameMissingVp9Config =>
            MuxerError::FirstVp9FrameMissingSequenceHeader,
        Mp4WriterError::InvalidAdts => MuxerError::InvalidAdts { frame_index },
        Mp4WriterError::InvalidAdtsDetailed => MuxerError::InvalidAdtsDetailed { frame_index },
        Mp4WriterError::InvalidOpusPacket => MuxerError::InvalidOpusPacket { frame_index },
        Mp4WriterError::InvalidFlacFrame => MuxerError::InvalidFlacFrame { frame_index },
        Mp4WriterError::MissingFlacStreaminfo => MuxerError::Io(InputFault::StreaminfoNotProvided),
        Mp4WriterError::AudioNotEnabled => MuxerError::AudioNotConfigured,
        Mp4WriterError::SubtitleNotEnabled => MuxerError::SubtitleNotConfigured,
        Mp4WriterError::DurationOverflow => MuxerError::Io(InputFault::DurationOverflow),
        Mp4WriterError::DecoderConfigurationChanged => MuxerError::DecoderConfigurationChanged,
        Mp4WriterError::AlreadyFinalized => MuxerError::AlreadyFinished,
    }
}

/// The error of a muxer for an error of the box writer.
pub(crate) fn convert_mp4_error(front: &Front, error: Mp4WriterError, frame_index: u64) -> (converted:
    MuxerError)
    ensures
        converted == mp4_error(*front, error, frame_index),
{
    match error {
        Mp4WriterError::NonIncreasingTimestamp => MuxerError::NonIncreasingVideoPts {
            prev_pts: front.last_video_pts,
            curr_pts: None,
            frame_index,
        },
        Mp4WriterError::FirstFrameMustBeKeyframe => MuxerError::FirstVideoFrameMustBeKeyframe,
        Mp4WriterError::FirstFrameMissingSpsPps => MuxerError::FirstVideoFrameMissingSpsPps,
        Mp4WriterError::FirstFrameMissingSequenceHeader =>
            MuxerError::FirstAv1FrameMissingSequenceHeader,
        Mp4WriterError::FirstFrameMissingVp9Config =>
            MuxerError::FirstVp9FrameMissingSequenceHeader,
        Mp4WriterError::InvalidAdts => MuxerError::InvalidAdts { frame_index },
        Mp4WriterError::InvalidAdtsDetailed => MuxerError::InvalidAdtsDetailed { frame_index },
        Mp4WriterError::InvalidOpusPacket => MuxerError::InvalidOpusPacket { frame_index },
        Mp4WriterError::InvalidFlacFrame => MuxerError::InvalidFlacFrame { frame_index },
        Mp4WriterError::MissingFlacStreaminfo => MuxerError::Io(InputFault::StreaminfoNotProvided),
        Mp4WriterError::AudioNotEnabled => MuxerError::AudioNotConfigured,
        Mp4WriterError::SubtitleNotEnabled => MuxerError::SubtitleNotConfigured,
        Mp4WriterError::DurationOverflow => MuxerError::Io(InputFault::DurationOverflow),
        Mp4WriterError::DecoderConfigurationChanged => MuxerError::DecoderConfigurationChanged,
        Mp4WriterError::AlreadyFinalized => MuxerError::AlreadyFinished,
    }
}

/// The type of a WebVTT cue box.
pub const VTTC: [u8; 4] = [0x76, 0x74, 0x74, 0x63];

/// The type of a WebVTT payload box.
pub const PAYL: [u8; 4] = [0x70, 0x61, 0x79, 0x6C];

/// A box: the low half of its length, its type and its payload.
pub open spec fn small_box(kind: Seq<u8>, payload: Seq<u8>) -> Seq<u8> {
    wire::be32(((8 + payload.len()) % 0x1_0000_0000) as u32) + kind + payload
}

/// A WebVTT cue with a text.
pub open spec fn webvtt_cue(text: Seq<u8>) -> Seq<u8> {
    small_box(VTTC@, small_box(PAYL@, text))
}

fn write_small_box(kind: [u8; 4], payload: &[u8]) -> (out: Vec<u8>)
    ensures
        out@ == small_box(kind@, payload@),
{
    let mut out: Vec<u8> = Vec::new();
    let size: u128 = 8 + payload.len() as u128;
    put_be32(&mut out, (size % 0x1_0000_0000) as u32);
    put_slice(&mut out, &kind);
    put_slice(&mut out, payload);
    assert(out@ =~= small_box(kind@, payload@));
    out
}

/// A WebVTT cue with a text.
pub fn encode_webvtt_cue(text: &[u8]) -> (out: Vec<u8>)
    ensures
        out@ == webvtt_cue(text@),
{
    let payload: Vec<u8> = write_small_box(PAYL, text);
    write_small_box(VTTC, payload.as_slice())
}

/// Whether a payload is how a cue of a codec is stored.
pub open spec fn is_cue_payload(payload: SubtitlePayload, codec: SubtitleCodec, text: Seq<u8>) -> bool {
    match payload {
        SubtitlePayload::Plain => false,
        SubtitlePayload::TimedText => !(codec is WebVtt),
        SubtitlePayload::Boxed(bytes) => codec is WebVtt && bytes@ == webvtt_cue(text),
    }
}

/// How a cue of a codec is stored.
pub(crate) fn cue_payload(codec: SubtitleCodec, text: &[u8]) -> (payload: SubtitlePayload)
    ensures
        is_cue_payload(payload, codec, text@),
{
    match codec {
        SubtitleCodec::WebVtt => SubtitlePayload::Boxed(encode_webvtt_cue(text)),
        _ => SubtitlePayload::TimedText,
    }
}

/// Why a subtitle was not written.
#[derive(Debug, Clone, Copy, PartialEq, Eq, Structural)]
pub enum SubtitleRefusal {
    /// Its text, of this length, does not fit a timed text sample.
    TooLarge(usize),
    /// The box writer does not take it.
    Writer(Mp4WriterError),
}

/// The error of a muxer for a subtitle that was not written.
pub open spec fn refusal_error(front: Front, refusal: SubtitleRefusal) -> MuxerError {
    match refusal {
        SubtitleRefusal::TooLarge(len) => MuxerError::SubtitleTooLarge(len),
        SubtitleRefusal::Writer(error) => mp4_error(front, error, front.subtitle_frames),
    }
}

/// The error of a muxer for a subtitle that was not written.
pub(crate) fn convert_refusal(front: &Front, refusal: SubtitleRefusal) -> (converted: MuxerError)
    ensures
        converted == refusal_error(*front, refusal),
{
    match refusal {
        SubtitleRefusal::TooLarge(len) => MuxerError::SubtitleTooLarge(len),
        SubtitleRefusal::Writer(error) => convert_mp4_error(front, error, front.subtitle_frames),
    }
}

/// What the box writer counted.
#[derive(Debug, Clone, Copy, PartialEq, Eq, Structural)]
pub struct WriterTotals {
    pub video_frames: u64,
    pub audio_frames: u64,
    pub subtitle_frames: u64,
    /// When the last track ends, in ticks of the media clock.
    pub end: Option<u64>,
    pub bytes_written: u64,
}

impl WriterTotals {
    /// The statistics of the file.
    pub open spec fn stats(self) -> MuxerStats {
        MuxerStats {
            video_frames: self.video_frames,
            audio_frames: self.audio_frames,
            subtitle_frames: self.subtitle_frames,
            duration_secs: time_of(
                match self.end {
                    Some(end) => end,
                    None => 0,
                },
            ),
            bytes_written: self.bytes_written,
        }
    }
}

/// What the file is made from, besides its samples and metadata.
#[derive(Debug)]
pub struct FinishWrite {
    pub video: Option<Mp4VideoTrack>,
    /// Whether the index comes before the media data.
    pub fast_start: bool,
}

impl Front {
    /// The front once the answer to a video sample is in.
    pub open spec fn video_answered(self, write: VideoWrite) -> Front {
        Front {
            video_clock: match write.step {
                Some(step) => self.video_clock.plus(step),
                None => self.video_clock,
            },
            ..self.with_video(write.shown, write.decoded)
        }
    }

    /// The front once the answer to an audio sample is in.
    pub open spec fn audio_answered(self, write: AudioWrite) -> Front {
        Front {
            audio_clock: match write.step {
                Some(step) => self.audio_clock.plus(step),
                None => self.audio_clock,
            },
            ..self.with_audio(write.shown)
        }
    }

    /// Counts a video sample.
    pub(crate) fn count_video(&mut self, write: &VideoWrite)
        requires
            old(self).video_frames < u64::MAX,
        ensures
            *final(self) == old(self).video_answered(*write),
    {
        self.last_video_pts = Some(write.shown);
        if write.decoded.is_some() {
            self.last_video_dts = write.decoded;
        }
        self.video_frames = self.video_frames + 1;
        match write.step {
            Some(step) => {
                self.video_clock = self.video_clock.later_by(&step);
            },
            None => {},
        }
    }

    /// Counts an audio sample.
    pub(crate) fn count_audio(&mut self, write: &AudioWrite)
        requires
            old(self).audio_frames < u64::MAX,
        ensures
            *final(self) == old(self).audio_answered(*write),
    {
        self.last_audio_pts = Some(write.shown);
        self.audio_frames = self.audio_frames + 1;
        match write.step {
            Some(step) => {
                self.audio_clock = self.audio_clock.later_by(&step);
            },
            None => {},
        }
    }

    /// Counts a subtitle.
    pub(crate) fn count_subtitle(&mut self, write: &SubtitleWrite)
        requires
            old(self).subtitle_frames < u64::MAX,
        ensures
            *final(self) == old(self).with_subtitle(write.shown),
    {
        self.last_subtitle_pts = Some(write.shown);
        self.subtitle_frames = self.subtitle_frames + 1;
    }
}

/// The time of a number of ticks of the media clock.
pub open spec fn time_of(ticks: u64) -> Seconds {
    Seconds::of_ratio(ticks as int, TICKS_PER_SECOND as nat)
}

/// Buffered MP4 muxer.
#[derive(Debug)]
pub struct Muxer {
    front: Front,
    fast_start: bool,
}

impl View for Muxer {
    type V = Front;

    closed spec fn view(&self) -> Front {
        self.front
    }
}

impl Muxer {
    /// Whether the index comes before the media data.
    pub closed spec fn has_fast_start(self) -> bool {
        self.fast_start
    }

    /// A muxer without samples.
    pub(crate) fn start(front: Front, fast_start: bool) -> (muxer: Self)
        ensures
            muxer@ == front,
            muxer.has_fast_start() == fast_start,
    {
        Muxer { front, fast_start }
    }

    /// A video frame that is decoded when it is shown, as a sample for the
    /// box writer.
    pub fn write_video(&self, pts: Seconds, data: &[u8], is_keyframe: bool) -> (result: Result<
        VideoWrite,
        MuxerError,
    >)
        ensures
            match result {
                Ok(write) => self@.video_fault(pts, data@.len()) is None && write == (VideoWrite {
                    pts: pts.in_ticks() as u64,
                    dts: pts.in_ticks() as u64,
                    is_keyframe,
                    duration: None,
                    shown: pts,
                    decoded: None,
                    step: None,
                }),
                Err(error) => self@.video_fault(pts, data@.len()) == Some(error),
            },
    {
        match self.front.check_video(pts, data.len()) {
            Some(error) => return Err(error),
            None => {},
        }
        let ticks: u64 = pts.ticks();
        Ok(
            VideoWrite {
                pts: ticks,
                dts: ticks,
                is_keyframe,
                duration: None,
                shown: pts,
                decoded: None,
                step: None,
            },
        )
    }

    /// A video frame in decode order, as a sample for the box writer.
    pub fn write_video_with_dts(
        &self,
        pts: Seconds,
        dts: Seconds,
        data: &[u8],
        is_keyframe: bool,
    ) -> (result: Result<VideoWrite, MuxerError>)
        ensures
            match result {
                Ok(write) => !self@.finished && self@.video_dts_fault(pts, dts, data@.len()) is None
                    && write == (VideoWrite {
                    pts: pts.in_ticks() as u64,
                    dts: dts.in_ticks() as u64,
                    is_keyframe,
                    duration: None,
                    shown: pts,
                    decoded: Some(dts),
                    step: None,
                }) && write.is_sound(),
                Err(error) => if self@.finished {
                    error == MuxerError::AlreadyFinished
                } else {
                    self@.video_dts_fault(pts, dts, data@.len()) == Some(error)
                },
            },
    {
        if self.front.finished {
            return Err(MuxerError::AlreadyFinished);
        }
        match self.front.check_video_dts(pts, dts, data.len()) {
            Some(error) => return Err(error),
            None => {},
        }
        Ok(
            VideoWrite {
                pts: pts.ticks(),
                dts: dts.ticks(),
                is_keyframe,
                duration: None,
                shown: pts,
                decoded: Some(dts),
                step: None,
            },
        )
    }

    /// A video sample with whole ticks, as a sample for the box writer.
    pub fn write_video_sample(&self, sample: EncodedSample<'_>) -> (result: Result<
        VideoWrite,
        MuxerError,
    >)
        requires
            self@.is_sound(),
        ensures
            match result {
                Ok(write) => !self@.finished && (self@.video_sample(
                    sample.timing,
                    sample.data@.len(),
                ) matches Ok(ticks) && write == (VideoWrite {
                    pts: ticks.pts,
                    dts: ticks.dts,
                    is_keyframe: sample.is_sync,
                    duration: Some(ticks.duration),
                    shown: time_of(ticks.pts),
                    decoded: Some(time_of(ticks.dts)),
                    step: None,
                })) && write.is_sound(),
                Err(error) => if self@.finished {
                    error == MuxerError::AlreadyFinished
                } else {
                    self@.video_sample(sample.timing, sample.data@.len()) == Err::<
                        SampleTicks,
                        MuxerError,
                    >(error)
                },
            },
    {
        if self.front.finished {
            return Err(MuxerError::AlreadyFinished);
        }
        let ticks: SampleTicks = match self.front.check_video_sample(
            sample.timing,
            sample.data.len(),
        ) {
            Ok(ticks) => ticks,
            Err(error) => return Err(error),
        };
        Ok(
            VideoWrite {
                pts: ticks.pts,
                dts: ticks.dts,
                is_keyframe: sample.is_sync,
                duration: Some(ticks.duration),
                shown: Seconds::from_ticks(ticks.pts),
                decoded: Some(Seconds::from_ticks(ticks.dts)),
                step: None,
            },
        )
    }

    /// Takes the answer to a video sample.
    pub fn video_written(&mut self, write: VideoWrite, answer: Result<(), Mp4WriterError>) -> (
        result: Result<(), MuxerError>)
        requires
            old(self)@.video_frames < u64::MAX,
        ensures
            final(self).has_fast_start() == old(self).has_fast_start(),
            old(self)@.is_sound() && write.is_sound() ==> final(self)@.is_sound(),
            match answer {
                Ok(_) => result is Ok && final(self)@ == old(self)@.video_answered(write),
                Err(error) => result == Err::<(), MuxerError>(
                    mp4_error(old(self)@, error, old(self)@.video_frames),
                ) && final(self)@ == old(self)@,
            },
    {
        match answer {
            Ok(_) => {
                self.front.count_video(&write);
                Ok(())
            },
            Err(error) => Err(convert_mp4_error(&self.front, error, self.front.video_frames)),
        }
    }

    /// An audio frame, as a sample for the box writer.
    pub fn write_audio(&self, pts: Seconds, data: &[u8]) -> (result: Result<AudioWrite, MuxerError>)
        ensures
            match result {
                Ok(write) => !self@.finished && self@.audio_fault(pts, data@.len()) is None && write
                    == (AudioWrite {
                    pts: pts.in_ticks() as u64,
                    duration: None,
                    shown: pts,
                    step: None,
                }),
                Err(error) => if self@.finished {
                    error == MuxerError::AlreadyFinished
                } else {
                    self@.audio_fault(pts, data@.len()) == Some(error)
                },
            },
    {
        if self.front.finished {
            return Err(MuxerError::AlreadyFinished);
        }
        match self.front.check_audio(pts, data.len()) {
            Some(error) => return Err(error),
            None => {},
        }
        Ok(AudioWrite { pts: pts.ticks(), duration: None, shown: pts, step: None })
    }

    /// An audio sample with whole ticks, as a sample for the box writer. Audio
    /// may start before video.
    pub fn write_audio_sample(&self, sample: EncodedSample<'_>) -> (result: Result<
        AudioWrite,
        MuxerError,
    >)
        ensures
            match result {
                Ok(write) => !self@.finished && (self@.audio_sample(
                    sample.timing,
                    sample.data@.len(),
                ) matches Ok(ticks) && write == (AudioWrite {
                    pts: ticks.pts,
                    duration: Some(ticks.duration),
                    shown: time_of(ticks.pts),
                    step: None,
                })),
                Err(error) => if self@.finished {
                    error == MuxerError::AlreadyFinished
                } else {
                    self@.audio_sample(sample.timing, sample.data@.len()) == Err::<
                        SampleTicks,
                        MuxerError,
                    >(error)
                },
            },
    {
        if self.front.finished {
            return Err(MuxerError::AlreadyFinished);
        }
        let ticks: SampleTicks = match self.front.check_audio_sample(
            sample.timing,
            sample.data.len(),
        ) {
            Ok(ticks) => ticks,
            Err(error) => return Err(error),
        };
        Ok(
            AudioWrite {
                pts: ticks.pts,
                duration: Some(ticks.duration),
                shown: Seconds::from_ticks(ticks.pts),
                step: None,
            },
        )
    }

    /// Takes the answer to an audio sample.
    pub fn audio_written(&mut self, write: AudioWrite, answer: Result<(), Mp4WriterError>) -> (
        result: Result<(), MuxerError>)
        requires
            old(self)@.audio_frames < u64::MAX,
        ensures
            final(self).has_fast_start() == old(self).has_fast_start(),
            old(self)@.is_sound() ==> final(self)@.is_sound(),
            match answer {
                Ok(_) => result is Ok && final(self)@ == old(self)@.audio_answered(write),
                Err(error) => result == Err::<(), MuxerError>(
                    mp4_error(old(self)@, error, old(self)@.audio_frames),
                ) && final(self)@ == old(self)@,
            },
    {
        match answer {
            Ok(_) => {
                self.front.count_audio(&write);
                Ok(())
            },
            Err(error) => Err(convert_mp4_error(&self.front, error, self.front.audio_frames)),
        }
    }

    /// A subtitle, as a sample for the box writer; its text is stored as it
    /// is.
    pub fn write_subtitle(&self, pts: Seconds, duration: Seconds, text: &str) -> (result: Result<
        SubtitleWrite,
        MuxerError,
    >)
        ensures
            ({
                let fault = self@.subtitle_fault(
                    pts,
                    duration,
                    vstd::utf8::encode_utf8(text@).len(),
                );
                match result {
                    Ok(write) => !self@.finished && fault is None && write == (SubtitleWrite {
                        pts: pts.in_ticks() as u64,
                        duration: front::subtitle_ticks(duration),
                        shown: pts,
                    }),
                    Err(error) => if self@.finished {
                        error == MuxerError::AlreadyFinished
                    } else {
                        fault == Some(error)
                    },
                }
            }),
    {
        if self.front.finished {
            return Err(MuxerError::AlreadyFinished);
        }
        match self.front.check_subtitle(pts, duration, text.as_bytes().len()) {
            Some(error) => return Err(error),
            None => {},
        }
        Ok(
            SubtitleWrite {
                pts: pts.ticks(),
                duration: to_subtitle_ticks(duration),
                shown: pts,
            },
        )
    }

    /// A subtitle cue with whole ticks, as a sample for the box writer, and
    /// how its text is stored. The cue keeps its own duration.
    pub fn write_subtitle_cue(&self, cue: SubtitleCue<'_>) -> (result: Result<
        (SubtitleWrite, SubtitlePayload),
        MuxerError,
    >)
        ensures
            ({
                let text = vstd::utf8::encode_utf8(cue.text@);
                let fault = self@.cue_fault(cue.duration, text.len());
                match result {
                    Ok(write) => !self@.finished && fault is None && (self@.cue(
                        cue.start,
                        cue.duration,
                    ) matches Ok(ticks) && write.0 == (SubtitleWrite {
                        pts: ticks.pts,
                        duration: ticks.duration,
                        shown: time_of(ticks.pts),
                    })) && is_cue_payload(write.1, self@.subtitle->0.codec, text),
                    Err(error) => if self@.finished {
                        error == MuxerError::AlreadyFinished
                    } else if fault is Some {
                        fault == Some(error)
                    } else {
                        self@.cue(cue.start, cue.duration) == Err::<SampleTicks, MuxerError>(error)
                    },
                }
            }),
    {
        if self.front.finished {
            return Err(MuxerError::AlreadyFinished);
        }
        let text: &[u8] = cue.text.as_bytes();
        match self.front.check_cue(cue.duration, text.len()) {
            Some(error) => return Err(error),
            None => {},
        }
        let ticks: SampleTicks = match self.front.cue_times(cue.start, cue.duration) {
            Ok(ticks) => ticks,
            Err(error) => return Err(error),
        };
        let payload: SubtitlePayload = cue_payload(self.front.subtitle.unwrap().codec, text);
        Ok(
            (
                SubtitleWrite {
                    pts: ticks.pts,
                    duration: ticks.duration,
                    shown: Seconds::from_ticks(ticks.pts),
                },
                payload,
            ),
        )
    }

    /// Takes the answer to a subtitle.
    pub fn subtitle_written(
        &mut self,
        write: SubtitleWrite,
        answer: Result<(), SubtitleRefusal>,
    ) -> (result: Result<(), MuxerError>)
        requires
            old(self)@.subtitle_frames < u64::MAX,
        ensures
            final(self).has_fast_start() == old(self).has_fast_start(),
            old(self)@.is_sound() ==> final(self)@.is_sound(),
            match answer {
                Ok(_) => result is Ok && final(self)@ == old(self)@.with_subtitle(write.shown),
                Err(refusal) => result == Err::<(), MuxerError>(
                    refusal_error(old(self)@, refusal),
                ) && final(self)@ == old(self)@,
            },
    {
        match answer {
            Ok(_) => {
                self.front.count_subtitle(&write);
                Ok(())
            },
            Err(refusal) => Err(convert_refusal(&self.front, refusal)),
        }
    }

    /// The next frame of a video without times, as a sample for the box
    /// writer.
    pub fn encode_video(&self, data: &[u8], duration_ms: u32) -> (result: Result<
        VideoWrite,
        MuxerError,
    >)
        ensures
            ({
                let pts = self@.video_clock;
                match result {
                    Ok(write) => self@.video_fault(pts, data@.len()) is None && write
                        == (VideoWrite {
                        pts: pts.in_ticks() as u64,
                        dts: pts.in_ticks() as u64,
                        is_keyframe: self@.next_is_keyframe(data@),
                        duration: None,
                        shown: pts,
                        decoded: None,
                        step: Some(Seconds::of_ratio(duration_ms as int, 1_000)),
                    }),
                    Err(error) => self@.video_fault(pts, data@.len()) == Some(error),
                }
            }),
    {
        let is_keyframe: bool = self.front.guess_keyframe(data);
        match self.write_video(self.front.video_clock, data, is_keyframe) {
            Ok(write) => Ok(
                VideoWrite { step: Some(Seconds::from_ratio(duration_ms as i64, 1_000)), ..write },
            ),
            Err(error) => Err(error),
        }
    }

    /// The next frame of audio without times, as a sample for the box writer.
    pub fn encode_audio(&self, data: &[u8], samples: u32) -> (result: Result<
        AudioWrite,
        MuxerError,
    >)
        ensures
            ({
                let pts = self@.audio_clock;
                match self@.audio_track {
                    None => result == Err::<AudioWrite, MuxerError>(
                        MuxerError::AudioNotConfigured,
                    ),
                    Some(track) => match result {
                        Ok(write) => !self@.finished && self@.audio_fault(
                            pts,
                            data@.len(),
                        ) is None && write == (AudioWrite {
                            pts: pts.in_ticks() as u64,
                            duration: None,
                            shown: pts,
                            step: Some(
                                Seconds::of_ratio(samples as int, track.sample_rate as nat),
                            ),
                        }),
                        Err(error) => if self@.finished {
                            error == MuxerError::AlreadyFinished
                        } else {
                            self@.audio_fault(pts, data@.len()) == Some(error)
                        },
                    },
                }
            }),
    {
        let sample_rate: u32 = match self.front.audio_track {
            Some(track) => track.sample_rate,
            None => return Err(MuxerError::AudioNotConfigured),
        };
        match self.write_audio(self.front.audio_clock, data) {
            Ok(write) => Ok(
                AudioWrite {
                    step: Some(Seconds::from_ratio(samples as i64, sample_rate)),
                    ..write
                },
            ),
            Err(error) => Err(error),
        }
    }

    /// What to hand to the box writer to end the file.
    pub fn finish_in_place(&self) -> (result: Result<FinishWrite, MuxerError>)
        ensures
            match result {
                Ok(write) => {
                    &&& !self@.finished
                    &&& write.fast_start == self.has_fast_start()
                    &&& match self@.video_track {
                        Some(track) => write.video matches Some(video) && video.width
                            == track.width && video.height == track.height && (
                        video.language matches Some(language) && language@
                            == track.language.letters_text()),
                        None => write.video is None,
                    }
                },
                Err(error) => self@.finished && error == MuxerError::AlreadyFinished,
            },
    {
        if self.front.finished {
            return Err(MuxerError::AlreadyFinished);
        }
        let video: Option<Mp4VideoTrack> = match self.front.video_track {
            Some(track) => Some(
                Mp4VideoTrack {
                    width: track.width,
                    height: track.height,
                    language: Some(track.language.text()),
                },
            ),
            None => None,
        };
        Ok(FinishWrite { video, fast_start: self.fast_start })
    }

    /// Takes the answer to the end of the file.
    pub fn finish_in_place_with_stats(&mut self, answer: Result<WriterTotals, InputFault>) -> (
        result: Result<MuxerStats, MuxerError>)
        ensures
            final(self).has_fast_start() == old(self).has_fast_start(),
            if old(self)@.finished {
                result == Err::<MuxerStats, MuxerError>(MuxerError::AlreadyFinished)
                    && final(self)@ == old(self)@
            } else {
                match answer {
                    Ok(totals) => result == Ok::<MuxerStats, MuxerError>(totals.stats())
                        && final(self)@ == (Front { finished: true, ..old(self)@ }),
                    Err(fault) => result == Err::<MuxerStats, MuxerError>(MuxerError::Io(fault))
                        && final(self)@ == old(self)@,
                }
            },
    {
        if self.front.finished {
            return Err(MuxerError::AlreadyFinished);
        }
        let totals: WriterTotals = match answer {
            Ok(totals) => totals,
            Err(fault) => return Err(MuxerError::Io(fault)),
        };
        self.front.finished = true;
        let end: u64 = match totals.end {
            Some(end) => end,
            None => 0,
        };
        Ok(
            MuxerStats {
                video_frames: totals.video_frames,
                audio_frames: totals.audio_frames,
                subtitle_frames: totals.subtitle_frames,
                duration_secs: Seconds::from_ticks(end),
                bytes_written: totals.bytes_written,
            },
        )
    }

    /// Takes the answer to the end of the file.
    pub fn finish_with_stats(self, answer: Result<WriterTotals, InputFault>) -> (result: Result<
        MuxerStats,
        MuxerError,
    >)
        ensures
            match result {
                Ok(stats) => !self@.finished && (answer matches Ok(totals) && stats
                    == totals.stats()),
                Err(error) => if self@.finished {
                    error == MuxerError::AlreadyFinished
                } else {
                    answer matches Err(fault) && error == MuxerError::Io(fault)
                },
            },
    {
        let mut muxer = self;
        muxer.finish_in_place_with_stats(answer)
    }

    /// Takes the answer to the end of the file.
    pub fn finish(self, answer: Result<WriterTotals, InputFault>) -> (result: Result<
        (),
        MuxerError,
    >)
        ensures
            match result {
                Ok(_) => !self@.finished && answer is Ok,
                Err(error) => if self@.finished {
                    error == MuxerError::AlreadyFinished
                } else {
                    answer matches Err(fault) && error == MuxerError::Io(fault)
                },
            },
    {
        match self.finish_with_stats(answer) {
            Ok(_) => Ok(()),
            Err(error) => Err(error),
        }
    }

    /// Takes the answer to the end of the file.
    pub fn flush(self, answer: Result<WriterTotals, InputFault>) -> (result: Result<(), MuxerError>)
        ensures
            match result {
                Ok(_) => !self@.finished && answer is Ok,
                Err(error) => if self@.finished {
                    error == MuxerError::AlreadyFinished
                } else {
                    answer matches Err(fault) && error == MuxerError::Io(fault)
                },
            },
    {
        self.finish(answer)
    }
}

} // verus!
