//! Muxer for MP4 that hands sample bytes on as they arrive.

use vstd::prelude::*;
use crate::api::front::{self, to_subtitle_ticks, Front, SampleTicks};
use crate::api::mp4::{
    self, convert_mp4_error, convert_refusal, cue_payload, AudioWrite, SubtitlePayload,
    SubtitleRefusal, SubtitleWrite, VideoWrite,
};
use crate::api::{InputFault, MuxerError, MuxerStats, VideoCodec};
use crate::muxer::mp4::Mp4WriterError;
use crate::muxer::streaming::{
    self, FinishPlan, MoovModel, SeekableStreamingWriter, StreamEntry, StreamModel, TrackSummary,
};
use crate::seconds::Seconds;
use crate::time::{EncodedSample, SubtitleCue};

verus! {

/// The state of a streaming muxer.
pub struct StreamingState {
    pub front: Front,
    pub stream: StreamModel,
    /// When the explicit durations of each track end, in ticks.
    pub video_end: Option<u64>,
    pub audio_end: Option<u64>,
    pub subtitle_end: Option<u64>,
}

/// What the state of the tracks says at the end of a stream.
#[derive(Debug, Clone, Copy, PartialEq, Eq, Structural)]
pub struct TrackAnswers {
    /// Whether a decoder configuration was found.
    pub has_video_config: bool,
    /// The distance of the last two samples of each track.
    pub video_delta: Option<u32>,
    pub audio_delta: Option<u32>,
    pub subtitle_delta: Option<u32>,
}

/// The later of two optional times.
pub open spec fn later(a: Option<u64>, b: Option<u64>) -> Option<u64> {
    match (a, b) {
        (Some(x), Some(y)) => Some(
            if x >= y {
                x
            } else {
                y
            },
        ),
        (Some(x), None) => Some(x),
        (None, y) => y,
    }
}

impl StreamingState {
    /// What stands in the way of a further video sample, if anything.
    pub open spec fn video_room(self) -> Option<MuxerError> {
        if self.front.video_track is None {
            Some(MuxerError::Io(InputFault::VideoNotConfigured))
        } else if self.front.video_frames >= self.front.limits.max_samples_per_track {
            Some(MuxerError::ResourceLimitExceeded { what: "video samples" })
        } else {
            None
        }
    }

    /// What stands in the way of a further audio sample, if anything.
    pub open spec fn audio_room(self) -> Option<MuxerError> {
        if self.front.audio_track is None {
            Some(MuxerError::AudioNotConfigured)
        } else if self.front.audio_frames >= self.front.limits.max_samples_per_track {
            Some(MuxerError::ResourceLimitExceeded { what: "audio samples" })
        } else {
            None
        }
    }

    /// What stands in the way of a further subtitle cue, if anything.
    pub open spec fn cue_room(self) -> Option<MuxerError> {
        if self.front.subtitle_frames >= self.front.limits.max_samples_per_track {
            Some(MuxerError::ResourceLimitExceeded { what: "subtitle samples" })
        } else {
            None
        }
    }

    /// The sample for a video frame on the media clock.
    pub open spec fn video_write(pts: u64, dts: u64, is_keyframe: bool, duration: Option<u32>)
        -> VideoWrite {
        VideoWrite {
            pts,
            dts,
            is_keyframe,
            duration,
            shown: mp4::time_of(pts),
            decoded: Some(mp4::time_of(dts)),
            step: None,
        }
    }

    /// The first fault of three, or the write.
    pub open spec fn decided<T>(
        self,
        fault: Option<MuxerError>,
        room: Option<MuxerError>,
        write: T,
    ) -> Result<T, MuxerError> {
        if self.front.finished {
            Err(MuxerError::AlreadyFinished)
        } else {
            match (fault, room) {
                (Some(error), _) => Err(error),
                (None, Some(error)) => Err(error),
                (None, None) => Ok(write),
            }
        }
    }

    /// The state after a prepared video sample, and its entry, which says
    /// where it goes.
    pub open spec fn after_video(
        self,
        write: VideoWrite,
        prepared: Result<(Seq<u8>, Option<u32>), Mp4WriterError>,
    ) -> (Result<StreamEntry, MuxerError>, StreamingState) {
        let index = self.front.video_frames;
        if self.stream.finished {
            (
                Err(mp4::mp4_error(self.front, Mp4WriterError::AlreadyFinalized, index)),
                self,
            )
        } else {
            match prepared {
                Err(error) => (Err(mp4::mp4_error(self.front, error, index)), self),
                Ok((converted, delta)) => match self.stream.fault(converted.len()) {
                    Some(error) => (Err(mp4::mp4_error(self.front, error, index)), self),
                    None => (
                        Ok(
                            self.stream.video_entry(
                                write.pts,
                                write.dts,
                                converted.len(),
                                write.is_keyframe,
                            ),
                        ),
                        StreamingState { stream: self.stream.video_timed(delta), ..self },
                    ),
                },
            }
        }
    }

    /// The state once a video sample is written.
    pub open spec fn video_committed(self, write: VideoWrite, entry: StreamEntry) -> StreamingState {
        let next = self.stream.with_video(entry);
        StreamingState {
            front: self.front.video_answered(write),
            stream: match write.duration {
                Some(duration) => next.video_timed(Some(duration)),
                None => next,
            },
            video_end: match write.duration {
                Some(duration) => Some(
                    streaming::capped_sum(write.pts as int, duration as int) as u64,
                ),
                None => self.video_end,
            },
            ..self
        }
    }

    /// The state after a prepared audio sample, and its entry, which says
    /// where it goes.
    pub open spec fn after_audio(
        self,
        write: AudioWrite,
        prepared: Result<(Seq<u8>, Option<u32>), Mp4WriterError>,
    ) -> (Result<StreamEntry, MuxerError>, StreamingState) {
        let index = self.front.audio_frames;
        if self.stream.finished {
            (
                Err(mp4::mp4_error(self.front, Mp4WriterError::AlreadyFinalized, index)),
                self,
            )
        } else {
            match prepared {
                Err(error) => (Err(mp4::mp4_error(self.front, error, index)), self),
                Ok((converted, delta)) => match self.stream.fault(converted.len()) {
                    Some(error) => (Err(mp4::mp4_error(self.front, error, index)), self),
                    None => (
                        Ok(self.stream.audio_entry(write.pts, converted.len())),
                        StreamingState { stream: self.stream.audio_timed(delta), ..self },
                    ),
                },
            }
        }
    }

    /// The state once an audio sample is written.
    pub open spec fn audio_committed(self, write: AudioWrite, entry: StreamEntry) -> StreamingState {
        let next = self.stream.with_audio(entry);
        StreamingState {
            front: self.front.audio_answered(write),
            stream: match write.duration {
                Some(duration) => next.audio_timed(Some(duration)),
                None => next,
            },
            audio_end: match write.duration {
                Some(duration) => Some(
                    streaming::capped_sum(write.pts as int, duration as int) as u64,
                ),
                None => self.audio_end,
            },
            ..self
        }
    }

    /// The entry of a prepared subtitle, which says where it goes.
    pub open spec fn subtitle_place(
        self,
        write: SubtitleWrite,
        prepared: Result<(Seq<u8>, u32), SubtitleRefusal>,
    ) -> Result<StreamEntry, MuxerError> {
        let closed = SubtitleRefusal::Writer(Mp4WriterError::AlreadyFinalized);
        match prepared {
            Err(SubtitleRefusal::TooLarge(len)) => Err(MuxerError::SubtitleTooLarge(len)),
            Err(refusal) => Err(
                mp4::refusal_error(
                    self.front,
                    if self.stream.finished {
                        closed
                    } else {
                        refusal
                    },
                ),
            ),
            Ok((converted, duration)) => match self.stream.fault(converted.len()) {
                Some(error) => Err(mp4::refusal_error(self.front, SubtitleRefusal::Writer(error))),
                None => Ok(self.stream.subtitle_entry(write.pts, duration, converted.len())),
            },
        }
    }

    /// The state once a subtitle is written.
    pub open spec fn subtitle_committed(
        self,
        write: SubtitleWrite,
        entry: StreamEntry,
    ) -> StreamingState {
        StreamingState {
            front: self.front.with_subtitle(write.shown),
            stream: self.stream.with_subtitle(entry),
            subtitle_end: Some(
                streaming::capped_sum(write.pts as int, write.duration as int) as u64,
            ),
            ..self
        }
    }

    /// What the tracks and the writer's answers say together.
    pub open spec fn summary(self, answers: TrackAnswers) -> TrackSummary {
        TrackSummary {
            has_video_config: answers.has_video_config,
            has_video_track: self.front.video_track is Some,
            has_audio_track: self.front.audio_track is Some,
            has_subtitle_track: self.front.subtitle is Some,
            video_delta: answers.video_delta,
            audio_delta: answers.audio_delta,
            subtitle_delta: answers.subtitle_delta,
        }
    }

    /// The state of a muxer that takes no more samples.
    pub open spec fn closed(self) -> StreamingState {
        StreamingState { front: Front { finished: true, ..self.front }, ..self }
    }

    /// Whether a plan says what is left to write at the end of the stream.
    pub open spec fn ends_with(self, answers: TrackAnswers, plan: FinishPlan) -> bool {
        let moov = self.stream.moov(self.summary(answers), self.video_codec());
        &&& plan.header_pos == self.stream.header_pos
        &&& plan.header@ == streaming::mdat_header(self.stream.mdat_size() as u64)
        &&& plan.end == self.stream.cursor
        &&& match plan.moov {
            Ok(parts) => moov == Ok::<MoovModel, InputFault>(parts@),
            Err(fault) => moov == Err::<MoovModel, InputFault>(fault),
        }
    }

    /// The codec of the video track.
    pub open spec fn video_codec(self) -> Option<VideoCodec> {
        match self.front.video_track {
            Some(track) => Some(track.codec),
            None => None,
        }
    }

    /// Whether the samples are counted and laid out one behind the other.
    pub open spec fn is_sound(self) -> bool {
        &&& self.front.is_sound()
        &&& self.front.video_frames == self.stream.video.len()
        &&& self.front.audio_frames == self.stream.audio.len()
        &&& self.front.subtitle_frames == self.stream.subtitles.len()
        &&& self.stream.laid_out()
    }
}

/// Streaming MP4 muxer.
#[derive(Debug)]
pub struct StreamingMuxer {
    front: Front,
    inner: SeekableStreamingWriter,
    video_end: Option<u64>,
    audio_end: Option<u64>,
    subtitle_end: Option<u64>,
}

impl View for StreamingMuxer {
    type V = StreamingState;

    closed spec fn view(&self) -> StreamingState {
        StreamingState {
            front: self.front,
            stream: self.inner@,
            video_end: self.video_end,
            audio_end: self.audio_end,
            subtitle_end: self.subtitle_end,
        }
    }
}

/// A prepared sample as its contents.
pub open spec fn prepared_bytes<D>(prepared: Result<(&[u8], D), Mp4WriterError>) -> Result<
    (Seq<u8>, D),
    Mp4WriterError,
> {
    match prepared {
        Ok((converted, delta)) => Ok((converted@, delta)),
        Err(error) => Err(error),
    }
}

/// A prepared subtitle as its contents.
pub open spec fn prepared_text(prepared: Result<(&[u8], u32), SubtitleRefusal>) -> Result<
    (Seq<u8>, u32),
    SubtitleRefusal,
> {
    match prepared {
        Ok((converted, duration)) => Ok((converted@, duration)),
        Err(refusal) => Err(refusal),
    }
}

/// The later of two optional times.
fn later_of(a: Option<u64>, b: Option<u64>) -> (time: Option<u64>)
    ensures
        time == later(a, b),
{
    match (a, b) {
        (Some(x), Some(y)) => if x >= y {
            Some(x)
        } else {
            Some(y)
        },
        (Some(x), None) => Some(x),
        (None, y) => y,
    }
}

impl StreamingMuxer {
    /// A muxer without samples, and the bytes to write first. `ftyp` is the
    /// first box of the file.
    pub(crate) fn start(front: Front, ftyp: &[u8]) -> (started: (Self, Vec<u8>))
        requires
            ftyp@.len() + streaming::STREAM_MDAT_HEADER_LEN <= u64::MAX,
            front.is_sound(),
            front.video_frames == 0,
            front.audio_frames == 0,
            front.subtitle_frames == 0,
        ensures
            started.0@.is_sound(),
            started.0@.front == front,
            started.0@.stream == streaming::empty_stream(ftyp@.len()),
            started.0@.video_end is None,
            started.0@.audio_end is None,
            started.0@.subtitle_end is None,
            started.1@ == ftyp@ + streaming::mdat_header(0),
    {
        let (inner, head) = SeekableStreamingWriter::begin(ftyp);
        (
            StreamingMuxer {
                front,
                inner,
                video_end: None,
                audio_end: None,
                subtitle_end: None,
            },
            head,
        )
    }

    /// Bytes handed on so far.
    pub fn bytes_written(&self) -> (bytes: u64)
        ensures
            bytes == self@.stream.bytes_written,
    {
        self.inner.bytes_written()
    }

    fn check_video_room(&self) -> (fault: Option<MuxerError>)
        ensures
            fault == self@.video_room(),
    {
        if self.front.video_track.is_none() {
            return Some(MuxerError::Io(InputFault::VideoNotConfigured));
        }
        if self.front.video_frames >= self.front.limits.max_samples_per_track as u64 {
            return Some(MuxerError::ResourceLimitExceeded { what: "video samples" });
        }
        None
    }

    fn check_audio_room(&self) -> (fault: Option<MuxerError>)
        ensures
            fault == self@.audio_room(),
    {
        if self.front.audio_track.is_none() {
            return Some(MuxerError::AudioNotConfigured);
        }
        if self.front.audio_frames >= self.front.limits.max_samples_per_track as u64 {
            return Some(MuxerError::ResourceLimitExceeded { what: "audio samples" });
        }
        None
    }

    /// A video frame that is decoded when it is shown, as a sample for the
    /// box writer.
    pub fn write_video(&self, pts: Seconds, data: &[u8], is_keyframe: bool) -> (result: Result<
        VideoWrite,
        MuxerError,
    >)
        ensures
            result == self@.decided(
                self@.front.video_fault(pts, data@.len()),
                self@.video_room(),
                StreamingState::video_write(
                    pts.in_ticks() as u64,
                    pts.in_ticks() as u64,
                    is_keyframe,
                    None,
                ),
            ),
            result matches Ok(write) ==> write.is_sound(),
    {
        if self.front.finished {
            return Err(MuxerError::AlreadyFinished);
        }
        match self.front.check_video(pts, data.len()) {
            Some(error) => return Err(error),
            None => {},
        }
        match self.check_video_room() {
            Some(error) => return Err(error),
            None => {},
        }
        let ticks: u64 = pts.ticks();
        let time: Seconds = Seconds::from_ticks(ticks);
        Ok(
            VideoWrite {
                pts: ticks,
                dts: ticks,
                is_keyframe,
                duration: None,
                shown: time,
                decoded: Some(time),
                step: None,
            },
        )
    }

    /// A video frame in decode order, as a sample for the box writer.
    pub fn write_video_with_dts(
        &self,
        pts: Seconds,
        dts: Seconds,
        data: &[u8],
        is_keyframe: bool,
    ) -> (result: Result<VideoWrite, MuxerError>)
        ensures
            result == self@.decided(
                self@.front.video_dts_fault(pts, dts, data@.len()),
                self@.video_room(),
                StreamingState::video_write(
                    pts.in_ticks() as u64,
                    dts.in_ticks() as u64,
                    is_keyframe,
                    None,
                ),
            ),
            result matches Ok(write) ==> write.is_sound(),
    {
        if self.front.finished {
            return Err(MuxerError::AlreadyFinished);
        }
        match self.front.check_video_dts(pts, dts, data.len()) {
            Some(error) => return Err(error),
            None => {},
        }
        match self.check_video_room() {
            Some(error) => return Err(error),
            None => {},
        }
        let pts_ticks: u64 = pts.ticks();
        let dts_ticks: u64 = dts.ticks();
        Ok(
            VideoWrite {
                pts: pts_ticks,
                dts: dts_ticks,
                is_keyframe,
                duration: None,
                shown: Seconds::from_ticks(pts_ticks),
                decoded: Some(Seconds::from_ticks(dts_ticks)),
                step: None,
            },
        )
    }

    /// A video sample with whole ticks, as a sample for the box writer.
    pub fn write_video_sample(&self, sample: EncodedSample<'_>) -> (result: Result<
        VideoWrite,
        MuxerError,
    >)
        requires
            self@.front.is_sound(),
        ensures
            ({
                let times = self@.front.video_sample(sample.timing, sample.data@.len());
                result == self@.decided(
                    times.err(),
                    self@.video_room(),
                    StreamingState::video_write(
                        times->Ok_0.pts,
                        times->Ok_0.dts,
                        sample.is_sync,
                        Some(times->Ok_0.duration),
                    ),
                )
            }),
            result matches Ok(write) ==> write.is_sound(),
    {
        if self.front.finished {
            return Err(MuxerError::AlreadyFinished);
        }
        let ticks: SampleTicks = match self.front.check_video_sample(
            sample.timing,
            sample.data.len(),
        ) {
            Ok(ticks) => ticks,
            Err(error) => return Err(error),
        };
        match self.check_video_room() {
            Some(error) => return Err(error),
            None => {},
        }
        Ok(
            VideoWrite {
                pts: ticks.pts,
                dts: ticks.dts,
                is_keyframe: sample.is_sync,
                duration: Some(ticks.duration),
                shown: Seconds::from_ticks(ticks.pts),
                decoded: Some(Seconds::from_ticks(ticks.dts)),
                step: None,
            },
        )
    }

    /// Takes a video sample as the file stores it, with its distance from the
    /// sample before, or why it cannot be stored. The sample is to be written
    /// at the offset of its entry.
    pub fn video_prepared(
        &mut self,
        write: VideoWrite,
        prepared: Result<(&[u8], Option<u32>), Mp4WriterError>,
    ) -> (result: Result<StreamEntry, MuxerError>)
        requires
            old(self)@.is_sound(),
        ensures
            final(self)@.is_sound(),
            (result, final(self)@) == old(self)@.after_video(write, prepared_bytes(prepared)),
    {
        let index: u64 = self.front.video_frames;
        let (converted, delta): (&[u8], Option<u32>) = match prepared {
            Ok(parts) => parts,
            Err(error) => return Err(
                if self.inner.is_finished() {
                    MuxerError::AlreadyFinished
                } else {
                    convert_mp4_error(&self.front, error, index)
                },
            ),
        };
        match self.inner.write_video_sample_with_dts(
            write.pts,
            write.dts,
            converted,
            write.is_keyframe,
            delta,
        ) {
            Ok(entry) => Ok(entry),
            Err(error) => Err(convert_mp4_error(&self.front, error, index)),
        }
    }

    /// Takes the outcome of writing a video sample at the offset of its entry.
    /// A sample that was not written leaves nothing behind.
    pub fn video_stored(
        &mut self,
        write: VideoWrite,
        entry: StreamEntry,
        outcome: Result<(), InputFault>,
    ) -> (result: Result<(), MuxerError>)
        requires
            old(self)@.is_sound(),
            write.is_sound(),
            entry.offset == old(self)@.stream.cursor,
        ensures
            final(self)@.is_sound(),
            match outcome {
                Ok(_) => result is Ok && final(self)@ == old(self)@.video_committed(write, entry),
                Err(fault) => result == Err::<(), MuxerError>(MuxerError::Io(fault))
                    && final(self)@ == old(self)@,
            },
    {
        match outcome {
            Ok(_) => {},
            Err(fault) => return Err(MuxerError::Io(fault)),
        }
        self.inner.video_stored(entry);
        match write.duration {
            Some(duration) => {
                self.inner.set_last_video_duration(duration);
                self.video_end = Some(write.pts.saturating_add(duration as u64));
            },
            None => {},
        }
        self.front.count_video(&write);
        Ok(())
    }

    /// An audio frame, as a sample for the box writer.
    pub fn write_audio(&self, pts: Seconds, data: &[u8]) -> (result: Result<AudioWrite, MuxerError>)
        ensures
            result == self@.decided(
                self@.front.audio_fault(pts, data@.len()),
                self@.audio_room(),
                AudioWrite {
                    pts: pts.in_ticks() as u64,
                    duration: None,
                    shown: mp4::time_of(pts.in_ticks() as u64),
                    step: None,
                },
            ),
    {
        if self.front.finished {
            return Err(MuxerError::AlreadyFinished);
        }
        match self.front.check_audio(pts, data.len()) {
            Some(error) => return Err(error),
            None => {},
        }
        match self.check_audio_room() {
            Some(error) => return Err(error),
            None => {},
        }
        let ticks: u64 = pts.ticks();
        Ok(
            AudioWrite {
                pts: ticks,
                duration: None,
                shown: Seconds::from_ticks(ticks),
                step: None,
            },
        )
    }

    /// An audio sample with whole ticks, as a sample for the box writer.
    pub fn write_audio_sample(&self, sample: EncodedSample<'_>) -> (result: Result<
        AudioWrite,
        MuxerError,
    >)
        ensures
            ({
                let times = self@.front.audio_sample(sample.timing, sample.data@.len());
                result == self@.decided(
                    times.err(),
                    self@.audio_room(),
                    AudioWrite {
                        pts: times->Ok_0.pts,
                        duration: Some(times->Ok_0.duration),
                        shown: mp4::time_of(times->Ok_0.pts),
                        step: None,
                    },
                )
            }),
    {
        if self.front.finished {
            return Err(MuxerError::AlreadyFinished);
        }
        let ticks: SampleTicks = match self.front.check_audio_sample(
            sample.timing,
            sample.data.len(),
        ) {
            Ok(ticks) => ticks,
            Err(error) => return Err(error),
        };
        match self.check_audio_room() {
            Some(error) => return Err(error),
            None => {},
        }
        Ok(
            AudioWrite {
                pts: ticks.pts,
                duration: Some(ticks.duration),
                shown: Seconds::from_ticks(ticks.pts),
                step: None,
            },
        )
    }

    /// Takes an audio sample as the file stores it, with its distance from the
    /// sample before, or why it cannot be stored. The sample is to be written
    /// at the offset of its entry.
    pub fn audio_prepared(
        &mut self,
        write: AudioWrite,
        prepared: Result<(&[u8], Option<u32>), Mp4WriterError>,
    ) -> (result: Result<StreamEntry, MuxerError>)
        requires
            old(self)@.is_sound(),
        ensures
            final(self)@.is_sound(),
            (result, final(self)@) == old(self)@.after_audio(write, prepared_bytes(prepared)),
    {
        let index: u64 = self.front.audio_frames;
        let (converted, delta): (&[u8], Option<u32>) = match prepared {
            Ok(parts) => parts,
            Err(error) => return Err(
                if self.inner.is_finished() {
                    MuxerError::AlreadyFinished
                } else {
                    convert_mp4_error(&self.front, error, index)
                },
            ),
        };
        match self.inner.write_audio_sample(write.pts, converted, delta) {
            Ok(entry) => Ok(entry),
            Err(error) => Err(convert_mp4_error(&self.front, error, index)),
        }
    }

    /// Takes the outcome of writing an audio sample at the offset of its
    /// entry. A sample that was not written leaves nothing behind.
    pub fn audio_stored(
        &mut self,
        write: AudioWrite,
        entry: StreamEntry,
        outcome: Result<(), InputFault>,
    ) -> (result: Result<(), MuxerError>)
        requires
            old(self)@.is_sound(),
            entry.offset == old(self)@.stream.cursor,
        ensures
            final(self)@.is_sound(),
            match outcome {
                Ok(_) => result is Ok && final(self)@ == old(self)@.audio_committed(write, entry),
                Err(fault) => result == Err::<(), MuxerError>(MuxerError::Io(fault))
                    && final(self)@ == old(self)@,
            },
    {
        match outcome {
            Ok(_) => {},
            Err(fault) => return Err(MuxerError::Io(fault)),
        }
        self.inner.audio_stored(entry);
        match write.duration {
            Some(duration) => {
                self.inner.set_last_audio_duration(duration);
                self.audio_end = Some(write.pts.saturating_add(duration as u64));
            },
            None => {},
        }
        self.front.count_audio(&write);
        Ok(())
    }

    /// A subtitle, as a timed text sample for the box writer.
    pub fn write_subtitle(&self, pts: Seconds, duration: Seconds, text: &str) -> (result: Result<
        SubtitleWrite,
        MuxerError,
    >)
        ensures
            result == self@.decided(
                self@.front.subtitle_fault(
                    pts,
                    duration,
                    vstd::utf8::encode_utf8(text@).len(),
                ),
                None,
                SubtitleWrite {
                    pts: pts.in_ticks() as u64,
                    duration: front::subtitle_ticks(duration),
                    shown: pts,
                },
            ),
    {
        if self.front.finished {
            return Err(MuxerError::AlreadyFinished);
        }
        match self.front.check_subtitle(pts, duration, text.as_bytes().len()) {
            Some(error) => return Err(error),
            None => {},
        }
        Ok(
            SubtitleWrite {
                pts: pts.ticks(),
                duration: to_subtitle_ticks(duration),
                shown: pts,
            },
        )
    }

    /// A subtitle cue with whole ticks, as a sample for the box writer, and
    /// how its text is stored.
    pub fn write_subtitle_cue(&self, cue: SubtitleCue<'_>) -> (result: Result<
        (SubtitleWrite, SubtitlePayload),
        MuxerError,
    >)
        ensures
            ({
                let text = vstd::utf8::encode_utf8(cue.text@);
                let fault = self@.front.cue_fault(cue.duration, text.len());
                match result {
                    Ok(write) => !self@.front.finished && fault is None && self@.cue_room() is None
                        && (self@.front.cue(cue.start, cue.duration) matches Ok(ticks) && write.0
                        == (SubtitleWrite {
                        pts: ticks.pts,
                        duration: ticks.duration,
                        shown: mp4::time_of(ticks.pts),
                    })) && mp4::is_cue_payload(write.1, self@.front.subtitle->0.codec, text),
                    Err(error) => if self@.front.finished {
                        error == MuxerError::AlreadyFinished
                    } else if fault is Some {
                        fault == Some(error)
                    } else if self@.cue_room() is Some {
                        self@.cue_room() == Some(error)
                    } else {
                        self@.front.cue(cue.start, cue.duration) == Err::<SampleTicks, MuxerError>(
                            error,
                        )
                    },
                }
            }),
    {
        if self.front.finished {
            return Err(MuxerError::AlreadyFinished);
        }
        let text: &[u8] = cue.text.as_bytes();
        match self.front.check_cue(cue.duration, text.len()) {
            Some(error) => return Err(error),
            None => {},
        }
        if self.front.subtitle_frames >= self.front.limits.max_samples_per_track as u64 {
            return Err(MuxerError::ResourceLimitExceeded { what: "subtitle samples" });
        }
        let ticks: SampleTicks = match self.front.cue_times(cue.start, cue.duration) {
            Ok(ticks) => ticks,
            Err(error) => return Err(error),
        };
        let payload: SubtitlePayload = cue_payload(self.front.subtitle.unwrap().codec, text);
        Ok(
            (
                SubtitleWrite {
                    pts: ticks.pts,
                    duration: ticks.duration,
                    shown: Seconds::from_ticks(ticks.pts),
                },
                payload,
            ),
        )
    }

    /// Takes a subtitle as the file stores it, with its stored duration, or
    /// why it cannot be stored. The subtitle is to be written at the offset of
    /// its entry.
    pub fn subtitle_prepared(
        &self,
        write: SubtitleWrite,
        prepared: Result<(&[u8], u32), SubtitleRefusal>,
    ) -> (result: Result<StreamEntry, MuxerError>)
        ensures
            result == self@.subtitle_place(write, prepared_text(prepared)),
    {
        let (converted, duration): (&[u8], u32) = match prepared {
            Ok(parts) => parts,
            Err(SubtitleRefusal::TooLarge(len)) => return Err(MuxerError::SubtitleTooLarge(len)),
            Err(refusal) => return Err(
                if self.inner.is_finished() {
                    MuxerError::AlreadyFinished
                } else {
                    convert_refusal(&self.front, refusal)
                },
            ),
        };
        match self.inner.write_subtitle_sample(write.pts, duration, converted) {
            Ok(entry) => Ok(entry),
            Err(error) => Err(convert_mp4_error(&self.front, error, self.front.subtitle_frames)),
        }
    }

    /// Takes the outcome of writing a subtitle at the offset of its entry. One
    /// that was not written leaves nothing behind.
    pub fn subtitle_stored(
        &mut self,
        write: SubtitleWrite,
        entry: StreamEntry,
        outcome: Result<(), InputFault>,
    ) -> (result: Result<(), MuxerError>)
        requires
            old(self)@.is_sound(),
            entry.offset == old(self)@.stream.cursor,
        ensures
            final(self)@.is_sound(),
            match outcome {
                Ok(_) => result is Ok && final(self)@ == old(self)@.subtitle_committed(
                    write,
                    entry,
                ),
                Err(fault) => result == Err::<(), MuxerError>(MuxerError::Io(fault))
                    && final(self)@ == old(self)@,
            },
    {
        match outcome {
            Ok(_) => {},
            Err(fault) => return Err(MuxerError::Io(fault)),
        }
        self.inner.subtitle_stored(entry);
        self.subtitle_end = Some(write.pts.saturating_add(write.duration as u64));
        self.front.count_subtitle(&write);
        Ok(())
    }

    /// Ends the stream: what is left to write, and where.
    pub fn finish(&mut self, answers: TrackAnswers) -> (result: Result<FinishPlan, MuxerError>)
        ensures
            match result {
                Ok(plan) => !old(self)@.front.finished && !old(self)@.stream.finished
                    && old(self)@.ends_with(answers, plan) && final(self)@ == (StreamingState {
                    stream: StreamModel { finished: true, ..old(self)@.stream },
                    ..old(self)@.closed()
                }),
                Err(error) => final(self)@ == old(self)@.closed() && if old(self)@.front.finished {
                    error == MuxerError::AlreadyFinished
                } else {
                    old(self)@.stream.finished && error == MuxerError::Io(
                        InputFault::StreamingFinished,
                    )
                },
            },
    {
        if self.front.finished {
            return Err(MuxerError::AlreadyFinished);
        }
        self.front.finished = true;
        let tracks = TrackSummary {
            has_video_config: answers.has_video_config,
            has_video_track: self.front.video_track.is_some(),
            has_audio_track: self.front.audio_track.is_some(),
            has_subtitle_track: self.front.subtitle.is_some(),
            video_delta: answers.video_delta,
            audio_delta: answers.audio_delta,
            subtitle_delta: answers.subtitle_delta,
        };
        let codec: Option<VideoCodec> = match self.front.video_track {
            Some(track) => Some(track.codec),
            None => None,
        };
        match self.inner.finish(tracks, codec) {
            Ok(plan) => Ok(plan),
            Err(fault) => Err(MuxerError::Io(fault)),
        }
    }

    /// Ends the stream.
    pub fn flush(&mut self, answers: TrackAnswers) -> (result: Result<FinishPlan, MuxerError>)
        ensures
            match result {
                Ok(plan) => !old(self)@.front.finished && !old(self)@.stream.finished
                    && old(self)@.ends_with(answers, plan) && final(self)@ == (StreamingState {
                    stream: StreamModel { finished: true, ..old(self)@.stream },
                    ..old(self)@.closed()
                }),
                Err(error) => final(self)@ == old(self)@.closed() && if old(self)@.front.finished {
                    error == MuxerError::AlreadyFinished
                } else {
                    old(self)@.stream.finished && error == MuxerError::Io(
                        InputFault::StreamingFinished,
                    )
                },
            },
    {
        self.finish(answers)
    }

    /// The statistics of a finished stream, once a `moov` box of `moov_len`
    /// bytes is written.
    pub fn finish_with_stats(&mut self, moov_len: u64) -> (stats: MuxerStats)
        ensures
            stats == (MuxerStats {
                video_frames: old(self)@.front.video_frames,
                audio_frames: old(self)@.front.audio_frames,
                subtitle_frames: old(self)@.front.subtitle_frames,
                duration_secs: mp4::time_of(
                    match later(
                        later(old(self)@.video_end, old(self)@.audio_end),
                        old(self)@.subtitle_end,
                    ) {
                        Some(end) => end,
                        None => 0,
                    },
                ),
                bytes_written: streaming::capped_sum(
                    old(self)@.stream.bytes_written as int,
                    moov_len as int,
                ) as u64,
            }),
            final(self)@ == (StreamingState {
                stream: StreamModel {
                    bytes_written: stats.bytes_written,
                    ..old(self)@.stream
                },
                ..old(self)@
            }),
    {
        let bytes_written: u64 = self.inner.moov_written(moov_len);
        let end: u64 = match later_of(
            later_of(self.video_end, self.audio_end),
            self.subtitle_end,
        ) {
            Some(end) => end,
            None => 0,
        };
        MuxerStats {
            video_frames: self.front.video_frames,
            audio_frames: self.front.audio_frames,
            subtitle_frames: self.front.subtitle_frames,
            duration_secs: Seconds::from_ticks(end),
            bytes_written,
        }
    }
}

} // verus!
