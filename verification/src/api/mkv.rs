//! Muxer for Matroska and WebM.

use vstd::prelude::*;
use crate::api::front::{self, to_subtitle_ticks, Front, SampleTicks};
use crate::api::{
    types, ContainerFormat, InputFault, Metadata, MuxerError, MuxerStats, RejectReason,
    RejectedCodec, SubtitleCodec,
};
use crate::api::types::MetadataModel;
use crate::codec::ass::{self, encode_block_payload, AssEvent};
use crate::muxer::ebml;
use crate::muxer::mkv::{self, FileModel, MkvContainer, MkvQueue, MkvWriter, MkvWriterError};
use crate::muxer::mp4::Mp4VideoTrack;
use crate::seconds::{self, Seconds, TICKS_PER_SECOND};
use crate::time::{self, EncodedSample, SampleTime, SubtitleCue};

verus! {

/// The state of a Matroska muxer.
pub struct MkvState {
    pub front: Front,
    pub queue: MkvQueue,
    pub container: MkvContainer,
    pub metadata: Option<MetadataModel>,
}

/// The container as one of all formats.
pub open spec fn format_of(container: MkvContainer) -> ContainerFormat {
    match container {
        MkvContainer::Matroska => ContainerFormat::Matroska,
        MkvContainer::WebM => ContainerFormat::WebM,
    }
}

/// The error of a muxer for an error of the writer.
pub open spec fn mkv_error(
    front: Front,
    container: MkvContainer,
    error: MkvWriterError,
    frame_index: u64,
) -> MuxerError {
    match error {
        MkvWriterError::NonIncreasingTimestamp => MuxerError::NonIncreasingVideoPts {
            prev_pts: front.last_video_pts,
            curr_pts: None,
            frame_index,
        },
        MkvWriterError::FirstFrameMustBeKeyframe => MuxerError::FirstVideoFrameMustBeKeyframe,
        MkvWriterError::FirstFrameMissingSpsPps => MuxerError::FirstVideoFrameMissingSpsPps,
        MkvWriterError::FirstFrameMissingSequenceHeader =>
            MuxerError::FirstAv1FrameMissingSequenceHeader,
        MkvWriterError::FirstFrameMissingVp9Config =>
            MuxerError::FirstVp9FrameMissingSequenceHeader,
        MkvWriterError::InvalidAdtsDetailed => MuxerError::InvalidAdtsDetailed { frame_index },
        MkvWriterError::InvalidOpusPacket => MuxerError::InvalidOpusPacket { frame_index },
        MkvWriterError::InvalidFlacFrame => MuxerError::InvalidFlacFrame { frame_index },
        MkvWriterError::MissingFlacStreaminfo => MuxerError::Io(InputFault::StreaminfoNotProvided),
        MkvWriterError::AudioNotEnabled => MuxerError::AudioNotConfigured,
        MkvWriterError::SubtitleNotEnabled => MuxerError::SubtitleNotConfigured,
        MkvWriterError::AlreadyFinalized => MuxerError::AlreadyFinished,
        MkvWriterError::UnsupportedForWebM { codec, reason } =>
            MuxerError::UnsupportedForContainer {
            codec: RejectedCodec::Named(codec),
            container: format_of(container),
            reason: RejectReason::Because(reason),
        },
        other => MuxerError::Io(InputFault::Matroska(other)),
    }
}

/// The error of a muxer for an error of writing the file.
pub open spec fn finish_error(container: MkvContainer, error: MkvWriterError) -> MuxerError {
    match error {
        MkvWriterError::UnsupportedForWebM { codec, reason } =>
            MuxerError::UnsupportedForContainer {
            codec: RejectedCodec::Configured,
            container: format_of(container),
            reason: RejectReason::NotInWebM { codec, reason },
        },
        other => MuxerError::Io(InputFault::Matroska(other)),
    }
}

/// The time after a number of ticks of a track. A timescale of zero counts as
/// one.
pub open spec fn track_time(ticks: i64, timescale: u32) -> Seconds {
    Seconds::of_ratio(
        ticks as int,
        if timescale == 0 {
            1
        } else {
            timescale as nat
        },
    )
}

/// The time after a number of ticks of a track.
fn to_track_time(ticks: i64, timescale: u32) -> (time: Seconds)
    ensures
        time == track_time(ticks, timescale),
{
    Seconds::from_ratio(
        ticks,
        if timescale == 0 {
            1
        } else {
            timescale
        },
    )
}

impl MkvState {
    /// The state after an attempt to write a video frame, and its outcome.
    pub open spec fn after_video(
        self,
        pts: Seconds,
        len: nat,
        stored: Seq<u8>,
        is_keyframe: bool,
        record: Option<Seq<u8>>,
    ) -> (Result<(), MuxerError>, MkvState) {
        let ticks = pts.in_ticks() as u64;
        match self.front.video_fault(pts, len) {
            Some(error) => (Err(error), self),
            None => match self.queue.video_fault(ticks, stored, is_keyframe, record) {
                Some(error) => (
                    Err(mkv_error(self.front, self.container, error, self.front.video_frames)),
                    self,
                ),
                None => (
                    Ok(()),
                    MkvState {
                        front: self.front.with_video(pts, None),
                        queue: self.queue.with_video(ticks, ticks, stored, is_keyframe, record),
                        ..self
                    },
                ),
            },
        }
    }

    /// The state after an attempt to write a video frame in decode order, and
    /// its outcome.
    pub open spec fn after_video_with_dts(
        self,
        pts: Seconds,
        dts: Seconds,
        len: nat,
        stored: Seq<u8>,
        is_keyframe: bool,
        record: Option<Seq<u8>>,
    ) -> (Result<(), MuxerError>, MkvState) {
        let pts_ticks = pts.in_ticks() as u64;
        let dts_ticks = dts.in_ticks() as u64;
        if self.front.finished {
            (Err(MuxerError::AlreadyFinished), self)
        } else {
            match self.front.video_dts_fault(pts, dts, len) {
                Some(error) => (Err(error), self),
                None => match self.queue.video_fault(dts_ticks, stored, is_keyframe, record) {
                    Some(error) => (
                        Err(mkv_error(self.front, self.container, error, self.front.video_frames)),
                        self,
                    ),
                    None => (
                        Ok(()),
                        MkvState {
                            front: self.front.with_video(pts, Some(dts)),
                            queue: self.queue.with_video(
                                pts_ticks,
                                dts_ticks,
                                stored,
                                is_keyframe,
                                record,
                            ),
                            ..self
                        },
                    ),
                },
            }
        }
    }

    /// The state after an attempt to write an audio frame, and its outcome. A
    /// frame whose data is refused still ends the one before it.
    pub open spec fn after_audio(self, pts: Seconds, data: Seq<u8>, raw: Option<Seq<u8>>) -> (
        Result<(), MuxerError>,
        MkvState,
    ) {
        let ticks = pts.in_ticks() as u64;
        if self.front.finished {
            (Err(MuxerError::AlreadyFinished), self)
        } else {
            match self.front.audio_fault(pts, data.len()) {
                Some(error) => (Err(error), self),
                None => match self.queue.audio_time_fault(ticks) {
                    Some(error) => (
                        Err(mkv_error(self.front, self.container, error, self.front.audio_frames)),
                        self,
                    ),
                    None => match self.queue.audio_data_fault(data, raw) {
                        Some(error) => (
                            Err(
                                mkv_error(
                                    self.front,
                                    self.container,
                                    error,
                                    self.front.audio_frames,
                                ),
                            ),
                            MkvState { queue: self.queue.audio_timed(ticks), ..self },
                        ),
                        None => (
                            Ok(()),
                            MkvState {
                                front: self.front.with_audio(pts),
                                queue: self.queue.with_audio(ticks, data, raw),
                                ..self
                            },
                        ),
                    },
                },
            }
        }
    }

    /// The state after an attempt to write a subtitle, and its outcome.
    pub open spec fn after_subtitle(self, pts: Seconds, duration: Seconds, data: Seq<u8>) -> (
        Result<(), MuxerError>,
        MkvState,
    ) {
        let ticks = pts.in_ticks() as u64;
        if self.front.finished {
            (Err(MuxerError::AlreadyFinished), self)
        } else {
            match self.front.subtitle_fault(pts, duration, data.len()) {
                Some(error) => (Err(error), self),
                None => match self.queue.subtitle_fault(ticks, data) {
                    Some(error) => (
                        Err(
                            mkv_error(
                                self.front,
                                self.container,
                                error,
                                self.front.subtitle_frames,
                            ),
                        ),
                        self,
                    ),
                    None => (
                        Ok(()),
                        MkvState {
                            front: self.front.with_subtitle(pts),
                            queue: self.queue.with_subtitle(
                                ticks,
                                front::subtitle_ticks(duration),
                                data,
                            ),
                            ..self
                        },
                    ),
                },
            }
        }
    }

    /// The state after an attempt to write a video sample with whole ticks of
    /// the track, and its outcome. Only decode times have to increase.
    pub open spec fn after_video_sample(
        self,
        timing: SampleTime,
        len: nat,
        stored: Seq<u8>,
        is_sync: bool,
        record: Option<Seq<u8>>,
    ) -> (Result<(), MuxerError>, MkvState) {
        if self.front.finished {
            (Err(MuxerError::AlreadyFinished), self)
        } else {
            match self.front.video_sample(timing, len) {
                Err(error) => (Err(error), self),
                Ok(ticks) => match self.queue.video_fault(ticks.dts, stored, is_sync, record) {
                    Some(error) => (
                        Err(mkv_error(self.front, self.container, error, self.front.video_frames)),
                        self,
                    ),
                    None => (
                        Ok(()),
                        MkvState {
                            front: self.front.with_video(
                                Seconds::of_ratio(ticks.pts as int, TICKS_PER_SECOND as nat),
                                Some(Seconds::of_ratio(ticks.dts as int, TICKS_PER_SECOND as nat)),
                            ),
                            queue: self.queue.with_video(
                                ticks.pts,
                                ticks.dts,
                                stored,
                                is_sync,
                                record,
                            ),
                            ..self
                        },
                    ),
                },
            }
        }
    }

    /// What the file is made from besides its samples.
    pub open spec fn file(self) -> FileModel {
        FileModel {
            size: match self.front.video_track {
                Some(track) => Some((track.width, track.height)),
                None => None,
            },
            title: match self.metadata {
                Some(metadata) => metadata.title,
                None => None,
            },
            creation_time: match self.metadata {
                Some(metadata) => metadata.creation_time,
                None => None,
            },
            language: match self.metadata {
                Some(metadata) => metadata.language,
                None => None,
            },
            container: self.container,
        }
    }

    /// The bytes of the file, or why there is none.
    pub open spec fn output(self) -> Result<Seq<u8>, MuxerError> {
        if self.front.finished {
            Err(MuxerError::AlreadyFinished)
        } else {
            match self.queue.file_fault(self.file()) {
                Some(error) => Err(finish_error(self.container, error)),
                None => Ok(self.queue.file(self.file())),
            }
        }
    }

    /// The state after an attempt to write the file. Even one that fails is the
    /// last.
    pub open spec fn after_finish(self) -> MkvState {
        if self.front.finished {
            self
        } else if self.queue.file_fault(self.file()) is Some {
            MkvState { queue: MkvQueue { finalized: true, ..self.queue }, ..self }
        } else {
            MkvState {
                front: Front { finished: true, ..self.front },
                queue: MkvQueue {
                    finalized: true,
                    bytes_written: self.queue.bytes_with(self.queue.file(self.file()).len()),
                    ..self.queue
                },
                ..self
            }
        }
    }

    /// What muxing produced, once the file has the given length.
    pub open spec fn stats(self, bytes: nat) -> MuxerStats {
        let end = mkv::later(
            mkv::ticks_of(mkv::track_end(self.queue.video, self.queue.video_delta)),
            mkv::ticks_of(mkv::track_end(self.queue.audio, self.queue.audio_delta)),
        );
        MuxerStats {
            video_frames: self.queue.video.len() as u64,
            audio_frames: self.queue.audio.len() as u64,
            subtitle_frames: self.queue.subtitles.len() as u64,
            duration_secs: Seconds::of_ratio(
                match end {
                    Some(end) => end,
                    None => 0,
                },
                TICKS_PER_SECOND as nat,
            ),
            bytes_written: self.queue.bytes_with(bytes),
        }
    }

    /// Whether the tracks are in order and their samples are counted.
    pub open spec fn is_sound(self) -> bool {
        &&& self.queue.is_sound()
        &&& self.front.is_sound()
        &&& self.front.video_frames == self.queue.video.len()
        &&& self.front.audio_frames == self.queue.audio.len()
        &&& self.front.subtitle_frames == self.queue.subtitles.len()
    }
}

/// The file is written once: behind a finish that succeeded the muxer is
/// finished, and behind one that failed the writer is, whatever the reason.
pub proof fn only_one_finish(state: MkvState)
    requires
        !state.front.finished,
    ensures
        state.after_finish().after_finish() == state.after_finish(),
        state.after_finish().output() == Err::<Seq<u8>, MuxerError>(
            if state.output() is Ok {
                MuxerError::AlreadyFinished
            } else {
                MuxerError::Io(InputFault::Matroska(MkvWriterError::FinalizedTwice))
            },
        ),
{
}

/// A video frame whose time is whole ticks is queued at exactly that time,
/// though it passes through seconds.
pub proof fn whole_ticks_are_kept(
    state: MkvState,
    ticks: u64,
    len: nat,
    stored: Seq<u8>,
    is_keyframe: bool,
    record: Option<Seq<u8>>,
)
    requires
        ticks < 0x4_0000_0000_0000,
        state.after_video(
            Seconds::of_ratio(ticks as int, TICKS_PER_SECOND as nat),
            len,
            stored,
            is_keyframe,
            record,
        ).0 is Ok,
    ensures
        state.after_video(
            Seconds::of_ratio(ticks as int, TICKS_PER_SECOND as nat),
            len,
            stored,
            is_keyframe,
            record,
        ).1.queue == state.queue.with_video(ticks, ticks, stored, is_keyframe, record),
{
    seconds::ticks_survive_seconds(ticks as nat);
}

/// Behind the first frame, a video sample needs no more than a decode time
/// after the last one: its presentation time may fall, as that of a B-frame
/// does. It is queued at its own times.
pub proof fn decode_order_is_enough(
    state: MkvState,
    timing: SampleTime,
    len: nat,
    stored: Seq<u8>,
    is_sync: bool,
    record: Option<Seq<u8>>,
)
    requires
        !state.front.finished && !state.queue.finalized,
        state.front.is_sound(),
        state.queue.video_codec is Some,
        state.queue.video_prev matches Some(prev) && timing.dts > prev,
        state.front.last_video_dts matches Some(prev) ==> timing.dts > prev.in_ticks(),
        0 < len <= state.front.limits.max_sample_size,
        timing.duration > 0 && timing.pts >= 0 && timing.dts >= 0,
        i32::MIN <= timing.pts - timing.dts <= i32::MAX,
    ensures
        state.after_video_sample(timing, len, stored, is_sync, record).0 is Ok,
        state.after_video_sample(timing, len, stored, is_sync, record).1.queue
            == state.queue.with_video(
            timing.pts as u64,
            timing.dts as u64,
            stored,
            is_sync,
            record,
        ),
{
    time::rescaled_to_same_scale(timing.pts as int, TICKS_PER_SECOND as int);
    time::rescaled_to_same_scale(timing.dts as int, TICKS_PER_SECOND as int);
    time::rescaled_to_same_scale(timing.duration as int, TICKS_PER_SECOND as int);
}

/// Matroska and WebM muxer.
pub struct MkvMuxer {
    front: Front,
    writer: MkvWriter,
    container: MkvContainer,
    metadata: Option<Metadata>,
}

impl View for MkvMuxer {
    type V = MkvState;

    closed spec fn view(&self) -> MkvState {
        MkvState {
            front: self.front,
            queue: self.writer@,
            container: self.container,
            metadata: types::metadata_of(self.metadata),
        }
    }
}

/// The error of a muxer for an error of the writer.
fn convert_mkv_error(
    front: &Front,
    container: MkvContainer,
    error: MkvWriterError,
    frame_index: u64,
) -> (converted: MuxerError)
    ensures
        converted == mkv_error(*front, container, error, frame_index),
{
    match error {
        MkvWriterError::NonIncreasingTimestamp => MuxerError::NonIncreasingVideoPts {
            prev_pts: front.last_video_pts,
            curr_pts: None,
            frame_index,
        },
        MkvWriterError::FirstFrameMustBeKeyframe => MuxerError::FirstVideoFrameMustBeKeyframe,
        MkvWriterError::FirstFrameMissingSpsPps => MuxerError::FirstVideoFrameMissingSpsPps,
        MkvWriterError::FirstFrameMissingSequenceHeader =>
            MuxerError::FirstAv1FrameMissingSequenceHeader,
        MkvWriterError::FirstFrameMissingVp9Config =>
            MuxerError::FirstVp9FrameMissingSequenceHeader,
        MkvWriterError::InvalidAdtsDetailed => MuxerError::InvalidAdtsDetailed { frame_index },
        MkvWriterError::InvalidOpusPacket => MuxerError::InvalidOpusPacket { frame_index },
        MkvWriterError::InvalidFlacFrame => MuxerError::InvalidFlacFrame { frame_index },
        MkvWriterError::MissingFlacStreaminfo => MuxerError::Io(InputFault::StreaminfoNotProvided),
        MkvWriterError::AudioNotEnabled => MuxerError::AudioNotConfigured,
        MkvWriterError::SubtitleNotEnabled => MuxerError::SubtitleNotConfigured,
        MkvWriterError::AlreadyFinalized => MuxerError::AlreadyFinished,
        MkvWriterError::UnsupportedForWebM { codec, reason } =>
            MuxerError::UnsupportedForContainer {
            codec: RejectedCodec::Named(codec),
            container: container_format(container),
            reason: RejectReason::Because(reason),
        },
        other => MuxerError::Io(InputFault::Matroska(other)),
    }
}

/// The container as one of all formats.
fn container_format(container: MkvContainer) -> (format: ContainerFormat)
    ensures
        format == format_of(container),
{
    match container {
        MkvContainer::Matroska => ContainerFormat::Matroska,
        MkvContainer::WebM => ContainerFormat::WebM,
    }
}

impl MkvMuxer {
    /// A muxer over a writer whose tracks are set.
    pub(crate) fn start(
        front: Front,
        writer: MkvWriter,
        container: MkvContainer,
        metadata: Option<Metadata>,
    ) -> (muxer: Self)
        ensures
            muxer@ == (MkvState {
                front,
                queue: writer@,
                container,
                metadata: types::metadata_of(metadata),
            }),
    {
        MkvMuxer { front, writer, container, metadata }
    }

    /// The container that the muxer writes.
    pub fn container(&self) -> (format: ContainerFormat)
        ensures
            format == format_of(self@.container),
    {
        container_format(self.container)
    }

    /// Writes a video frame that is decoded when it is shown. `data` is the
    /// encoded frame, `stored` the same as the file stores it, and `record`
    /// the decoder configuration found in it.
    pub fn write_video(
        &mut self,
        pts: Seconds,
        data: &[u8],
        stored: &[u8],
        is_keyframe: bool,
        record: Option<&[u8]>,
    ) -> (result: Result<(), MuxerError>)
        requires
            old(self)@.is_sound(),
        ensures
            final(self)@.is_sound(),
            (result, final(self)@) == old(self)@.after_video(
                pts,
                data@.len(),
                stored@,
                is_keyframe,
                ebml::opt_bytes(record),
            ),
    {
        match self.front.check_video(pts, data.len()) {
            Some(error) => return Err(error),
            None => {},
        }
        let ticks: u64 = pts.ticks();
        match self.writer.write_video_sample(ticks, stored, is_keyframe, record) {
            Ok(_) => {},
            Err(error) => return Err(
                convert_mkv_error(&self.front, self.container, error, self.front.video_frames),
            ),
        }
        self.count_video(pts, None);
        Ok(())
    }

    /// Writes a video frame in decode order.
    pub fn write_video_with_dts(
        &mut self,
        pts: Seconds,
        dts: Seconds,
        data: &[u8],
        stored: &[u8],
        is_keyframe: bool,
        record: Option<&[u8]>,
    ) -> (result: Result<(), MuxerError>)
        requires
            old(self)@.is_sound(),
        ensures
            final(self)@.is_sound(),
            (result, final(self)@) == old(self)@.after_video_with_dts(
                pts,
                dts,
                data@.len(),
                stored@,
                is_keyframe,
                ebml::opt_bytes(record),
            ),
    {
        if self.front.finished {
            return Err(MuxerError::AlreadyFinished);
        }
        match self.front.check_video_dts(pts, dts, data.len()) {
            Some(error) => return Err(error),
            None => {},
        }
        let pts_ticks: u64 = pts.ticks();
        let dts_ticks: u64 = dts.ticks();
        match self.writer.write_video_sample_with_dts(
            pts_ticks,
            dts_ticks,
            stored,
            is_keyframe,
            record,
        ) {
            Ok(_) => {},
            Err(error) => return Err(
                convert_mkv_error(&self.front, self.container, error, self.front.video_frames),
            ),
        }
        self.count_video(pts, Some(dts));
        Ok(())
    }

    /// Counts a video frame that the writer took.
    fn count_video(&mut self, pts: Seconds, dts: Option<Seconds>)
        requires
            old(self)@.front.video_frames + 1 == old(self)@.queue.video.len(),
        ensures
            final(self)@ == (MkvState {
                front: old(self)@.front.with_video(pts, dts),
                ..old(self)@
            }),
            final(self)@.front.video_frames == final(self)@.queue.video.len(),
    {
        let count: u64 = self.writer.video_sample_count();
        self.front.last_video_pts = Some(pts);
        if dts.is_some() {
            self.front.last_video_dts = dts;
        }
        self.front.video_frames = count;
    }

    /// Writes an audio frame. `raw` is the access unit inside an ADTS frame.
    pub fn write_audio(&mut self, pts: Seconds, data: &[u8], raw: Option<&[u8]>) -> (result: Result<
        (),
        MuxerError,
    >)
        requires
            old(self)@.is_sound(),
        ensures
            final(self)@.is_sound(),
            (result, final(self)@) == old(self)@.after_audio(pts, data@, ebml::opt_bytes(raw)),
    {
        if self.front.finished {
            return Err(MuxerError::AlreadyFinished);
        }
        match self.front.check_audio(pts, data.len()) {
            Some(error) => return Err(error),
            None => {},
        }
        let ticks: u64 = pts.ticks();
        match self.writer.write_audio_sample(ticks, data, raw) {
            Ok(_) => {},
            Err(error) => return Err(
                convert_mkv_error(&self.front, self.container, error, self.front.audio_frames),
            ),
        }
        let count: u64 = self.writer.audio_sample_count();
        self.front.last_audio_pts = Some(pts);
        self.front.audio_frames = count;
        Ok(())
    }

    /// Writes the payload of a subtitle.
    fn write_subtitle_bytes(&mut self, pts: Seconds, duration: Seconds, data: &[u8]) -> (result:
        Result<(), MuxerError>)
        requires
            old(self)@.is_sound(),
        ensures
            final(self)@.is_sound(),
            (result, final(self)@) == old(self)@.after_subtitle(pts, duration, data@),
    {
        if self.front.finished {
            return Err(MuxerError::AlreadyFinished);
        }
        match self.front.check_subtitle(pts, duration, data.len()) {
            Some(error) => return Err(error),
            None => {},
        }
        let ticks: u64 = pts.ticks();
        let length: u32 = to_subtitle_ticks(duration);
        match self.writer.write_subtitle_sample(ticks, length, data) {
            Ok(_) => {},
            Err(error) => return Err(
                convert_mkv_error(&self.front, self.container, error, self.front.subtitle_frames),
            ),
        }
        let count: u64 = self.writer.subtitle_sample_count();
        self.front.last_subtitle_pts = Some(pts);
        self.front.subtitle_frames = count;
        Ok(())
    }

    /// Writes a subtitle.
    pub fn write_subtitle(&mut self, pts: Seconds, duration: Seconds, text: &str) -> (result:
        Result<(), MuxerError>)
        requires
            old(self)@.is_sound(),
        ensures
            final(self)@.is_sound(),
            (result, final(self)@) == old(self)@.after_subtitle(
                pts,
                duration,
                vstd::utf8::encode_utf8(text@),
            ),
    {
        self.write_subtitle_bytes(pts, duration, text.as_bytes())
    }

    /// Writes an event of an SSA or ASS script; other subtitle tracks take
    /// none.
    pub fn write_ass_event(
        &mut self,
        pts: Seconds,
        duration: Seconds,
        read_order: u32,
        event: &AssEvent,
    ) -> (result: Result<(), MuxerError>)
        requires
            old(self)@.is_sound(),
        ensures
            final(self)@.is_sound(),
            ({
                let takes_events = old(self)@.front.subtitle matches Some(track)
                    && (track.codec is Ssa || track.codec is Ass);
                if takes_events {
                    (result, final(self)@) == old(self)@.after_subtitle(
                        pts,
                        duration,
                        vstd::utf8::encode_utf8(ass::block_text(read_order, event@)),
                    )
                } else {
                    result == Err::<(), MuxerError>(MuxerError::SubtitleNotConfigured)
                        && final(self)@ == old(self)@
                }
            }),
    {
        let takes_events: bool = match self.front.subtitle {
            Some(track) => match track.codec {
                SubtitleCodec::Ssa | SubtitleCodec::Ass => true,
                _ => false,
            },
            None => false,
        };
        if !takes_events {
            return Err(MuxerError::SubtitleNotConfigured);
        }
        let payload: Vec<u8> = encode_block_payload(read_order, event);
        self.write_subtitle_bytes(pts, duration, payload.as_slice())
    }

    /// Writes a video sample with whole ticks of the track.
    pub fn write_video_sample(
        &mut self,
        sample: EncodedSample<'_>,
        stored: &[u8],
        record: Option<&[u8]>,
    ) -> (result: Result<(), MuxerError>)
        requires
            old(self)@.is_sound(),
        ensures
            final(self)@.is_sound(),
            (result, final(self)@) == old(self)@.after_video_sample(
                sample.timing,
                sample.data@.len(),
                stored@,
                sample.is_sync,
                ebml::opt_bytes(record),
            ),
    {
        if self.front.finished {
            return Err(MuxerError::AlreadyFinished);
        }
        let ticks: SampleTicks = match self.front.check_video_sample(
            sample.timing,
            sample.data.len(),
        ) {
            Ok(ticks) => ticks,
            Err(error) => return Err(error),
        };
        match self.writer.write_video_sample_with_dts(
            ticks.pts,
            ticks.dts,
            stored,
            sample.is_sync,
            record,
        ) {
            Ok(_) => {},
            Err(error) => return Err(
                convert_mkv_error(&self.front, self.container, error, self.front.video_frames),
            ),
        }
        self.count_video(Seconds::from_ticks(ticks.pts), Some(Seconds::from_ticks(ticks.dts)));
        Ok(())
    }

    /// Writes an audio sample with whole ticks of the track.
    pub fn write_audio_sample(&mut self, sample: EncodedSample<'_>, raw: Option<&[u8]>) -> (result:
        Result<(), MuxerError>)
        requires
            old(self)@.is_sound(),
        ensures
            final(self)@.is_sound(),
            if sample.timing.duration == 0 {
                result == Err::<(), MuxerError>(MuxerError::ZeroDuration) && final(self)@
                    == old(self)@
            } else if sample.data@.len() > old(self)@.front.limits.max_sample_size {
                result == Err::<(), MuxerError>(
                    MuxerError::ResourceLimitExceeded { what: "audio sample" },
                ) && final(self)@ == old(self)@
            } else {
                (result, final(self)@) == old(self)@.after_audio(
                    track_time(sample.timing.pts, old(self)@.front.audio_timescale()),
                    sample.data@,
                    ebml::opt_bytes(raw),
                )
            },
    {
        if sample.timing.duration == 0 {
            return Err(MuxerError::ZeroDuration);
        }
        if sample.data.len() > self.front.limits.max_sample_size {
            return Err(MuxerError::ResourceLimitExceeded { what: "audio sample" });
        }
        let scale: u32 = match self.front.audio_track {
            Some(track) => track.timescale,
            None => 48_000,
        };
        self.write_audio(to_track_time(sample.timing.pts, scale), sample.data, raw)
    }

    /// Writes a subtitle cue with whole ticks of the track.
    pub fn write_subtitle_cue(&mut self, cue: SubtitleCue<'_>) -> (result: Result<(), MuxerError>)
        requires
            old(self)@.is_sound(),
        ensures
            final(self)@.is_sound(),
            ({
                let text = vstd::utf8::encode_utf8(cue.text@);
                let scale = old(self)@.front.subtitle_timescale();
                if cue.duration == 0 {
                    result == Err::<(), MuxerError>(MuxerError::ZeroDuration) && final(self)@
                        == old(self)@
                } else if text.len() > old(self)@.front.limits.max_subtitle_size {
                    result == Err::<(), MuxerError>(
                        MuxerError::SubtitleTooLarge(text.len() as usize),
                    ) && final(self)@ == old(self)@
                } else {
                    (result, final(self)@) == old(self)@.after_subtitle(
                        track_time(cue.start, scale),
                        track_time(cue.duration as i64, scale),
                        text,
                    )
                }
            }),
    {
        if cue.duration == 0 {
            return Err(MuxerError::ZeroDuration);
        }
        let text: &[u8] = cue.text.as_bytes();
        if text.len() > self.front.limits.max_subtitle_size {
            return Err(MuxerError::SubtitleTooLarge(text.len()));
        }
        let scale: u32 = match self.front.subtitle {
            Some(track) => track.timescale,
            None => 1_000,
        };
        let start = to_track_time(cue.start, scale);
        let duration = to_track_time(cue.duration as i64, scale);
        self.write_subtitle_bytes(start, duration, text)
    }

    /// Writes the next frame of a video without times.
    pub fn encode_video(
        &mut self,
        data: &[u8],
        stored: &[u8],
        record: Option<&[u8]>,
        duration_ms: u32,
    ) -> (result: Result<(), MuxerError>)
        requires
            old(self)@.is_sound(),
        ensures
            final(self)@.is_sound(),
            ({
                let front = old(self)@.front;
                let (outcome, next) = old(self)@.after_video(
                    front.video_clock,
                    data@.len(),
                    stored@,
                    front.next_is_keyframe(data@),
                    ebml::opt_bytes(record),
                );
                &&& result == outcome
                &&& final(self)@ == if outcome is Ok {
                    MkvState {
                        front: Front {
                            video_clock: front.video_clock.plus(
                                Seconds::of_ratio(duration_ms as int, 1_000),
                            ),
                            ..next.front
                        },
                        ..next
                    }
                } else {
                    next
                }
            }),
    {
        let pts: Seconds = self.front.video_clock;
        let is_keyframe: bool = self.front.guess_keyframe(data);
        match self.write_video(pts, data, stored, is_keyframe, record) {
            Ok(_) => {},
            Err(error) => return Err(error),
        }
        let step = Seconds::from_ratio(duration_ms as i64, 1_000);
        self.front.video_clock = pts.later_by(&step);
        Ok(())
    }

    /// Writes the next frame of audio without times.
    pub fn encode_audio(&mut self, data: &[u8], raw: Option<&[u8]>, samples: u32) -> (result:
        Result<(), MuxerError>)
        requires
            old(self)@.is_sound(),
        ensures
            final(self)@.is_sound(),
            ({
                let front = old(self)@.front;
                let (outcome, next) = old(self)@.after_audio(
                    front.audio_clock,
                    data@,
                    ebml::opt_bytes(raw),
                );
                match front.audio_track {
                    None => result == Err::<(), MuxerError>(MuxerError::AudioNotConfigured)
                        && final(self)@ == old(self)@,
                    Some(track) => {
                        &&& result == outcome
                        &&& final(self)@ == if outcome is Ok {
                            MkvState {
                                front: Front {
                                    audio_clock: front.audio_clock.plus(
                                        Seconds::of_ratio(
                                            samples as int,
                                            track.sample_rate as nat,
                                        ),
                                    ),
                                    ..next.front
                                },
                                ..next
                            }
                        } else {
                            next
                        }
                    },
                }
            }),
    {
        let sample_rate: u32 = match self.front.audio_track {
            Some(track) => track.sample_rate,
            None => return Err(MuxerError::AudioNotConfigured),
        };
        let pts: Seconds = self.front.audio_clock;
        match self.write_audio(pts, data, raw) {
            Ok(_) => {},
            Err(error) => return Err(error),
        }
        let step = Seconds::from_ratio(samples as i64, sample_rate);
        self.front.audio_clock = pts.later_by(&step);
        Ok(())
    }

    /// Writes the file; its bytes and statistics.
    pub fn finish_in_place_with_stats(&mut self) -> (result: Result<
        (Vec<u8>, MuxerStats),
        MuxerError,
    >)
        requires
            old(self)@.is_sound(),
            old(self)@.queue.fits(old(self)@.file()),
        ensures
            final(self)@.is_sound(),
            final(self)@ == old(self)@.after_finish(),
            match result {
                Ok(done) => old(self)@.output() == Ok::<Seq<u8>, MuxerError>(done.0@) && done.1
                    == old(self)@.stats(done.0@.len()),
                Err(error) => old(self)@.output() == Err::<Seq<u8>, MuxerError>(error),
            },
    {
        if self.front.finished {
            return Err(MuxerError::AlreadyFinished);
        }
        let video: Option<Mp4VideoTrack> = match self.front.video_track {
            Some(track) => Some(
                Mp4VideoTrack { width: track.width, height: track.height, language: None },
            ),
            None => None,
        };
        let end: Option<u64> = self.writer.max_end_pts();
        let file: Vec<u8> = match self.writer.finalize(
            video.as_ref(),
            self.metadata.as_ref(),
            self.container,
        ) {
            Ok(file) => file,
            Err(error) => return Err(
                match error {
                    MkvWriterError::UnsupportedForWebM { codec, reason } =>
                        MuxerError::UnsupportedForContainer {
                        codec: RejectedCodec::Configured,
                        container: container_format(self.container),
                        reason: RejectReason::NotInWebM { codec, reason },
                    },
                    other => MuxerError::Io(InputFault::Matroska(other)),
                },
            ),
        };
        self.front.finished = true;
        let duration: u64 = match end {
            Some(end) => end,
            None => 0,
        };
        let stats = MuxerStats {
            video_frames: self.writer.video_sample_count(),
            audio_frames: self.writer.audio_sample_count(),
            subtitle_frames: self.writer.subtitle_sample_count(),
            duration_secs: Seconds::from_ticks(duration),
            bytes_written: self.writer.bytes_written(),
        };
        Ok((file, stats))
    }

    /// Writes the file; its bytes.
    pub fn finish_in_place(&mut self) -> (result: Result<Vec<u8>, MuxerError>)
        requires
            old(self)@.is_sound(),
            old(self)@.queue.fits(old(self)@.file()),
        ensures
            final(self)@.is_sound(),
            final(self)@ == old(self)@.after_finish(),
            match result {
                Ok(file) => old(self)@.output() == Ok::<Seq<u8>, MuxerError>(file@),
                Err(error) => old(self)@.output() == Err::<Seq<u8>, MuxerError>(error),
            },
    {
        match self.finish_in_place_with_stats() {
            Ok((file, _)) => Ok(file),
            Err(error) => Err(error),
        }
    }

    /// Writes the file; its bytes.
    pub fn finish(self) -> (result: Result<Vec<u8>, MuxerError>)
        requires
            self@.is_sound(),
            self@.queue.fits(self@.file()),
        ensures
            match result {
                Ok(file) => self@.output() == Ok::<Seq<u8>, MuxerError>(file@),
                Err(error) => self@.output() == Err::<Seq<u8>, MuxerError>(error),
            },
    {
        let mut muxer = self;
        muxer.finish_in_place()
    }

    /// Writes the file; its bytes and statistics.
    pub fn finish_with_stats(self) -> (result: Result<(Vec<u8>, MuxerStats), MuxerError>)
        requires
            self@.is_sound(),
            self@.queue.fits(self@.file()),
        ensures
            match result {
                Ok(done) => self@.output() == Ok::<Seq<u8>, MuxerError>(done.0@) && done.1
                    == self@.stats(done.0@.len()),
                Err(error) => self@.output() == Err::<Seq<u8>, MuxerError>(error),
            },
    {
        let mut muxer = self;
        muxer.finish_in_place_with_stats()
    }

    /// Writes the file; its bytes.
    pub fn flush(self) -> (result: Result<Vec<u8>, MuxerError>)
        requires
            self@.is_sound(),
            self@.queue.fits(self@.file()),
        ensures
            match result {
                Ok(file) => self@.output() == Ok::<Seq<u8>, MuxerError>(file@),
                Err(error) => self@.output() == Err::<Seq<u8>, MuxerError>(error),
            },
    {
        self.finish()
    }
}

} // verus!
