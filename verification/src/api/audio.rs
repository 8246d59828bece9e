//! Muxers for the containers of a single audio track: Ogg and FLAC.

use vstd::prelude::*;
use crate::api::front::Front;
use crate::api::{types, ContainerFormat, InputFault, Metadata, MuxerError, MuxerStats};
use crate::api::types::MetadataModel;
use crate::muxer::flac::{self, FlacQueue, FlacWriter, FlacWriterError};
use crate::muxer::ogg::{self, OggQueue, OggWriter, OggWriterError};
use crate::seconds::Seconds;
use crate::time::{EncodedSample, SampleTime};

verus! {

/// Ticks per second of Opus.
pub const OPUS_RATE: u32 = 48_000;

/// The state of an Ogg muxer.
pub struct OggState {
    pub front: Front,
    pub queue: OggQueue,
    pub metadata: Option<MetadataModel>,
}

/// The state of a FLAC muxer.
pub struct FlacState {
    pub front: Front,
    pub queue: FlacQueue,
    pub metadata: Option<MetadataModel>,
}

/// The title of optional metadata.
pub open spec fn title(metadata: Option<MetadataModel>) -> Option<Seq<char>> {
    match metadata {
        Some(metadata) => metadata.title,
        None => None,
    }
}

/// The error of a muxer for an error of the Ogg writer.
pub open spec fn ogg_error(error: OggWriterError, frame_index: u64) -> MuxerError {
    match error {
        OggWriterError::InvalidOpusPacket => MuxerError::InvalidOpusPacket { frame_index },
        OggWriterError::InvalidOpusConfig { reason } => MuxerError::InvalidOpusConfig { reason },
        OggWriterError::AudioNotEnabled => MuxerError::AudioNotConfigured,
        OggWriterError::AlreadyFinalized => MuxerError::AlreadyFinished,
        other => MuxerError::Io(InputFault::Ogg(other)),
    }
}

/// The error of a muxer for an error of the FLAC writer.
pub open spec fn flac_error(error: FlacWriterError, frame_index: u64) -> MuxerError {
    match error {
        FlacWriterError::InvalidFlacFrame => MuxerError::InvalidFlacFrame { frame_index },
        FlacWriterError::AudioNotEnabled => MuxerError::AudioNotConfigured,
        FlacWriterError::AlreadyFinalized => MuxerError::AlreadyFinished,
        other => MuxerError::Io(InputFault::Flac(other)),
    }
}

/// The error for an audio sample with whole ticks before its time is looked
/// at, if any.
pub open spec fn sample_fault(front: Front, timing: SampleTime, len: nat) -> Option<MuxerError> {
    if timing.duration == 0 {
        Some(MuxerError::ZeroDuration)
    } else if len > front.limits.max_sample_size {
        Some(MuxerError::ResourceLimitExceeded { what: "audio sample" })
    } else {
        None
    }
}

fn check_sample(front: &Front, timing: SampleTime, len: usize) -> (fault: Option<MuxerError>)
    ensures
        fault == sample_fault(*front, timing, len as nat),
{
    if timing.duration == 0 {
        return Some(MuxerError::ZeroDuration);
    }
    if len > front.limits.max_sample_size {
        return Some(MuxerError::ResourceLimitExceeded { what: "audio sample" });
    }
    None
}

impl OggState {
    /// The state after an attempt to write a packet, and its outcome.
    pub open spec fn after_audio(self, pts: Seconds, data: Seq<u8>) -> (
        Result<(), MuxerError>,
        OggState,
    ) {
        let ticks = pts.in_ticks_at(OPUS_RATE) as u64;
        if self.front.finished {
            (Err(MuxerError::AlreadyFinished), self)
        } else {
            match self.front.audio_fault(pts, data.len()) {
                Some(error) => (Err(error), self),
                None => match self.queue.packet_fault(ticks, data) {
                    Some(error) => (Err(ogg_error(error, self.front.audio_frames)), self),
                    None => (
                        Ok(()),
                        OggState {
                            front: self.front.with_audio(pts),
                            queue: OggQueue {
                                packets: self.queue.packets.push(data),
                                last_pts: Some(ticks),
                                ..self.queue
                            },
                            ..self
                        },
                    ),
                },
            }
        }
    }

    /// The bytes of the file, or why there is none.
    pub open spec fn output(self) -> Result<Seq<u8>, MuxerError> {
        if self.front.finished {
            Err(MuxerError::AlreadyFinished)
        } else {
            match self.queue.file_fault() {
                Some(error) => Err(ogg_error(error, self.front.audio_frames)),
                None => Ok(
                    ogg::file_image(
                        ogg::effective_layout(self.queue.track->0),
                        title(self.metadata),
                        self.queue.packets,
                    ),
                ),
            }
        }
    }

    /// Whether the duration of the packets can be counted and each fits a page,
    /// as does the title.
    pub open spec fn fits(self) -> bool {
        &&& self.queue.packets.len() <= ogg::MAX_PACKETS
        &&& ogg::all_fit(self.queue.packets)
        &&& ogg::tags_packet(title(self.metadata)).len() <= ogg::MAX_PACKET_LEN
    }

    /// What muxing produced, once the file has the given length.
    pub open spec fn stats(self, bytes: int) -> MuxerStats {
        MuxerStats {
            video_frames: 0,
            audio_frames: self.queue.packets.len() as u64,
            subtitle_frames: 0,
            duration_secs: Seconds::of_ratio(
                ogg::samples_up_to(self.queue.packets, self.queue.packets.len() as int) as int,
                OPUS_RATE as nat,
            ),
            bytes_written: if self.queue.bytes_written + bytes > u64::MAX {
                u64::MAX
            } else {
                (self.queue.bytes_written + bytes) as u64
            },
        }
    }
}

/// Ogg Opus muxer.
pub struct OggMuxer {
    front: Front,
    writer: OggWriter,
    metadata: Option<Metadata>,
}

impl View for OggMuxer {
    type V = OggState;

    closed spec fn view(&self) -> OggState {
        OggState {
            front: self.front,
            queue: self.writer@,
            metadata: types::metadata_of(self.metadata),
        }
    }
}

fn convert_ogg_error(error: OggWriterError, frame_index: u64) -> (converted: MuxerError)
    ensures
        converted == ogg_error(error, frame_index),
{
    match error {
        OggWriterError::InvalidOpusPacket => MuxerError::InvalidOpusPacket { frame_index },
        OggWriterError::InvalidOpusConfig { reason } => MuxerError::InvalidOpusConfig { reason },
        OggWriterError::AudioNotEnabled => MuxerError::AudioNotConfigured,
        OggWriterError::AlreadyFinalized => MuxerError::AlreadyFinished,
        other => MuxerError::Io(InputFault::Ogg(other)),
    }
}

fn convert_flac_error(error: FlacWriterError, frame_index: u64) -> (converted: MuxerError)
    ensures
        converted == flac_error(error, frame_index),
{
    match error {
        FlacWriterError::InvalidFlacFrame => MuxerError::InvalidFlacFrame { frame_index },
        FlacWriterError::AudioNotEnabled => MuxerError::AudioNotConfigured,
        FlacWriterError::AlreadyFinalized => MuxerError::AlreadyFinished,
        other => MuxerError::Io(InputFault::Flac(other)),
    }
}

impl OggMuxer {
    /// Whether the queued packets are sound and counted.
    pub closed spec fn wf(&self) -> bool {
        &&& self.writer.wf()
        &&& self.front.audio_frames == self.writer@.packets.len()
    }

    /// A muxer over a writer whose track is set.
    pub(crate) fn start(front: Front, writer: OggWriter, metadata: Option<Metadata>) -> (muxer:
        Self)
        requires
            writer.wf(),
            front.audio_frames == writer@.packets.len(),
        ensures
            muxer.wf(),
            muxer@ == (OggState {
                front,
                queue: writer@,
                metadata: types::metadata_of(metadata),
            }),
    {
        OggMuxer { front, writer, metadata }
    }

    /// The container that the muxer writes.
    pub fn container(&self) -> (format: ContainerFormat)
        ensures
            format == ContainerFormat::Ogg,
    {
        ContainerFormat::Ogg
    }

    /// Writes an Opus packet.
    pub fn write_audio(&mut self, pts: Seconds, data: &[u8]) -> (result: Result<(), MuxerError>)
        requires
            old(self).wf(),
        ensures
            final(self).wf(),
            (result, final(self)@) == old(self)@.after_audio(pts, data@),
    {
        if self.front.finished {
            return Err(MuxerError::AlreadyFinished);
        }
        match self.front.check_audio(pts, data.len()) {
            Some(error) => return Err(error),
            None => {},
        }
        let ticks: u64 = pts.ticks_at(OPUS_RATE);
        match self.writer.write_audio_sample(ticks, data) {
            Ok(_) => {},
            Err(error) => return Err(convert_ogg_error(error, self.front.audio_frames)),
        }
        let count: u64 = self.writer.audio_sample_count();
        self.front.last_audio_pts = Some(pts);
        self.front.audio_frames = count;
        Ok(())
    }

    /// Writes an Opus packet with whole ticks of 1/48000 s.
    pub fn write_audio_sample(&mut self, sample: EncodedSample<'_>) -> (result: Result<
        (),
        MuxerError,
    >)
        requires
            old(self).wf(),
        ensures
            final(self).wf(),
            match sample_fault(old(self)@.front, sample.timing, sample.data@.len()) {
                Some(error) => result == Err::<(), MuxerError>(error) && final(self)@
                    == old(self)@,
                None => (result, final(self)@) == old(self)@.after_audio(
                    Seconds::of_ratio(sample.timing.pts as int, OPUS_RATE as nat),
                    sample.data@,
                ),
            },
    {
        match check_sample(&self.front, sample.timing, sample.data.len()) {
            Some(error) => return Err(error),
            None => {},
        }
        let pts = Seconds::from_ratio(sample.timing.pts, OPUS_RATE);
        self.write_audio(pts, sample.data)
    }

    /// Writes the file; its bytes and statistics.
    pub fn finish_with_stats(self) -> (result: Result<(Vec<u8>, MuxerStats), MuxerError>)
        requires
            self.wf(),
            self@.fits(),
        ensures
            match result {
                Ok(done) => self@.output() == Ok::<Seq<u8>, MuxerError>(done.0@) && done.1
                    == self@.stats(done.0@.len() as int),
                Err(error) => self@.output() == Err::<Seq<u8>, MuxerError>(error),
            },
    {
        if self.front.finished {
            return Err(MuxerError::AlreadyFinished);
        }
        let mut writer: OggWriter = self.writer;
        let total: u64 = writer.total_samples_48k();
        let frames: u64 = writer.audio_sample_count();
        let file: Vec<u8> = match writer.finalize(self.metadata.as_ref()) {
            Ok(file) => file,
            Err(error) => return Err(convert_ogg_error(error, self.front.audio_frames)),
        };
        let stats = MuxerStats {
            video_frames: 0,
            audio_frames: frames,
            subtitle_frames: 0,
            duration_secs: Seconds::from_count(total, OPUS_RATE),
            bytes_written: writer.bytes_written(),
        };
        Ok((file, stats))
    }

    /// Writes the file; its bytes.
    pub fn finish(self) -> (result: Result<Vec<u8>, MuxerError>)
        requires
            self.wf(),
            self@.fits(),
        ensures
            match result {
                Ok(file) => self@.output() == Ok::<Seq<u8>, MuxerError>(file@),
                Err(error) => self@.output() == Err::<Seq<u8>, MuxerError>(error),
            },
    {
        match self.finish_with_stats() {
            Ok((file, _)) => Ok(file),
            Err(error) => Err(error),
        }
    }
}

impl FlacState {
    /// The state after an attempt to write a frame, and its outcome. The
    /// frame's place in the stream is that of its coded number; its time must
    /// only not go backwards.
    pub open spec fn after_audio(self, pts: Seconds, data: Seq<u8>) -> (
        Result<(), MuxerError>,
        FlacState,
    ) {
        if self.front.finished {
            (Err(MuxerError::AlreadyFinished), self)
        } else {
            match self.front.audio_fault(pts, data.len()) {
                Some(error) => (Err(error), self),
                None => match self.queue.frame_fault(data) {
                    Some(error) => (Err(flac_error(error, self.front.audio_frames)), self),
                    None => (
                        Ok(()),
                        FlacState {
                            front: self.front.with_audio(pts),
                            queue: FlacQueue {
                                frames: self.queue.frames.push(data),
                                end: Some(
                                    flac::frame_end(
                                        data,
                                        flac::supplied_streaminfo(
                                            self.queue.track->0,
                                        )->0.max_block_size,
                                    ),
                                ),
                                ..self.queue
                            },
                            ..self
                        },
                    ),
                },
            }
        }
    }

    /// The bytes of the file, or why there is none.
    pub open spec fn output(self) -> Result<Seq<u8>, MuxerError> {
        if self.front.finished {
            Err(MuxerError::AlreadyFinished)
        } else {
            match self.queue.file_fault() {
                Some(error) => Err(flac_error(error, self.front.audio_frames)),
                None => Ok(self.queue.file(title(self.metadata))),
            }
        }
    }

    /// The sample rate of the track.
    pub open spec fn sample_rate(self) -> u32 {
        match self.front.audio_track {
            Some(track) => track.sample_rate,
            None => 0,
        }
    }

    /// What muxing produced, once the file has the given length.
    pub open spec fn stats(self, bytes: int) -> MuxerStats {
        MuxerStats {
            video_frames: 0,
            audio_frames: self.queue.frames.len() as u64,
            subtitle_frames: 0,
            duration_secs: Seconds::of_ratio(
                match self.queue.end {
                    Some(end) => end as int,
                    None => 0,
                },
                self.sample_rate() as nat,
            ),
            bytes_written: if self.queue.bytes_written + bytes > u64::MAX {
                u64::MAX
            } else {
                (self.queue.bytes_written + bytes) as u64
            },
        }
    }
}

/// Native FLAC muxer.
pub struct FlacMuxer {
    front: Front,
    writer: FlacWriter,
    metadata: Option<Metadata>,
}

impl View for FlacMuxer {
    type V = FlacState;

    closed spec fn view(&self) -> FlacState {
        FlacState {
            front: self.front,
            queue: self.writer@,
            metadata: types::metadata_of(self.metadata),
        }
    }
}

impl FlacMuxer {
    /// Whether the queued frames are counted.
    pub closed spec fn wf(&self) -> bool {
        self.front.audio_frames == self.writer@.frames.len()
    }

    /// A muxer over a writer whose track is set.
    pub(crate) fn start(front: Front, writer: FlacWriter, metadata: Option<Metadata>) -> (muxer:
        Self)
        requires
            front.audio_frames == writer@.frames.len(),
        ensures
            muxer.wf(),
            muxer@ == (FlacState {
                front,
                queue: writer@,
                metadata: types::metadata_of(metadata),
            }),
    {
        FlacMuxer { front, writer, metadata }
    }

    /// The container that the muxer writes.
    pub fn container(&self) -> (format: ContainerFormat)
        ensures
            format == ContainerFormat::Flac,
    {
        ContainerFormat::Flac
    }

    /// Writes a FLAC frame.
    pub fn write_audio(&mut self, pts: Seconds, data: &[u8]) -> (result: Result<(), MuxerError>)
        requires
            old(self).wf(),
        ensures
            final(self).wf(),
            (result, final(self)@) == old(self)@.after_audio(pts, data@),
    {
        if self.front.finished {
            return Err(MuxerError::AlreadyFinished);
        }
        match self.front.check_audio(pts, data.len()) {
            Some(error) => return Err(error),
            None => {},
        }
        match self.writer.write_audio_sample(pts.ticks(), data) {
            Ok(_) => {},
            Err(error) => return Err(convert_flac_error(error, self.front.audio_frames)),
        }
        let count: u64 = self.writer.audio_sample_count();
        self.front.last_audio_pts = Some(pts);
        self.front.audio_frames = count;
        Ok(())
    }

    /// Writes a FLAC frame whose time counts samples.
    pub fn write_audio_sample(&mut self, sample: EncodedSample<'_>) -> (result: Result<
        (),
        MuxerError,
    >)
        requires
            old(self).wf(),
        ensures
            final(self).wf(),
            match sample_fault(old(self)@.front, sample.timing, sample.data@.len()) {
                Some(error) => result == Err::<(), MuxerError>(error) && final(self)@
                    == old(self)@,
                None => (result, final(self)@) == old(self)@.after_audio(
                    Seconds::of_ratio(
                        sample.timing.pts as int,
                        old(self)@.sample_rate() as nat,
                    ),
                    sample.data@,
                ),
            },
    {
        match check_sample(&self.front, sample.timing, sample.data.len()) {
            Some(error) => return Err(error),
            None => {},
        }
        let rate: u32 = match self.front.audio_track {
            Some(track) => track.sample_rate,
            None => 0,
        };
        let pts = Seconds::from_ratio(sample.timing.pts, rate);
        self.write_audio(pts, sample.data)
    }

    /// Writes the file; its bytes and statistics.
    pub fn finish_with_stats(self) -> (result: Result<(Vec<u8>, MuxerStats), MuxerError>)
        requires
            self.wf(),
        ensures
            match result {
                Ok(done) => self@.output() == Ok::<Seq<u8>, MuxerError>(done.0@) && done.1
                    == self@.stats(done.0@.len() as int),
                Err(error) => self@.output() == Err::<Seq<u8>, MuxerError>(error),
            },
    {
        if self.front.finished {
            return Err(MuxerError::AlreadyFinished);
        }
        let rate: u32 = match self.front.audio_track {
            Some(track) => track.sample_rate,
            None => 0,
        };
        let mut writer: FlacWriter = self.writer;
        let total: u64 = writer.total_samples();
        let frames: u64 = writer.audio_sample_count();
        let file: Vec<u8> = match writer.finalize(self.metadata.as_ref()) {
            Ok(file) => file,
            Err(error) => return Err(convert_flac_error(error, self.front.audio_frames)),
        };
        let stats = MuxerStats {
            video_frames: 0,
            audio_frames: frames,
            subtitle_frames: 0,
            duration_secs: Seconds::from_count(total, rate),
            bytes_written: writer.bytes_written(),
        };
        Ok((file, stats))
    }

    /// Writes the file; its bytes.
    pub fn finish(self) -> (result: Result<Vec<u8>, MuxerError>)
        requires
            self.wf(),
        ensures
            match result {
                Ok(file) => self@.output() == Ok::<Seq<u8>, MuxerError>(file@),
                Err(error) => self@.output() == Err::<Seq<u8>, MuxerError>(error),
            },
    {
        match self.finish_with_stats() {
            Ok((file, _)) => Ok(file),
            Err(error) => Err(error),
        }
    }
}

} // verus!
