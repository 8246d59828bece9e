//! Native FLAC writer.
//!
//! Queues complete FLAC frames and lays out the file: the marker, a
//! STREAMINFO block with exact totals, a comment block, then the frames as
//! they came. Totals and frame sizes are those of the queued frames; the
//! audio checksum stays empty, since nothing is decoded.

use vstd::prelude::*;
use vstd::string::StringExecFns;
use crate::api::{AudioCodec, Metadata};
use crate::codec::flac::{
    self, build_streaminfo, frame_agrees, frame_first_sample, frame_footer_holds,
    parse_frame_header, parse_streaminfo, FlacStreaminfo, StreamShape, StreaminfoModel,
    BLOCK_TYPE_STREAMINFO, FLAC_MARKER,
};
use crate::muxer::mp4::Mp4AudioTrack;
use crate::muxer::ogg;
use crate::text::{self, push_decimal};
use crate::wire::{self, put_be24, put_le32, put_slice};

verus! {

/// Type of the comment metadata block.
pub const BLOCK_TYPE_VORBIS_COMMENT: u8 = 4;

/// Largest value of a frame size field.
pub const MAX_FRAME_SIZE: u32 = 0xFF_FFFF;

/// Errors of the FLAC writer.
#[derive(Debug, Clone, Copy, PartialEq, Eq, Structural)]
pub enum FlacWriterError {
    /// The audio sample is not a sound FLAC frame.
    InvalidFlacFrame,
    /// The frame disagrees with STREAMINFO.
    InconsistentFrame,
    /// The frame starts before the one in front of it ends.
    NonMonotonicFrame,
    /// There is no valid STREAMINFO.
    MissingStreaminfo,
    /// The track parameters are not those of STREAMINFO.
    StreaminfoMismatch { track_rate: u32, track_channels: u16, rate: u32, channels: u8 },
    /// There is no audio track.
    AudioNotEnabled,
    /// The codec is not FLAC.
    UnsupportedCodec { codec: AudioCodec },
    /// There are no frames.
    NoFrames,
    /// The file has been written.
    AlreadyFinalized,
    /// The file has been written, and was to be written again.
    FinalizedTwice,
}

impl FlacWriterError {
    /// The message text.
    pub open spec fn text(self) -> Seq<char> {
        match self {
            FlacWriterError::InvalidFlacFrame => "invalid FLAC frame"@,
            FlacWriterError::InconsistentFrame => "FLAC frame disagrees with STREAMINFO"@,
            FlacWriterError::NonMonotonicFrame => "FLAC coded numbers went backwards"@,
            FlacWriterError::MissingStreaminfo =>
                "valid FLAC STREAMINFO (34 bytes) must be provided using with_flac_streaminfo()"@,
            FlacWriterError::StreaminfoMismatch { track_rate, track_channels, rate, channels } =>
                "FLAC track parameters disagree with STREAMINFO (track ("@ + text::decimal(
                track_rate as int,
            ) + " Hz, "@ + text::decimal(track_channels as int) + " ch) vs STREAMINFO ("@
                + text::decimal(rate as int) + " Hz, "@ + text::decimal(channels as int)
                + " ch))"@,
            FlacWriterError::AudioNotEnabled => "audio track not enabled"@,
            FlacWriterError::UnsupportedCodec { codec } => "codec "@ + codec.name_text()
                + " cannot be carried in FLAC: native FLAC carries FLAC frames only"@,
            FlacWriterError::NoFrames =>
                "no FLAC frames queued: write at least one audio sample"@,
            FlacWriterError::AlreadyFinalized => "writer already finalised"@,
            FlacWriterError::FinalizedTwice => "flac writer already finalised"@,
        }
    }

    /// The error as a message.
    pub fn message(&self) -> (message: String)
        ensures
            message@ == self.text(),
    {
        match *self {
            FlacWriterError::InvalidFlacFrame => String::from_str("invalid FLAC frame"),
            FlacWriterError::InconsistentFrame => String::from_str(
                "FLAC frame disagrees with STREAMINFO",
            ),
            FlacWriterError::NonMonotonicFrame => String::from_str(
                "FLAC coded numbers went backwards",
            ),
            FlacWriterError::MissingStreaminfo => String::from_str(
                "valid FLAC STREAMINFO (34 bytes) must be provided using with_flac_streaminfo()",
            ),
            FlacWriterError::StreaminfoMismatch { track_rate, track_channels, rate, channels } => {
                let mut out = String::from_str(
                    "FLAC track parameters disagree with STREAMINFO (track (",
                );
                push_decimal(&mut out, track_rate as u64);
                out.append(" Hz, ");
                push_decimal(&mut out, track_channels as u64);
                out.append(" ch) vs STREAMINFO (");
                push_decimal(&mut out, rate as u64);
                out.append(" Hz, ");
                push_decimal(&mut out, channels as u64);
                out.append(" ch))");
                out
            },
            FlacWriterError::AudioNotEnabled => String::from_str("audio track not enabled"),
            FlacWriterError::UnsupportedCodec { codec } => {
                let mut out = String::from_str("codec ");
                out.append(codec.name());
                out.append(" cannot be carried in FLAC: native FLAC carries FLAC frames only");
                out
            },
            FlacWriterError::NoFrames => String::from_str(
                "no FLAC frames queued: write at least one audio sample",
            ),
            FlacWriterError::AlreadyFinalized => String::from_str("writer already finalised"),
            FlacWriterError::FinalizedTwice => String::from_str("flac writer already finalised"),
        }
    }
}

/// A metadata block: its header and body. Of a body longer than the length
/// field the header gives the low 24 bits.
pub open spec fn block_image(last: bool, block_type: u8, payload: Seq<u8>) -> Seq<u8> {
    seq![(if last { 0x80 } else { 0int } + block_type % 0x80) as u8] + wire::be24(
        (payload.len() % 0x1_0000_0000) as u32,
    ) + payload
}

/// Appends a metadata block.
fn put_metadata_block(out: &mut Vec<u8>, last: bool, block_type: u8, payload: &[u8])
    ensures
        final(out)@ == old(out)@ + block_image(last, block_type, payload@),
{
    let flag: u8 = if last {
        0x80
    } else {
        0
    };
    out.push(flag + block_type % 0x80);
    put_be24(out, (payload.len() as u64 % 0x1_0000_0000) as u32);
    put_slice(out, payload);
    assert(out@ =~= old(out)@ + block_image(last, block_type, payload@));
}

/// The body of the comment block: the vendor, and the title where it is not
/// empty.
pub open spec fn comment_bytes(title: Option<Seq<char>>) -> Seq<u8> {
    let vendor = wire::le32(6) + ogg::vendor();
    if title is None || title->0.len() == 0 {
        vendor + wire::le32(0)
    } else {
        let comment = ogg::title_key() + vstd::utf8::encode_utf8(title->0);
        vendor + wire::le32(1) + wire::le32((comment.len() % 0x1_0000_0000) as u32) + comment
    }
}

/// Builds the body of the comment block.
pub fn vorbis_comment_payload(title: Option<&str>) -> (payload: Vec<u8>)
    ensures
        payload@ == comment_bytes(
            match title {
                Some(title) => Some(title@),
                None => None,
            },
        ),
{
    let mut out: Vec<u8> = Vec::new();
    put_le32(&mut out, 6);
    let vendor: [u8; 6] = [0x6D, 0x75, 0x78, 0x66, 0x69, 0x6E];
    put_slice(&mut out, &vendor);
    assert(vendor@ =~= ogg::vendor());
    let named = match title {
        Some(title) => !title.is_empty(),
        None => false,
    };
    if named {
        let title = title.unwrap();
        let mut comment: Vec<u8> = vec![0x54, 0x49, 0x54, 0x4C, 0x45, 0x3D];
        assert(comment@ =~= ogg::title_key());
        put_slice(&mut comment, title.as_bytes());
        put_le32(&mut out, 1);
        put_le32(&mut out, (comment.len() as u64 % 0x1_0000_0000) as u32);
        put_slice(&mut out, comment.as_slice());
    } else {
        put_le32(&mut out, 0);
    }
    out
}

/// The number that a size field of 24 bits holds for a size.
pub open spec fn size_field(size: int) -> u32 {
    if size > MAX_FRAME_SIZE {
        MAX_FRAME_SIZE
    } else {
        size as u32
    }
}

/// The length of the shortest frame.
pub open spec fn shortest(frames: Seq<Seq<u8>>) -> int
    decreases frames.len(),
{
    if frames.len() <= 1 {
        frames[0].len() as int
    } else {
        vstd::math::min(shortest(frames.drop_last()), frames.last().len() as int)
    }
}

/// The length of the longest frame.
pub open spec fn longest(frames: Seq<Seq<u8>>) -> int
    decreases frames.len(),
{
    if frames.len() <= 1 {
        frames[0].len() as int
    } else {
        vstd::math::max(longest(frames.drop_last()), frames.last().len() as int)
    }
}

/// No frame is shorter than the shortest or longer than the longest.
pub proof fn frame_lengths_are_bounds(frames: Seq<Seq<u8>>, k: int)
    requires
        0 <= k < frames.len(),
    ensures
        0 <= shortest(frames) <= frames[k].len() <= longest(frames),
    decreases frames.len(),
{
    if frames.len() > 1 {
        if k < frames.len() - 1 {
            frame_lengths_are_bounds(frames.drop_last(), k);
        } else {
            frame_lengths_are_bounds(frames.drop_last(), 0);
        }
    }
}

/// The STREAMINFO body of the file: block sizes, rate, channels and depth as
/// supplied; frame sizes and total as counted.
pub open spec fn final_streaminfo(
    supplied: StreaminfoModel,
    min_frame: u32,
    max_frame: u32,
    total_samples: u64,
) -> Seq<u8> {
    let body = flac::streaminfo_bytes(
        supplied.min_block_size,
        supplied.max_block_size,
        supplied.sample_rate,
        supplied.channels,
        supplied.bits_per_sample,
        total_samples,
    );
    body.take(4) + wire::be24(min_frame) + wire::be24(max_frame) + body.skip(10)
}

/// The complete file.
pub open spec fn file_image(
    supplied: StreaminfoModel,
    total_samples: u64,
    title: Option<Seq<char>>,
    frames: Seq<Seq<u8>>,
) -> Seq<u8> {
    let info = final_streaminfo(
        supplied,
        size_field(shortest(frames)),
        size_field(longest(frames)),
        total_samples,
    );
    FLAC_MARKER@ + block_image(false, BLOCK_TYPE_STREAMINFO, info) + block_image(
        true,
        BLOCK_TYPE_VORBIS_COMMENT,
        comment_bytes(title),
    ) + wire::joined(frames)
}

/// The STREAMINFO of a track, if it has a valid one.
pub open spec fn supplied_streaminfo(track: Mp4AudioTrack) -> Option<StreaminfoModel> {
    match track.flac_streaminfo {
        Some(bytes) => flac::streaminfo_of(bytes@),
        None => None,
    }
}

/// Reads the STREAMINFO of a track.
fn track_streaminfo(track: &Mp4AudioTrack) -> (info: Option<FlacStreaminfo>)
    ensures
        info matches Some(found) ==> supplied_streaminfo(*track) == Some(found@),
        info is None ==> supplied_streaminfo(*track) is None,
{
    match &track.flac_streaminfo {
        Some(bytes) => parse_streaminfo(bytes.as_slice()),
        None => None,
    }
}

/// What stands in the way of a frame behind sample `prev_end`, if anything.
pub open spec fn frame_fault(
    data: Seq<u8>,
    shape: StreamShape,
    prev_end: Option<u64>,
) -> Option<FlacWriterError> {
    match flac::frame_header_of(data) {
        None => Some(FlacWriterError::InvalidFlacFrame),
        Some(header) => if data.len() < 6 || !flac::footer_holds(data) {
            Some(FlacWriterError::InvalidFlacFrame)
        } else if !flac::agrees(data, header, shape) {
            Some(FlacWriterError::InconsistentFrame)
        } else if prev_end matches Some(end) && flac::first_sample(header, shape.max_block_size) < end {
            Some(FlacWriterError::NonMonotonicFrame)
        } else {
            None
        },
    }
}

/// The sample behind a frame.
pub open spec fn frame_end(data: Seq<u8>, max_block_size: u16) -> u64 {
    let header = flac::frame_header_of(data)->0;
    (flac::first_sample(header, max_block_size) + header.block_size) as u64
}

/// What a FLAC writer has queued.
pub struct FlacQueue {
    /// The audio track, once set.
    pub track: Option<Mp4AudioTrack>,
    /// The frames, in order.
    pub frames: Seq<Seq<u8>>,
    /// The sample behind the last frame.
    pub end: Option<u64>,
    /// Whether the file has been written.
    pub finalized: bool,
    /// The length of the written file.
    pub bytes_written: u64,
}

impl FlacQueue {
    /// What stands in the way of a frame, if anything.
    pub open spec fn frame_fault(self, data: Seq<u8>) -> Option<FlacWriterError> {
        if self.finalized {
            Some(FlacWriterError::AlreadyFinalized)
        } else if self.track is None {
            Some(FlacWriterError::AudioNotEnabled)
        } else if self.track->0.codec != AudioCodec::Flac {
            Some(FlacWriterError::UnsupportedCodec { codec: self.track->0.codec })
        } else {
            match supplied_streaminfo(self.track->0) {
                None => Some(FlacWriterError::MissingStreaminfo),
                Some(info) => frame_fault(data, info.shape(), self.end),
            }
        }
    }

    /// What stands in the way of writing the file, if anything.
    pub open spec fn file_fault(self) -> Option<FlacWriterError> {
        if self.finalized {
            Some(FlacWriterError::FinalizedTwice)
        } else if self.track is None {
            Some(FlacWriterError::AudioNotEnabled)
        } else if self.track->0.codec != AudioCodec::Flac {
            Some(FlacWriterError::UnsupportedCodec { codec: self.track->0.codec })
        } else {
            let track = self.track->0;
            match supplied_streaminfo(track) {
                None => Some(FlacWriterError::MissingStreaminfo),
                Some(info) => if track.sample_rate != info.sample_rate || track.channels
                    != info.channels {
                    Some(
                        FlacWriterError::StreaminfoMismatch {
                            track_rate: track.sample_rate,
                            track_channels: track.channels,
                            rate: info.sample_rate,
                            channels: info.channels,
                        },
                    )
                } else if self.frames.len() == 0 {
                    Some(FlacWriterError::NoFrames)
                } else {
                    None
                },
            }
        }
    }

    /// The file that is written.
    pub open spec fn file(self, title: Option<Seq<char>>) -> Seq<u8> {
        file_image(
            supplied_streaminfo(self.track->0)->0,
            match self.end {
                Some(end) => end,
                None => 0,
            },
            title,
            self.frames,
        )
    }
}

/// Native FLAC writer.
pub struct FlacWriter {
    audio_track: Option<Mp4AudioTrack>,
    frames: Vec<Vec<u8>>,
    prev_end: Option<u64>,
    finalized: bool,
    bytes_written: u64,
}

spec fn queued_frames(frames: Seq<Vec<u8>>) -> Seq<Seq<u8>> {
    frames.map_values(|frame: Vec<u8>| frame@)
}

impl View for FlacWriter {
    type V = FlacQueue;

    closed spec fn view(&self) -> FlacQueue {
        FlacQueue {
            track: self.audio_track,
            frames: queued_frames(self.frames@),
            end: self.prev_end,
            finalized: self.finalized,
            bytes_written: self.bytes_written,
        }
    }
}

impl FlacWriter {
    /// A writer with no track and no frames.
    pub fn new() -> (writer: Self)
        ensures
            writer@ == (FlacQueue {
                track: None,
                frames: Seq::empty(),
                end: None,
                finalized: false,
                bytes_written: 0,
            }),
    {
        let writer = FlacWriter {
            audio_track: None,
            frames: Vec::new(),
            prev_end: None,
            finalized: false,
            bytes_written: 0,
        };
        assert(writer@.frames =~= Seq::<Seq<u8>>::empty());
        writer
    }

    /// The number of frames.
    pub fn audio_sample_count(&self) -> (count: u64)
        ensures
            count == self@.frames.len(),
    {
        self.frames.len() as u64
    }

    /// The length of the written file.
    pub fn bytes_written(&self) -> (bytes: u64)
        ensures
            bytes == self@.bytes_written,
    {
        self.bytes_written
    }

    /// The length of the stream in samples: where its last frame ends.
    pub fn total_samples(&self) -> (total: u64)
        ensures
            total == (match self@.end {
                Some(end) => end,
                None => 0,
            }),
    {
        match self.prev_end {
            Some(end) => end,
            None => 0,
        }
    }

    /// Sets the parameters of the audio track.
    pub fn enable_audio(&mut self, track: Mp4AudioTrack)
        ensures
            final(self)@ == (FlacQueue { track: Some(track), ..old(self)@ }),
    {
        self.audio_track = Some(track);
    }

    /// Queues one complete frame. Its place in the stream is that of its
    /// coded number; `_pts` is for the caller's own bookkeeping.
    pub fn write_audio_sample(&mut self, _pts: u64, data: &[u8]) -> (result: Result<
        (),
        FlacWriterError,
    >)
        ensures
            match old(self)@.frame_fault(data@) {
                Some(fault) => result == Err::<(), FlacWriterError>(fault) && final(self)@
                    == old(self)@,
                None => result is Ok && final(self)@ == (FlacQueue {
                    frames: old(self)@.frames.push(data@),
                    end: Some(
                        frame_end(
                            data@,
                            supplied_streaminfo(old(self)@.track->0)->0.max_block_size,
                        ),
                    ),
                    ..old(self)@
                }),
            },
    {
        if self.finalized {
            return Err(FlacWriterError::AlreadyFinalized);
        }
        let shape: StreamShape = match &self.audio_track {
            None => {
                return Err(FlacWriterError::AudioNotEnabled);
            },
            Some(track) => {
                if track.codec != AudioCodec::Flac {
                    return Err(FlacWriterError::UnsupportedCodec { codec: track.codec });
                }
                match track_streaminfo(track) {
                    None => {
                        return Err(FlacWriterError::MissingStreaminfo);
                    },
                    Some(info) => info.stream_shape(),
                }
            },
        };
        proof {
            flac::frame_header_bounds(data@);
            flac::first_sample_bound(data@, shape.max_block_size);
        }
        let header = match parse_frame_header(data) {
            Some(header) => header,
            None => {
                return Err(FlacWriterError::InvalidFlacFrame);
            },
        };
        if data.len() < 6 || !frame_footer_holds(data) {
            return Err(FlacWriterError::InvalidFlacFrame);
        }
        if !frame_agrees(data, &header, shape) {
            return Err(FlacWriterError::InconsistentFrame);
        }
        let sample_number: u64 = frame_first_sample(&header, shape.max_block_size);
        if let Some(end) = self.prev_end {
            if sample_number < end {
                return Err(FlacWriterError::NonMonotonicFrame);
            }
        }
        let ghost before = self.frames@;
        self.prev_end = Some(sample_number + header.block_size as u64);
        self.frames.push(vstd::slice::slice_to_vec(data));
        assert(queued_frames(self.frames@) =~= queued_frames(before).push(data@));
        Ok(())
    }

    /// Writes the file. Whether or not that succeeds, the writer takes no
    /// more frames.
    pub fn finalize(&mut self, metadata: Option<&Metadata>) -> (result: Result<
        Vec<u8>,
        FlacWriterError,
    >)
        ensures
            match old(self)@.file_fault() {
                Some(fault) => result == Err::<Vec<u8>, FlacWriterError>(fault) && final(self)@
                    == (FlacQueue { finalized: true, ..old(self)@ }),
                None => result matches Ok(file) && file@ == old(self)@.file(ogg::title_of(metadata))
                    && final(self)@ == (FlacQueue {
                    finalized: true,
                    bytes_written: if old(self)@.bytes_written + file@.len() > u64::MAX {
                        u64::MAX
                    } else {
                        (old(self)@.bytes_written + file@.len()) as u64
                    },
                    ..old(self)@
                }),
            },
    {
        if self.finalized {
            return Err(FlacWriterError::FinalizedTwice);
        }
        self.finalized = true;
        let file = match self.finalize_inner(metadata) {
            Ok(file) => file,
            Err(error) => {
                return Err(error);
            },
        };
        self.bytes_written = self.bytes_written.saturating_add(file.len() as u64);
        Ok(file)
    }

    /// The shortest and longest frame sizes, as their fields hold them.
    fn frame_sizes(&self) -> (sizes: (u32, u32))
        requires
            self.frames@.len() > 0,
        ensures
            sizes.0 == size_field(shortest(self@.frames)),
            sizes.1 == size_field(longest(self@.frames)),
    {
        let ghost all = self@.frames;
        let mut least: usize = self.frames[0].len();
        let mut most: usize = least;
        let mut i: usize = 1;
        assert(all[0] == self.frames@[0]@);
        assert(all.take(1)[0] == all[0]);
        while i < self.frames.len()
            invariant
                1 <= i <= self.frames@.len(),
                all == self@.frames,
                least == shortest(all.take(i as int)),
                most == longest(all.take(i as int)),
            decreases self.frames@.len() - i,
        {
            let len: usize = self.frames[i].len();
            proof {
                assert(all.take(i + 1).drop_last() =~= all.take(i as int));
                assert(all.take(i + 1).last() == self.frames@[i as int]@);
            }
            if len < least {
                least = len;
            }
            if len > most {
                most = len;
            }
            i += 1;
        }
        assert(all.take(i as int) =~= all);
        let limit: usize = MAX_FRAME_SIZE as usize;
        (
            if least > limit {
                MAX_FRAME_SIZE
            } else {
                least as u32
            },
            if most > limit {
                MAX_FRAME_SIZE
            } else {
                most as u32
            },
        )
    }

    /// Lays out the file.
    fn finalize_inner(&self, metadata: Option<&Metadata>) -> (result: Result<
        Vec<u8>,
        FlacWriterError,
    >)
        ensures
            match (FlacQueue { finalized: false, ..self@ }).file_fault() {
                Some(fault) => result == Err::<Vec<u8>, FlacWriterError>(fault),
                None => result matches Ok(file) && file@ == self@.file(ogg::title_of(metadata)),
            },
    {
        let track = match &self.audio_track {
            None => {
                return Err(FlacWriterError::AudioNotEnabled);
            },
            Some(track) => track,
        };
        if track.codec != AudioCodec::Flac {
            return Err(FlacWriterError::UnsupportedCodec { codec: track.codec });
        }
        let supplied = match track_streaminfo(track) {
            None => {
                return Err(FlacWriterError::MissingStreaminfo);
            },
            Some(info) => info,
        };
        if track.sample_rate != supplied.sample_rate || track.channels != supplied.channels as u16 {
            return Err(
                FlacWriterError::StreaminfoMismatch {
                    track_rate: track.sample_rate,
                    track_channels: track.channels,
                    rate: supplied.sample_rate,
                    channels: supplied.channels,
                },
            );
        }
        if self.frames.len() == 0 {
            return Err(FlacWriterError::NoFrames);
        }
        let (min_frame, max_frame): (u32, u32) = self.frame_sizes();
        let counted: [u8; 34] = build_streaminfo(
            supplied.min_block_size,
            supplied.max_block_size,
            supplied.sample_rate,
            supplied.channels,
            supplied.bits_per_sample,
            self.total_samples(),
        );
        let mut body: Vec<u8> = vec![counted[0], counted[1], counted[2], counted[3]];
        assert(body@ =~= counted@.take(4));
        put_be24(&mut body, min_frame);
        put_be24(&mut body, max_frame);
        let rest = vstd::slice::slice_subrange(&counted, 10, 34);
        assert(rest@ =~= counted@.skip(10));
        put_slice(&mut body, rest);
        let marker: [u8; 4] = FLAC_MARKER;
        let mut out: Vec<u8> = Vec::new();
        put_slice(&mut out, &marker);
        put_metadata_block(&mut out, false, BLOCK_TYPE_STREAMINFO, body.as_slice());
        let title: Option<&str> = match metadata {
            Some(metadata) => match &metadata.title {
                Some(title) => Some(title.as_str()),
                None => None,
            },
            None => None,
        };
        let comments = vorbis_comment_payload(title);
        put_metadata_block(&mut out, true, BLOCK_TYPE_VORBIS_COMMENT, comments.as_slice());
        let ghost front = out@;
        let ghost all = self@.frames;
        let mut i: usize = 0;
        assert(all.take(0) =~= Seq::<Seq<u8>>::empty());
        assert(front + wire::joined(all.take(0)) =~= front);
        while i < self.frames.len()
            invariant
                i <= self.frames@.len(),
                all == self@.frames,
                out@ == front + wire::joined(all.take(i as int)),
            decreases self.frames@.len() - i,
        {
            proof {
                assert(all.take(i + 1).drop_last() =~= all.take(i as int));
                assert(all.take(i + 1).last() == self.frames@[i as int]@);
            }
            put_slice(&mut out, self.frames[i].as_slice());
            assert(out@ =~= front + wire::joined(all.take(i + 1)));
            i += 1;
        }
        assert(all.take(i as int) =~= all);
        assert(front =~= FLAC_MARKER@ + block_image(false, BLOCK_TYPE_STREAMINFO, body@)
            + block_image(true, BLOCK_TYPE_VORBIS_COMMENT, comments@));
        Ok(out)
    }
}

} // verus!
