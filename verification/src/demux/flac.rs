//! Native FLAC demuxer: the marker, every metadata block, then the audio
//! frames. A frame runs from one plausible header to the next and must end
//! with its own checksum, so a chance sync code cannot shift the timing.

use vstd::prelude::*;
use vstd::string::StringExecFns;
use crate::codec::flac::{
    self, frame_agrees, frame_first_sample, frame_footer_holds, parse_frame_header,
    parse_streaminfo, split_metadata_blocks, BlockModel, FlacFrameHeader, FlacMetadataBlock,
    FlacStreaminfo, StreamShape, StreaminfoModel, FLAC_MARKER, STREAMINFO_LEN,
};
use crate::text::{self, push_decimal};
use crate::wire::starts_with;
use crate::wire;
use crate::seconds::Seconds;

verus! {

/// A demuxed frame. It is presented `sample_number / sample_rate` seconds
/// into the stream, with the rate of its STREAMINFO.
#[derive(Clone, Debug, PartialEq, Eq)]
pub struct FlacFrame {
    /// Number of the first sample.
    pub sample_number: u64,
    /// Block size in samples.
    pub block_size: u32,
    /// The complete frame.
    pub data: Vec<u8>,
}

/// A frame, its bytes as a sequence.
pub struct FrameModel {
    pub sample_number: int,
    pub block_size: u32,
    pub data: Seq<u8>,
}

impl View for FlacFrame {
    type V = FrameModel;

    open spec fn view(&self) -> FrameModel {
        FrameModel {
            sample_number: self.sample_number as int,
            block_size: self.block_size,
            data: self.data@,
        }
    }
}

impl FlacFrame {
    /// When the frame is presented, in a stream with the given sample rate.
    pub fn pts(&self, sample_rate: u32) -> (time: Seconds)
        ensures
            time == Seconds::of_ratio(self.sample_number as int, sample_rate as nat),
    {
        Seconds::from_count(self.sample_number, sample_rate)
    }
}

/// A demuxed native FLAC stream.
#[derive(Clone, Debug, PartialEq, Eq)]
pub struct FlacStream {
    /// The decoded STREAMINFO.
    pub streaminfo: FlacStreaminfo,
    /// The 34 bytes of the STREAMINFO body.
    pub streaminfo_raw: Vec<u8>,
    /// Every metadata block, in order.
    pub metadata_blocks: Vec<FlacMetadataBlock>,
    /// The audio frames, in order.
    pub frames: Vec<FlacFrame>,
}

/// A stream as mathematical values.
pub struct StreamModel {
    pub streaminfo: StreaminfoModel,
    pub streaminfo_raw: Seq<u8>,
    pub metadata_blocks: Seq<BlockModel>,
    pub frames: Seq<FrameModel>,
}

/// The views of a run of frames.
pub open spec fn frame_models(frames: Seq<FlacFrame>) -> Seq<FrameModel> {
    frames.map_values(|frame: FlacFrame| frame@)
}

impl View for FlacStream {
    type V = StreamModel;

    open spec fn view(&self) -> StreamModel {
        StreamModel {
            streaminfo: self.streaminfo@,
            streaminfo_raw: self.streaminfo_raw@,
            metadata_blocks: flac::block_models(self.metadata_blocks@),
            frames: frame_models(self.frames@),
        }
    }
}

/// Why a stream was refused.
#[derive(Clone, Copy, Debug, PartialEq, Eq, Structural)]
pub enum FlacError {
    /// There is no data.
    Empty,
    /// The stream marker is missing.
    BadMarker,
    /// Metadata or a frame is cut short.
    Truncated { offset: usize },
    /// The first block is not STREAMINFO.
    MissingStreaminfo,
    /// The STREAMINFO block holds nothing valid.
    InvalidStreaminfo,
    /// There are no audio frames.
    NoAudioFrames,
    /// A frame header disagrees with STREAMINFO.
    InconsistentFrame { frame: usize },
    /// A frame does not end with its checksum.
    BadFrameChecksum { frame: usize },
    /// A frame starts before the one in front of it ends.
    NonMonotonic { frame: usize },
}

impl FlacError {
    /// The message for a reader.
    pub open spec fn text(self) -> Seq<char> {
        match self {
            FlacError::Empty => "FLAC input is empty"@,
            FlacError::BadMarker => "missing fLaC stream marker"@,
            FlacError::Truncated { offset } => "truncated FLAC data at offset "@ + text::decimal(
                offset as int,
            ),
            FlacError::MissingStreaminfo => "FLAC stream has no STREAMINFO metadata block"@,
            FlacError::InvalidStreaminfo => "invalid FLAC STREAMINFO block"@,
            FlacError::NoAudioFrames => "FLAC stream contains no audio frames"@,
            FlacError::InconsistentFrame { frame } => "FLAC frame "@ + text::decimal(frame as int)
                + " disagrees with STREAMINFO (channels/rate/bits)"@,
            FlacError::BadFrameChecksum { frame } => "FLAC frame "@ + text::decimal(frame as int)
                + " CRC-16 mismatch"@,
            FlacError::NonMonotonic { frame } => "FLAC frame "@ + text::decimal(frame as int)
                + " coded number went backwards"@,
        }
    }

    /// Writes the message for a reader.
    pub fn message(&self) -> (message: String)
        ensures
            message@ == self.text(),
    {
        match self {
            FlacError::Empty => String::from_str("FLAC input is empty"),
            FlacError::BadMarker => String::from_str("missing fLaC stream marker"),
            FlacError::Truncated { offset } => {
                let mut out = String::from_str("truncated FLAC data at offset ");
                push_decimal(&mut out, *offset as u64);
                out
            },
            FlacError::MissingStreaminfo => String::from_str(
                "FLAC stream has no STREAMINFO metadata block",
            ),
            FlacError::InvalidStreaminfo => String::from_str("invalid FLAC STREAMINFO block"),
            FlacError::NoAudioFrames => String::from_str("FLAC stream contains no audio frames"),
            FlacError::InconsistentFrame { frame } => {
                let mut out = String::from_str("FLAC frame ");
                push_decimal(&mut out, *frame as u64);
                out.append(" disagrees with STREAMINFO (channels/rate/bits)");
                out
            },
            FlacError::BadFrameChecksum { frame } => {
                let mut out = String::from_str("FLAC frame ");
                push_decimal(&mut out, *frame as u64);
                out.append(" CRC-16 mismatch");
                out
            },
            FlacError::NonMonotonic { frame } => {
                let mut out = String::from_str("FLAC frame ");
                push_decimal(&mut out, *frame as u64);
                out.append(" coded number went backwards");
                out
            },
        }
    }
}

/// Whether a plausible frame starts at `i`.
pub open spec fn frame_starts_at(audio: Seq<u8>, i: int) -> bool {
    flac::frame_header_of(audio.skip(i)) is Some
}

/// The positions from `i` on at which a plausible frame starts, in order.
pub open spec fn starts_from(audio: Seq<u8>, i: int) -> Seq<int>
    decreases audio.len() - i,
{
    if !(0 <= i < audio.len()) {
        Seq::empty()
    } else if frame_starts_at(audio, i) {
        seq![i] + starts_from(audio, i + 1)
    } else {
        starts_from(audio, i + 1)
    }
}

/// Whether the two bytes at `i` are a sync code.
pub open spec fn sync_at(audio: Seq<u8>, i: int) -> bool {
    audio[i] == 0xFF && (audio[i + 1] == 0xF8 || audio[i + 1] == 0xF9)
}

/// What a frame slice becomes: the frame, or why it is refused. `prev_end` is
/// the sample behind the frame in front of it.
pub open spec fn frame_of(
    slice: Seq<u8>,
    index: int,
    shape: StreamShape,
    prev_end: Option<int>,
) -> Result<FrameModel, FlacError> {
    match flac::frame_header_of(slice) {
        None => Err(FlacError::Truncated { offset: 0 }),
        Some(header) => {
            let sample = flac::first_sample(header, shape.max_block_size);
            if slice.len() < 6 {
                Err(FlacError::Truncated { offset: 0 })
            } else if !flac::agrees(slice, header, shape) {
                Err(FlacError::InconsistentFrame { frame: index as usize })
            } else if !flac::footer_holds(slice) {
                Err(FlacError::BadFrameChecksum { frame: index as usize })
            } else if prev_end matches Some(end) && sample < end {
                Err(FlacError::NonMonotonic { frame: index as usize })
            } else {
                Ok(
                    FrameModel {
                        sample_number: sample,
                        block_size: header.block_size,
                        data: slice,
                    },
                )
            }
        },
    }
}

/// The `k`-th slice of the audio between frame starts; the last runs to the
/// end.
pub open spec fn frame_slice(audio: Seq<u8>, starts: Seq<int>, k: int) -> Seq<u8> {
    audio.subrange(
        starts[k],
        if k + 1 < starts.len() {
            starts[k + 1]
        } else {
            audio.len() as int
        },
    )
}

/// The sample behind the last of some frames.
pub open spec fn end_of(frames: Seq<FrameModel>) -> Option<int> {
    if frames.len() == 0 {
        None
    } else {
        Some(frames.last().sample_number + frames.last().block_size)
    }
}

/// The frames between the starts, behind those `done`.
pub open spec fn frames_from(
    audio: Seq<u8>,
    starts: Seq<int>,
    shape: StreamShape,
    done: Seq<FrameModel>,
) -> Result<Seq<FrameModel>, FlacError>
    decreases starts.len() - done.len(),
{
    let k = done.len() as int;
    if k >= starts.len() {
        Ok(done)
    } else {
        match frame_of(frame_slice(audio, starts, k), k, shape, end_of(done)) {
            Err(error) => Err(error),
            Ok(frame) => frames_from(audio, starts, shape, done.push(frame)),
        }
    }
}

/// The bytes that a run of metadata blocks takes up.
pub open spec fn blocks_len(blocks: Seq<BlockModel>) -> int
    decreases blocks.len(),
{
    if blocks.len() == 0 {
        0
    } else {
        blocks_len(blocks.drop_last()) + 4 + blocks.last().data.len()
    }
}

/// What a native FLAC file holds, or why it is refused.
pub open spec fn demuxed(data: Seq<u8>) -> Result<StreamModel, FlacError> {
    if data.len() == 0 {
        Err(FlacError::Empty)
    } else if !wire::begins_with(data, FLAC_MARKER@) {
        Err(FlacError::BadMarker)
    } else {
        match flac::blocks_from(data.skip(4), 0, Seq::empty()) {
            None => Err(FlacError::Truncated { offset: 4 }),
            Some(blocks) => if blocks[0].block_type != 0 || blocks[0].data.len()
                != STREAMINFO_LEN {
                Err(FlacError::MissingStreaminfo)
            } else {
                match flac::streaminfo_of(blocks[0].data) {
                    None => Err(FlacError::InvalidStreaminfo),
                    Some(streaminfo) => {
                        let audio = data.skip(4 + blocks_len(blocks));
                        let starts = starts_from(audio, 0);
                        if starts.len() == 0 {
                            Err(FlacError::NoAudioFrames)
                        } else {
                            match frames_from(
                                audio,
                                starts,
                                streaminfo.shape(),
                                Seq::empty(),
                            ) {
                                Err(error) => Err(error),
                                Ok(frames) => Ok(
                                    StreamModel {
                                        streaminfo,
                                        streaminfo_raw: blocks[0].data,
                                        metadata_blocks: blocks,
                                        frames,
                                    },
                                ),
                            }
                        }
                    },
                }
            },
        }
    }
}

/// The views of frame starts.
spec fn positions(starts: Seq<usize>) -> Seq<int> {
    starts.map_values(|start: usize| start as int)
}

/// No frame starts where there is no sync code.
proof fn lemma_no_start_without_sync(audio: Seq<u8>, i: int)
    requires
        0 <= i < audio.len(),
        i + 1 >= audio.len() || !sync_at(audio, i),
    ensures
        !frame_starts_at(audio, i),
{
    let rest = audio.skip(i);
    if rest.len() >= 2 {
        assert(rest[0] == audio[i] && rest[1] == audio[i + 1]);
    }
}

/// The first sync code at or after `from`.
fn find_sync(data: &[u8], from: usize) -> (result: Option<usize>)
    ensures
        result matches Some(i) ==> from <= i && i + 1 < data@.len() && sync_at(data@, i as int)
            && forall|k: int| from <= k < i ==> !#[trigger] sync_at(data@, k),
        result is None ==> forall|k: int|
            from <= k && k + 1 < data@.len() ==> !#[trigger] sync_at(data@, k),
{
    assert(data.len() == data@.len());
    if from >= data.len() {
        return None;
    }
    let mut i: usize = from;
    while i + 1 < data.len()
        invariant
            from <= i < data@.len(),
            data.len() == data@.len(),
            forall|k: int| from <= k < i ==> !#[trigger] sync_at(data@, k),
        decreases data@.len() - i,
    {
        if data[i] == 0xFF && (data[i + 1] == 0xF8 || data[i + 1] == 0xF9) {
            return Some(i);
        }
        i += 1;
    }
    None
}

/// Positions without a sync code add no frame start.
proof fn lemma_skip_to(audio: Seq<u8>, from: int, to: int)
    requires
        0 <= from <= to <= audio.len(),
        forall|k: int|
            from <= k < to && k + 1 < audio.len() ==> !#[trigger] sync_at(audio, k),
    ensures
        starts_from(audio, from) == starts_from(audio, to),
    decreases to - from,
{
    if from < to {
        if from + 1 < audio.len() {
            assert(!sync_at(audio, from));
        }
        lemma_no_start_without_sync(audio, from);
        lemma_skip_to(audio, from + 1, to);
    }
}

/// Finds every plausible frame start.
fn find_starts(audio: &[u8]) -> (starts: Vec<usize>)
    ensures
        positions(starts@) == starts_from(audio@, 0),
{
    assert(audio.len() == audio@.len());
    let mut starts: Vec<usize> = Vec::new();
    let mut pos: usize = 0;
    assert(positions(starts@) + starts_from(audio@, 0) =~= starts_from(audio@, 0));
    while pos < audio.len()
        invariant
            pos <= audio@.len(),
            audio.len() == audio@.len(),
            positions(starts@) + starts_from(audio@, pos as int) == starts_from(audio@, 0),
        decreases audio@.len() - pos,
    {
        match find_sync(audio, pos) {
            None => {
                proof {
                    lemma_skip_to(audio@, pos as int, audio@.len() as int);
                }
                pos = audio.len();
            },
            Some(sync) => {
                proof {
                    lemma_skip_to(audio@, pos as int, sync as int);
                }
                let rest = vstd::slice::slice_subrange(audio, sync, audio.len());
                assert(rest@ =~= audio@.skip(sync as int));
                if parse_frame_header(rest).is_some() {
                    let ghost before = starts@;
                    starts.push(sync);
                    assert(positions(starts@) =~= positions(before).push(sync as int));
                    assert(positions(starts@) + starts_from(audio@, sync + 1) =~= positions(before)
                        + (seq![sync as int] + starts_from(audio@, sync + 1)));
                }
                pos = sync + 1;
            },
        }
    }
    assert(positions(starts@) + starts_from(audio@, pos as int) =~= positions(starts@));
    starts
}

/// Frame starts lie within the audio, each behind the one before it.
pub proof fn starts_are_ordered(audio: Seq<u8>, i: int)
    requires
        0 <= i,
    ensures
        forall|k: int|
            0 <= k < starts_from(audio, i).len() ==> i <= #[trigger] starts_from(audio, i)[k]
                < audio.len() && frame_starts_at(audio, starts_from(audio, i)[k]),
        forall|j: int, k: int|
            0 <= j < k < starts_from(audio, i).len() ==> #[trigger] starts_from(audio, i)[j]
                < #[trigger] starts_from(audio, i)[k],
        starts_from(audio, i).len() <= audio.len(),
    decreases audio.len() - i,
{
    if i < audio.len() {
        starts_are_ordered(audio, i + 1);
        if frame_starts_at(audio, i) {
            let rest = starts_from(audio, i + 1);
            let all = starts_from(audio, i);
            assert(all =~= seq![i] + rest);
            assert forall|k: int| 0 <= k < all.len() implies i <= #[trigger] all[k] < audio.len()
                && frame_starts_at(audio, all[k]) by {
                if k > 0 {
                    assert(all[k] == rest[k - 1]);
                }
            }
            assert forall|j: int, k: int| 0 <= j < k < all.len() implies #[trigger] all[j]
                < #[trigger] all[k] by {
                assert(all[k] == rest[k - 1]);
                if j > 0 {
                    assert(all[j] == rest[j - 1]);
                }
            }
            lemma_starts_count(audio, i);
        } else {
            lemma_starts_count(audio, i);
        }
    }
}

proof fn lemma_starts_count(audio: Seq<u8>, i: int)
    requires
        0 <= i <= audio.len(),
    ensures
        starts_from(audio, i).len() <= audio.len() - i,
    decreases audio.len() - i,
{
    if i < audio.len() {
        lemma_starts_count(audio, i + 1);
    }
}

/// Verifies one slice and places it in the stream.
fn finish_frame(
    slice: &[u8],
    index: usize,
    shape: StreamShape,
    prev_end: Option<u64>,
) -> (result: Result<FlacFrame, FlacError>)
    ensures
        match (result, frame_of(
            slice@,
            index as int,
            shape,
            match prev_end {
                Some(end) => Some(end as int),
                None => None,
            },
        )) {
            (Ok(frame), Ok(model)) => frame@ == model,
            (Err(error), Err(expected)) => error == expected,
            _ => false,
        },
        result matches Ok(frame) ==> frame.sample_number + frame.block_size
            < 0x20_0000_0000_0000,
{
    proof {
        flac::frame_header_bounds(slice@);
        flac::first_sample_bound(slice@, shape.max_block_size);
    }
    let header = match parse_frame_header(slice) {
        Some(header) => header,
        None => {
            return Err(FlacError::Truncated { offset: 0 });
        },
    };
    if slice.len() < 6 {
        return Err(FlacError::Truncated { offset: 0 });
    }
    if !frame_agrees(slice, &header, shape) {
        return Err(FlacError::InconsistentFrame { frame: index });
    }
    if !frame_footer_holds(slice) {
        return Err(FlacError::BadFrameChecksum { frame: index });
    }
    let sample_number: u64 = frame_first_sample(&header, shape.max_block_size);
    if let Some(end) = prev_end {
        if sample_number < end {
            return Err(FlacError::NonMonotonic { frame: index });
        }
    }
    Ok(
        FlacFrame {
            sample_number,
            block_size: header.block_size,
            data: vstd::slice::slice_to_vec(slice),
        },
    )
}

/// Verifies and places every slice between the starts.
fn collect_frames(audio: &[u8], starts: &Vec<usize>, shape: StreamShape) -> (result: Result<
    Vec<FlacFrame>,
    FlacError,
>)
    requires
        positions(starts@) == starts_from(audio@, 0),
    ensures
        match (result, frames_from(audio@, positions(starts@), shape, Seq::empty())) {
            (Ok(frames), Ok(models)) => frame_models(frames@) == models,
            (Err(error), Err(expected)) => error == expected,
            _ => false,
        },
{
    assert(audio.len() == audio@.len());
    proof {
        starts_are_ordered(audio@, 0);
    }
    let mut frames: Vec<FlacFrame> = Vec::new();
    let mut prev_end: Option<u64> = None;
    let mut k: usize = 0;
    assert(frame_models(frames@) =~= Seq::empty());
    while k < starts.len()
        invariant
            k <= starts@.len(),
            k == frames@.len(),
            audio.len() == audio@.len(),
            positions(starts@) == starts_from(audio@, 0),
            forall|j: int|
                0 <= j < starts_from(audio@, 0).len() ==> 0 <= #[trigger] starts_from(audio@, 0)[j]
                    < audio@.len(),
            forall|i: int, j: int|
                0 <= i < j < starts_from(audio@, 0).len() ==> #[trigger] starts_from(audio@, 0)[i]
                    < #[trigger] starts_from(audio@, 0)[j],
            end_of(frame_models(frames@)) == (match prev_end {
                Some(end) => Some(end as int),
                None => None,
            }),
            frames_from(audio@, positions(starts@), shape, Seq::empty()) == frames_from(
                audio@,
                positions(starts@),
                shape,
                frame_models(frames@),
            ),
        decreases starts@.len() - k,
    {
        let start: usize = starts[k];
        assert(start as int == starts_from(audio@, 0)[k as int]) by {
            assert(positions(starts@)[k as int] == start);
        }
        let end: usize = if k + 1 < starts.len() {
            assert(positions(starts@)[k + 1] == starts@[k + 1]);
            starts[k + 1]
        } else {
            audio.len()
        };
        let slice = vstd::slice::slice_subrange(audio, start, end);
        assert(slice@ == frame_slice(audio@, positions(starts@), k as int));
        let ghost before = frames@;
        let frame = match finish_frame(slice, k, shape, prev_end) {
            Ok(frame) => frame,
            Err(error) => {
                return Err(error);
            },
        };
        prev_end = Some(frame.sample_number + frame.block_size as u64);
        frames.push(frame);
        assert(frame_models(frames@) =~= frame_models(before).push(frame@));
        k += 1;
    }
    Ok(frames)
}

/// The blocks of a chain, and the bytes they take up.
proof fn lemma_blocks(data: Seq<u8>, offset: int, done: Seq<BlockModel>)
    requires
        0 <= offset <= data.len(),
        blocks_len(done) == offset,
    ensures
        flac::blocks_from(data, offset, done) matches Some(blocks) ==> blocks.len() > done.len()
            && blocks_len(blocks) <= data.len() && blocks.take(done.len() as int) == done,
    decreases data.len() - offset,
{
    if offset <= data.len() - 4 {
        let len = wire::be24_at(data, offset + 1);
        let body = offset + 4;
        if body + len <= data.len() {
            let block = BlockModel {
                last: data[offset] >= 0x80,
                block_type: (data[offset] % 0x80) as u8,
                data: data.subrange(body, body + len),
            };
            let next = done.push(block);
            assert(next.drop_last() =~= done);
            assert(blocks_len(next) == body + len);
            assert(next.take(done.len() as int) =~= done);
            if !block.last && next.len() <= flac::MAX_METADATA_BLOCKS {
                lemma_blocks(data, body + len, next);
                if let Some(blocks) = flac::blocks_from(data, body + len, next) {
                    assert(blocks.take(done.len() as int) =~= blocks.take(
                        next.len() as int,
                    ).take(done.len() as int));
                }
            }
        }
    }
}

/// Prefixes of a chain take up no more than the whole.
proof fn lemma_blocks_len_prefix(blocks: Seq<BlockModel>, n: int)
    requires
        0 <= n <= blocks.len(),
    ensures
        0 <= blocks_len(blocks.take(n)) <= blocks_len(blocks),
    decreases blocks.len(),
{
    if n < blocks.len() {
        lemma_blocks_len_prefix(blocks.drop_last(), n);
        assert(blocks.drop_last().take(n) =~= blocks.take(n));
    } else {
        assert(blocks.take(n) =~= blocks);
        if n > 0 {
            lemma_blocks_len_prefix(blocks.drop_last(), n - 1);
            assert(blocks.drop_last().take(n - 1) =~= blocks.drop_last());
        }
    }
}

/// Demuxes a native FLAC file into its metadata and frames.
pub fn demux_flac(data: &[u8]) -> (result: Result<FlacStream, FlacError>)
    ensures
        match (result, demuxed(data@)) {
            (Ok(stream), Ok(model)) => stream@ == model,
            (Err(error), Err(expected)) => error == expected,
            _ => false,
        },
{
    assert(data.len() == data@.len());
    if data.len() == 0 {
        return Err(FlacError::Empty);
    }
    let marker: [u8; 4] = FLAC_MARKER;
    if !starts_with(data, &marker) {
        return Err(FlacError::BadMarker);
    }
    let rest = vstd::slice::slice_subrange(data, 4, data.len());
    assert(rest@ =~= data@.skip(4));
    let blocks = match split_metadata_blocks(rest) {
        Some(blocks) => blocks,
        None => {
            return Err(FlacError::Truncated { offset: 4 });
        },
    };
    let ghost models = flac::block_models(blocks@);
    proof {
        lemma_blocks(rest@, 0, Seq::empty());
        assert(models.len() > 0);
        assert(models[0] == blocks@[0]@);
    }
    if blocks[0].block_type != 0 || blocks[0].data.len() != STREAMINFO_LEN {
        return Err(FlacError::MissingStreaminfo);
    }
    let streaminfo_raw: Vec<u8> = vstd::slice::slice_to_vec(blocks[0].data.as_slice());
    let streaminfo = match parse_streaminfo(blocks[0].data.as_slice()) {
        Some(streaminfo) => streaminfo,
        None => {
            return Err(FlacError::InvalidStreaminfo);
        },
    };
    let mut offset: usize = 4;
    let mut i: usize = 0;
    while i < blocks.len()
        invariant
            i <= blocks@.len(),
            models == flac::block_models(blocks@),
            offset == 4 + blocks_len(models.take(i as int)),
            4 + blocks_len(models) <= data@.len(),
            data.len() == data@.len(),
        decreases blocks@.len() - i,
    {
        proof {
            lemma_blocks_len_prefix(models, i + 1);
            assert(models.take(i + 1).drop_last() =~= models.take(i as int));
            assert(models.take(i + 1).last() == blocks@[i as int]@);
        }
        offset = offset + (4 + blocks[i].data.len());
        i += 1;
    }
    assert(models.take(i as int) =~= models);
    let audio = vstd::slice::slice_subrange(data, offset, data.len());
    assert(audio@ =~= data@.skip(4 + blocks_len(models)));
    let starts = find_starts(audio);
    if starts.len() == 0 {
        return Err(FlacError::NoAudioFrames);
    }
    match collect_frames(audio, &starts, streaminfo.stream_shape()) {
        Err(error) => Err(error),
        Ok(frames) => Ok(
            FlacStream { streaminfo, streaminfo_raw, metadata_blocks: blocks, frames },
        ),
    }
}

/// Every frame of a stream is its slice, placed behind the frames before it.
pub proof fn lemma_frames_from(
    audio: Seq<u8>,
    starts: Seq<int>,
    shape: StreamShape,
    done: Seq<FrameModel>,
)
    requires
        done.len() <= starts.len(),
    ensures
        frames_from(audio, starts, shape, done) matches Ok(frames) ==> frames.len()
            == starts.len() && frames.take(done.len() as int) == done && forall|k: int|
            done.len() <= k < frames.len() ==> frame_of(
                frame_slice(audio, starts, k),
                k,
                shape,
                end_of(frames.take(k)),
            ) == Ok::<FrameModel, FlacError>(#[trigger] frames[k]),
    decreases starts.len() - done.len(),
{
    let n = done.len() as int;
    if n < starts.len() {
        if let Ok(frame) = frame_of(
            frame_slice(audio, starts, n),
            n,
            shape,
            end_of(done),
        ) {
            let next = done.push(frame);
            lemma_frames_from(audio, starts, shape, next);
            if let Ok(frames) = frames_from(audio, starts, shape, next) {
                assert(frames.take(n) =~= frames.take(n + 1).take(n));
                assert(next.take(n) =~= done);
                assert(frames[n] == frames.take(n + 1)[n]);
            }
        }
    } else {
        assert(done.take(n) =~= done);
    }
}

/// No demuxed frame starts before the one in front of it ends, so the
/// presentation times never decrease.
pub proof fn demuxed_frames_do_not_overlap(data: Seq<u8>, k: int)
    requires
        demuxed(data) is Ok,
        0 <= k < demuxed(data)->Ok_0.frames.len() - 1,
    ensures
        demuxed(data)->Ok_0.frames[k].sample_number + demuxed(data)->Ok_0.frames[k].block_size
            <= demuxed(data)->Ok_0.frames[k + 1].sample_number,
{
    let blocks = flac::blocks_from(data.skip(4), 0, Seq::empty())->0;
    let shape = flac::streaminfo_of(blocks[0].data)->0.shape();
    let audio = data.skip(4 + blocks_len(blocks));
    let starts = starts_from(audio, 0);
    lemma_frames_from(audio, starts, shape, Seq::empty());
    let frames = demuxed(data)->Ok_0.frames;
    assert(frame_of(
        frame_slice(audio, starts, k + 1),
        k + 1,
        shape,
        end_of(frames.take(k + 1)),
    ) == Ok::<FrameModel, FlacError>(frames[k + 1]));
    assert(frames.take(k + 1).last() == frames[k]);
}

/// The bytes of some frames, one after the other.
pub open spec fn frames_image(frames: Seq<FrameModel>) -> Seq<u8>
    decreases frames.len(),
{
    if frames.len() == 0 {
        Seq::empty()
    } else {
        frames_image(frames.drop_last()) + frames.last().data
    }
}

/// The demuxed frames hold every byte from the first frame start to the end
/// of the file.
pub proof fn demuxed_frames_cover_audio(data: Seq<u8>)
    requires
        demuxed(data) is Ok,
    ensures
        ({
            let stream = demuxed(data)->Ok_0;
            let audio = data.skip(4 + blocks_len(stream.metadata_blocks));
            &&& stream.frames.len() > 0
            &&& frames_image(stream.frames) == audio.skip(starts_from(audio, 0)[0])
        }),
{
    let blocks = flac::blocks_from(data.skip(4), 0, Seq::empty())->0;
    let shape = flac::streaminfo_of(blocks[0].data)->0.shape();
    let audio = data.skip(4 + blocks_len(blocks));
    let starts = starts_from(audio, 0);
    starts_are_ordered(audio, 0);
    lemma_frames_from(audio, starts, shape, Seq::empty());
    let frames = demuxed(data)->Ok_0.frames;
    let n = frames.len() as int;
    assert forall|k: int| 0 <= k < n implies (#[trigger] frames[k]).data == frame_slice(
        audio,
        starts,
        k,
    ) by {
        assert(frame_of(
            frame_slice(audio, starts, k),
            k,
            shape,
            end_of(frames.take(k)),
        ) == Ok::<FrameModel, FlacError>(frames[k]));
    }
    lemma_slices_join(audio, starts, frames, n);
    assert(frames.take(n) =~= frames);
    assert(audio.subrange(starts[0], audio.len() as int) =~= audio.skip(starts[0]));
}

/// Adjacent slices join up.
proof fn lemma_slices_join(audio: Seq<u8>, starts: Seq<int>, frames: Seq<FrameModel>, n: int)
    requires
        1 <= n <= frames.len() == starts.len(),
        forall|k: int| 0 <= k < starts.len() ==> 0 <= #[trigger] starts[k] < audio.len(),
        forall|j: int, k: int|
            0 <= j < k < starts.len() ==> #[trigger] starts[j] < #[trigger] starts[k],
        forall|k: int|
            0 <= k < frames.len() ==> (#[trigger] frames[k]).data == frame_slice(audio, starts, k),
    ensures
        frames_image(frames.take(n)) == audio.subrange(
            starts[0],
            if n < starts.len() {
                starts[n]
            } else {
                audio.len() as int
            },
        ),
    decreases n,
{
    assert(frames.take(n).drop_last() =~= frames.take(n - 1));
    assert(frames.take(n).last() == frames[n - 1]);
    let last = starts[n - 1];
    if n > 1 {
        lemma_slices_join(audio, starts, frames, n - 1);
        assert(starts[0] < last);
    } else {
        reveal_with_fuel(frames_image, 2);
        assert(frames.take(0) =~= Seq::empty());
    }
    let end = if n < starts.len() {
        starts[n]
    } else {
        audio.len() as int
    };
    assert(last < end);
    assert(frames_image(frames.take(n)) =~= audio.subrange(starts[0], end));
}

} // verus!
