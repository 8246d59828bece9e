//! FLAC bitstream structure: STREAMINFO, metadata blocks, frame headers and
//! the two checksums that guard a frame. Nothing here decodes audio.

use vstd::prelude::*;
use crate::crc;
use crate::wire::{self, get_be16, get_be24, get_be32, put_be16};

verus! {

/// The marker at the start of a native FLAC stream, `fLaC`.
pub const FLAC_MARKER: [u8; 4] = [0x66, 0x4C, 0x61, 0x43];

/// Type of the STREAMINFO metadata block.
pub const BLOCK_TYPE_STREAMINFO: u8 = 0;

/// Length of a STREAMINFO block body in bytes.
pub const STREAMINFO_LEN: usize = 34;

/// Length of a metadata block header in bytes.
pub const METADATA_BLOCK_HEADER_LEN: usize = 4;

/// Highest sample rate in Hz.
pub const MAX_SAMPLE_RATE: u32 = 655_350;

/// More metadata blocks than this, without a last one, are taken for damage.
pub const MAX_METADATA_BLOCKS: usize = 64;

/// A decoded STREAMINFO block.
#[derive(Clone, Debug, PartialEq, Eq)]
pub struct FlacStreaminfo {
    /// Smallest block size in samples.
    pub min_block_size: u16,
    /// Largest block size in samples.
    pub max_block_size: u16,
    /// Smallest frame size in bytes, 0 when unknown.
    pub min_frame_size: u32,
    /// Largest frame size in bytes, 0 when unknown.
    pub max_frame_size: u32,
    /// Sample rate in Hz.
    pub sample_rate: u32,
    /// Number of channels.
    pub channels: u8,
    /// Bits per sample.
    pub bits_per_sample: u8,
    /// Samples in the stream, 0 when unknown.
    pub total_samples: u64,
    /// MD5 of the unencoded audio.
    pub md5: [u8; 16],
}

/// What a STREAMINFO block says.
pub struct StreaminfoModel {
    pub min_block_size: u16,
    pub max_block_size: u16,
    pub min_frame_size: u32,
    pub max_frame_size: u32,
    pub sample_rate: u32,
    pub channels: u8,
    pub bits_per_sample: u8,
    pub total_samples: u64,
    pub md5: Seq<u8>,
}

impl View for FlacStreaminfo {
    type V = StreaminfoModel;

    open spec fn view(&self) -> StreaminfoModel {
        StreaminfoModel {
            min_block_size: self.min_block_size,
            max_block_size: self.max_block_size,
            min_frame_size: self.min_frame_size,
            max_frame_size: self.max_frame_size,
            sample_rate: self.sample_rate,
            channels: self.channels,
            bits_per_sample: self.bits_per_sample,
            total_samples: self.total_samples,
            md5: self.md5@,
        }
    }
}

/// A native metadata block.
#[derive(Clone, Debug, PartialEq, Eq)]
pub struct FlacMetadataBlock {
    /// Whether this is the last block.
    pub last: bool,
    /// The block type; 0 is STREAMINFO.
    pub block_type: u8,
    /// The block body.
    pub data: Vec<u8>,
}

/// A metadata block, its body as a sequence.
pub struct BlockModel {
    pub last: bool,
    pub block_type: u8,
    pub data: Seq<u8>,
}

impl View for FlacMetadataBlock {
    type V = BlockModel;

    open spec fn view(&self) -> BlockModel {
        BlockModel { last: self.last, block_type: self.block_type, data: self.data@ }
    }
}

/// Whether frames are numbered by frame or by sample.
#[derive(Clone, Copy, Debug, PartialEq, Eq, Structural)]
pub enum BlockingStrategy {
    /// Fixed block size: the coded number counts frames.
    Fixed,
    /// Variable block size: the coded number counts samples.
    Variable,
}

/// A parsed frame header.
#[derive(Clone, Copy, Debug, PartialEq, Eq, Structural)]
pub struct FlacFrameHeader {
    /// What the coded number counts.
    pub strategy: BlockingStrategy,
    /// The frame number or sample number.
    pub coded_number: u64,
    /// Block size in samples.
    pub block_size: u32,
    /// Header length in bytes, its checksum included.
    pub header_len: usize,
}

/// What the frames of a stream have to agree with.
#[derive(Clone, Copy, Debug, PartialEq, Eq, Structural)]
pub struct StreamShape {
    /// Largest block size, 0 when unknown.
    pub max_block_size: u16,
    pub sample_rate: u32,
    pub channels: u8,
    pub bits_per_sample: u8,
}

impl StreaminfoModel {
    /// What the frames have to agree with.
    pub open spec fn shape(self) -> StreamShape {
        StreamShape {
            max_block_size: self.max_block_size,
            sample_rate: self.sample_rate,
            channels: self.channels,
            bits_per_sample: self.bits_per_sample,
        }
    }
}

impl FlacStreaminfo {
    /// What the frames have to agree with.
    pub fn stream_shape(&self) -> (shape: StreamShape)
        ensures
            shape == self@.shape(),
    {
        StreamShape {
            max_block_size: self.max_block_size,
            sample_rate: self.sample_rate,
            channels: self.channels,
            bits_per_sample: self.bits_per_sample,
        }
    }
}

/// The STREAMINFO that a block body holds, if it is one.
pub open spec fn streaminfo_of(data: Seq<u8>) -> Option<StreaminfoModel> {
    let min_block_size = wire::be16_at(data, 0);
    let max_block_size = wire::be16_at(data, 2);
    let sample_rate = 0x1000 * data[10] + 0x10 * data[11] + data[12] as int / 0x10;
    let bits_per_sample = data[12] as int % 2 * 0x10 + data[13] as int / 0x10 + 1;
    if data.len() < STREAMINFO_LEN || (min_block_size < 16 && max_block_size != 0) || sample_rate
        == 0 || sample_rate > MAX_SAMPLE_RATE || bits_per_sample < 4 {
        None
    } else {
        Some(
            StreaminfoModel {
                min_block_size: min_block_size as u16,
                max_block_size: max_block_size as u16,
                min_frame_size: wire::be24_at(data, 4) as u32,
                max_frame_size: wire::be24_at(data, 7) as u32,
                sample_rate: sample_rate as u32,
                channels: (data[12] as int / 2 % 8 + 1) as u8,
                bits_per_sample: bits_per_sample as u8,
                total_samples: (data[13] as int % 0x10 * 0x1_0000_0000 + wire::be32_at(data, 14))
                    as u64,
                md5: data.subrange(18, 34),
            },
        )
    }
}

/// Reads a STREAMINFO block body.
pub fn parse_streaminfo(data: &[u8]) -> (info: Option<FlacStreaminfo>)
    ensures
        info matches Some(found) ==> streaminfo_of(data@) == Some(found@),
        info is None ==> streaminfo_of(data@) is None,
{
    if data.len() < STREAMINFO_LEN {
        return None;
    }
    let min_block_size: u16 = get_be16(data, 0);
    let max_block_size: u16 = get_be16(data, 2);
    if min_block_size < 16 && max_block_size != 0 {
        return None;
    }
    let sample_rate: u32 = 0x1000 * (data[10] as u32) + 0x10 * (data[11] as u32) + (data[12] as u32)
        / 0x10;
    if sample_rate == 0 || sample_rate > MAX_SAMPLE_RATE {
        return None;
    }
    let channels: u8 = data[12] / 2 % 8 + 1;
    let bits_per_sample: u8 = data[12] % 2 * 0x10 + data[13] / 0x10 + 1;
    if bits_per_sample < 4 {
        return None;
    }
    let total_samples: u64 = (data[13] % 0x10) as u64 * 0x1_0000_0000 + get_be32(data, 14) as u64;
    let md5: [u8; 16] = [
        data[18],
        data[19],
        data[20],
        data[21],
        data[22],
        data[23],
        data[24],
        data[25],
        data[26],
        data[27],
        data[28],
        data[29],
        data[30],
        data[31],
        data[32],
        data[33],
    ];
    assert(md5@ =~= data@.subrange(18, 34));
    Some(
        FlacStreaminfo {
            min_block_size,
            max_block_size,
            min_frame_size: get_be24(data, 4),
            max_frame_size: get_be24(data, 7),
            sample_rate,
            channels,
            bits_per_sample,
            total_samples,
            md5,
        },
    )
}

/// The byte that packs the low bits of the rate, the channel count and the
/// high bit of the sample depth.
pub open spec fn rate_channels_depth(sample_rate: u32, channels: u8, bits_per_sample: u8) -> u8 {
    ((((sample_rate % 0x10) as u8) << 4) | (((channels - 1) as u8) << 1) | (((bits_per_sample - 1)
        as u8) >> 4))
}

/// The STREAMINFO block body with unknown frame sizes and no checksum.
pub open spec fn streaminfo_bytes(
    min_block_size: u16,
    max_block_size: u16,
    sample_rate: u32,
    channels: u8,
    bits_per_sample: u8,
    total_samples: u64,
) -> Seq<u8> {
    wire::be16(min_block_size) + wire::be16(max_block_size) + seq![0u8, 0, 0, 0, 0, 0] + seq![
        (sample_rate / 0x1000 % 0x100) as u8,
        (sample_rate / 0x10 % 0x100) as u8,
        rate_channels_depth(sample_rate, channels, bits_per_sample),
        ((bits_per_sample - 1) % 0x10 * 0x10 + total_samples / 0x1_0000_0000 % 0x10) as u8,
    ] + wire::be32((total_samples % 0x1_0000_0000) as u32) + Seq::new(16, |i: int| 0u8)
}

/// Builds a STREAMINFO block body. Fields wider than the format's are cut to
/// its width.
pub fn build_streaminfo(
    min_block_size: u16,
    max_block_size: u16,
    sample_rate: u32,
    channels: u8,
    bits_per_sample: u8,
    total_samples: u64,
) -> (body: [u8; 34])
    requires
        channels >= 1,
        bits_per_sample >= 1,
    ensures
        body@ == streaminfo_bytes(
            min_block_size,
            max_block_size,
            sample_rate,
            channels,
            bits_per_sample,
            total_samples,
        ),
{
    let low: u32 = (total_samples % 0x1_0000_0000) as u32;
    let packed: u8 = (((sample_rate % 0x10) as u8) << 4) | ((channels - 1) << 1) | ((bits_per_sample
        - 1) >> 4);
    let high: u8 = (total_samples / 0x1_0000_0000 % 0x10) as u8;
    let body: [u8; 34] = [
        (min_block_size / 0x100) as u8,
        (min_block_size % 0x100) as u8,
        (max_block_size / 0x100) as u8,
        (max_block_size % 0x100) as u8,
        0,
        0,
        0,
        0,
        0,
        0,
        (sample_rate / 0x1000 % 0x100) as u8,
        (sample_rate / 0x10 % 0x100) as u8,
        packed,
        (bits_per_sample - 1) % 0x10 * 0x10 + high,
        (low / 0x100_0000) as u8,
        (low / 0x1_0000 % 0x100) as u8,
        (low / 0x100 % 0x100) as u8,
        (low % 0x100) as u8,
        0,
        0,
        0,
        0,
        0,
        0,
        0,
        0,
        0,
        0,
        0,
        0,
        0,
        0,
        0,
        0,
    ];
    assert(body@ =~= streaminfo_bytes(
        min_block_size,
        max_block_size,
        sample_rate,
        channels,
        bits_per_sample,
        total_samples,
    ));
    body
}

/// A STREAMINFO body that was built is read back, field by field.
///
/// The fields fit the format: at most eight channels, 4 to 32 bits per
/// sample, 36 bits of total samples, and a usable block size.
#[verifier::spinoff_prover]
#[verifier::rlimit(50)]
pub proof fn streaminfo_round_trip(
    min_block_size: u16,
    max_block_size: u16,
    sample_rate: u32,
    channels: u8,
    bits_per_sample: u8,
    total_samples: u64,
)
    requires
        min_block_size >= 16 || max_block_size == 0,
        0 < sample_rate <= MAX_SAMPLE_RATE,
        1 <= channels <= 8,
        4 <= bits_per_sample <= 32,
        total_samples < 0x10_0000_0000,
    ensures
        streaminfo_of(
            streaminfo_bytes(
                min_block_size,
                max_block_size,
                sample_rate,
                channels,
                bits_per_sample,
                total_samples,
            ),
        ) == Some(
            StreaminfoModel {
                min_block_size,
                max_block_size,
                min_frame_size: 0,
                max_frame_size: 0,
                sample_rate,
                channels,
                bits_per_sample,
                total_samples,
                md5: Seq::new(16, |i: int| 0u8),
            },
        ),
{
    let body = streaminfo_bytes(
        min_block_size,
        max_block_size,
        sample_rate,
        channels,
        bits_per_sample,
        total_samples,
    );
    lemma_packed_fields(sample_rate, channels, bits_per_sample);
    assert(body.subrange(18, 34) =~= Seq::new(16, |i: int| 0u8));
    assert(body[14] == wire::be32((total_samples % 0x1_0000_0000) as u32)[0]);
    assert(body[15] == wire::be32((total_samples % 0x1_0000_0000) as u32)[1]);
    assert(body[16] == wire::be32((total_samples % 0x1_0000_0000) as u32)[2]);
    assert(body[17] == wire::be32((total_samples % 0x1_0000_0000) as u32)[3]);
    assert(wire::be32_at(body, 14) == total_samples % 0x1_0000_0000);
    assert(wire::be16_at(body, 0) == min_block_size);
    assert(wire::be16_at(body, 2) == max_block_size);
    assert(wire::be24_at(body, 4) == 0);
    assert(wire::be24_at(body, 7) == 0);
}

/// The packed byte keeps its three fields apart.
pub proof fn lemma_packed_fields(sample_rate: u32, channels: u8, bits_per_sample: u8)
    requires
        1 <= channels <= 8,
        1 <= bits_per_sample <= 32,
    ensures
        ({
            let packed = rate_channels_depth(sample_rate, channels, bits_per_sample) as int;
            &&& packed / 0x10 == sample_rate % 0x10
            &&& packed / 2 % 8 == channels - 1
            &&& packed % 2 == (bits_per_sample - 1) / 0x10
        }),
{
    let rate: u8 = (sample_rate % 0x10) as u8;
    let count: u8 = (channels - 1) as u8;
    let depth: u8 = (bits_per_sample - 1) as u8;
    let packed: u8 = (rate << 4) | (count << 1) | (depth >> 4);
    assert(packed / 0x10 == rate && packed / 2 % 8 == count && packed % 2 == depth / 0x10)
        by (bit_vector)
        requires
            packed == (rate << 4) | (count << 1) | (depth >> 4),
            rate < 0x10,
            count < 8,
            depth < 32,
    ;
}

/// The metadata blocks that start at `offset`, behind those `done`: up to
/// the last one, or nothing where they run out.
pub open spec fn blocks_from(data: Seq<u8>, offset: int, done: Seq<BlockModel>) -> Option<
    Seq<BlockModel>,
>
    decreases data.len() - offset,
{
    if !(0 <= offset <= data.len() - 4) {
        None
    } else {
        let len = wire::be24_at(data, offset + 1);
        let body = offset + 4;
        if body + len > data.len() {
            None
        } else {
            let block = BlockModel {
                last: data[offset] >= 0x80,
                block_type: (data[offset] % 0x80) as u8,
                data: data.subrange(body, body + len),
            };
            let next = done.push(block);
            if block.last {
                Some(next)
            } else if next.len() > MAX_METADATA_BLOCKS {
                None
            } else {
                blocks_from(data, body + len, next)
            }
        }
    }
}

/// The views of a run of blocks.
pub open spec fn block_models(blocks: Seq<FlacMetadataBlock>) -> Seq<BlockModel> {
    blocks.map_values(|block: FlacMetadataBlock| block@)
}

/// Splits the metadata blocks that follow the stream marker.
pub fn split_metadata_blocks(data: &[u8]) -> (result: Option<Vec<FlacMetadataBlock>>)
    ensures
        result matches Some(blocks) ==> blocks_from(data@, 0, Seq::empty()) == Some(
            block_models(blocks@),
        ),
        result is None ==> blocks_from(data@, 0, Seq::empty()) is None,
{
    let mut blocks: Vec<FlacMetadataBlock> = Vec::new();
    let mut offset: usize = 0;
    assert(block_models(blocks@) =~= Seq::empty());
    assert(data.len() == data@.len());
    loop
        invariant
            offset <= data@.len() <= usize::MAX,
            blocks@.len() <= MAX_METADATA_BLOCKS,
            blocks_from(data@, 0, Seq::empty()) == blocks_from(
                data@,
                offset as int,
                block_models(blocks@),
            ),
        decreases data@.len() - offset,
    {
        if data.len() - offset < METADATA_BLOCK_HEADER_LEN {
            return None;
        }
        let last = data[offset] >= 0x80;
        let block_type: u8 = data[offset] % 0x80;
        let len: usize = get_be24(data, offset + 1) as usize;
        let body: usize = offset + METADATA_BLOCK_HEADER_LEN;
        if data.len() - body < len {
            return None;
        }
        let content = vstd::slice::slice_subrange(data, body, body + len);
        let ghost before = blocks@;
        let block = FlacMetadataBlock {
            last,
            block_type,
            data: vstd::slice::slice_to_vec(content),
        };
        blocks.push(block);
        assert(block_models(blocks@) =~= block_models(before).push(block@));
        offset = body + len;
        if last {
            return Some(blocks);
        }
        if blocks.len() > MAX_METADATA_BLOCKS {
            return None;
        }
    }
}

/// The checksum of frame headers.
pub fn crc8(data: &[u8]) -> (crc: u8)
    ensures
        crc == crc::crc8_of(data@),
{
    crc::crc8_bytes(data)
}

/// The checksum at the end of frames.
pub fn crc16(data: &[u8]) -> (crc: u16)
    ensures
        crc == crc::crc16_of(data@),
{
    crc::crc16_bytes(data)
}

/// What the first byte of a coded number holds, and how many bytes follow.
pub open spec fn number_lead(first: u8) -> Option<(int, int)> {
    let first = first as int;
    if first < 0x80 {
        Some((first, 0))
    } else if 0xC0 <= first < 0xE0 {
        Some((first - 0xC0, 1))
    } else if 0xE0 <= first < 0xF0 {
        Some((first - 0xE0, 2))
    } else if 0xF0 <= first < 0xF8 {
        Some((first - 0xF0, 3))
    } else if 0xF8 <= first < 0xFC {
        Some((first - 0xF8, 4))
    } else if 0xFC <= first < 0xFE {
        Some((first - 0xFC, 5))
    } else if first == 0xFE {
        Some((0, 6))
    } else {
        None
    }
}

/// `value` extended by the six bits of each byte of `data` from `i` up to
/// `end`, all of which must be continuation bytes.
pub open spec fn number_extended(data: Seq<u8>, i: int, end: int, value: int) -> Option<int>
    decreases end - i,
{
    if i >= end {
        Some(value)
    } else if !(0x80 <= data[i] < 0xC0) {
        None
    } else {
        number_extended(data, i + 1, end, value * 0x40 + (data[i] - 0x80))
    }
}

/// The coded number at the start of `data`, and its length in bytes.
pub open spec fn coded_number(data: Seq<u8>) -> Option<(int, int)> {
    if data.len() == 0 {
        None
    } else {
        match number_lead(data[0]) {
            None => None,
            Some((value, extra)) => if data.len() < 1 + extra {
                None
            } else {
                match number_extended(data, 1, 1 + extra, value) {
                    None => None,
                    Some(number) => Some((number, 1 + extra)),
                }
            },
        }
    }
}

/// A coded number stays below the bits that its bytes hold.
proof fn lemma_number_extended_bound(data: Seq<u8>, i: int, end: int, value: int, bound: int)
    requires
        0 <= value < bound,
        0 <= i,
        end - i <= 6,
    ensures
        number_extended(data, i, end, value) matches Some(number) ==> 0 <= number && number < bound
            * widening(end - i),
    decreases end - i,
{
    if i < end && 0x80 <= data[i] < 0xC0 {
        lemma_number_extended_bound(
            data,
            i + 1,
            end,
            value * 0x40 + (data[i] - 0x80),
            bound * 0x40,
        );
        assert(bound * 0x40 * widening(end - i - 1) == bound * (0x40 * widening(end - i - 1)))
            by (nonlinear_arith);
    }
}

/// The factor by which `n` continuation bytes widen a number.
spec fn widening(n: int) -> int
    decreases n,
{
    if n <= 0 {
        1
    } else {
        0x40 * widening(n - 1)
    }
}

/// A coded number has at most 36 bits and takes at most seven bytes.
pub proof fn coded_number_bound(data: Seq<u8>)
    ensures
        coded_number(data) matches Some((number, len)) ==> 0 <= number < 0x10_0000_0000 && 1 <= len
            <= 7 && len <= data.len(),
{
    if data.len() > 0 {
        if let Some((value, extra)) = number_lead(data[0]) {
            let bound: int = if extra == 0 {
                0x80
            } else if extra == 1 {
                0x20
            } else if extra == 2 {
                0x10
            } else if extra == 3 {
                8
            } else if extra == 4 {
                4
            } else if extra == 5 {
                2
            } else {
                1
            };
            lemma_number_extended_bound(data, 1, 1 + extra, value, bound);
            reveal_with_fuel(widening, 7);
        }
    }
}

/// Reads a coded number and its length.
fn decode_utf8_coded_number(data: &[u8]) -> (result: Option<(u64, usize)>)
    ensures
        result matches Some((number, len)) ==> coded_number(data@) == Some(
            (number as int, len as int),
        ),
        result is None ==> coded_number(data@) is None,
{
    if data.len() == 0 {
        return None;
    }
    let first: u8 = data[0];
    let (lead, extra): (u8, usize) = if first < 0x80 {
        (first, 0)
    } else if first < 0xC0 {
        return None;
    } else if first < 0xE0 {
        (first - 0xC0, 1)
    } else if first < 0xF0 {
        (first - 0xE0, 2)
    } else if first < 0xF8 {
        (first - 0xF0, 3)
    } else if first < 0xFC {
        (first - 0xF8, 4)
    } else if first < 0xFE {
        (first - 0xFC, 5)
    } else if first == 0xFE {
        (0, 6)
    } else {
        return None;
    };
    if data.len() < 1 + extra {
        return None;
    }
    let mut value: u64 = lead as u64;
    let mut i: usize = 1;
    let ghost mut bound: int = 0x80;
    assert(0x80 * 0x40 * 0x40 * 0x40 * 0x40 * 0x40 * 0x40 < 0x1_0000_0000_0000_0000);
    while i < 1 + extra
        invariant
            1 <= i <= 1 + extra <= data@.len(),
            extra <= 6,
            number_lead(data@[0]) == Some((lead as int, extra as int)),
            value < bound,
            bound == 0x80 * widening(i - 1),
            number_extended(data@, 1, 1 + extra, lead as int) == number_extended(
                data@,
                i as int,
                1 + extra,
                value as int,
            ),
        decreases 1 + extra - i,
    {
        let byte: u8 = data[i];
        if byte < 0x80 || byte >= 0xC0 {
            return None;
        }
        proof {
            reveal_with_fuel(widening, 7);
            assert(widening(i as int) == 0x40 * widening(i - 1));
            assert(bound <= 0x80 * 0x40 * 0x40 * 0x40 * 0x40 * 0x40);
            bound = bound * 0x40;
        }
        value = value * 0x40 + (byte - 0x80) as u64;
        i += 1;
    }
    Some((value, 1 + extra))
}

/// `x` doubled `n` times.
pub open spec fn doubled(x: int, n: int) -> int
    decreases n,
{
    if n <= 0 {
        x
    } else {
        2 * doubled(x, n - 1)
    }
}

/// The block size that a header code stands for, and the number of bytes of
/// `extra` that spell it out.
pub open spec fn block_size_of(code: u8, extra: Seq<u8>) -> Option<(int, int)> {
    if code == 1 {
        Some((192, 0))
    } else if 2 <= code <= 5 {
        Some((doubled(576, code - 2), 0))
    } else if code == 6 {
        if extra.len() < 1 {
            None
        } else {
            Some((extra[0] + 1, 1))
        }
    } else if code == 7 {
        if extra.len() < 2 {
            None
        } else {
            Some((wire::be16_at(extra, 0) + 1, 2))
        }
    } else if 8 <= code <= 15 {
        Some((doubled(256, code - 8), 0))
    } else {
        None
    }
}

/// Block sizes are positive and at most 65536.
pub proof fn block_size_bound(code: u8, extra: Seq<u8>)
    ensures
        block_size_of(code, extra) matches Some((size, len)) ==> 1 <= size <= 65536 && 0 <= len <= 2
            && len <= extra.len(),
{
    reveal_with_fuel(doubled, 8);
}

/// Reads a block size from its header code.
fn block_size_from_code(code: u8, extra: &[u8]) -> (result: Option<(u32, usize)>)
    ensures
        result matches Some((size, len)) ==> block_size_of(code, extra@) == Some(
            (size as int, len as int),
        ),
        result is None ==> block_size_of(code, extra@) is None,
{
    proof {
        reveal_with_fuel(doubled, 8);
    }
    match code {
        1 => Some((192, 0)),
        2 => Some((576, 0)),
        3 => Some((1152, 0)),
        4 => Some((2304, 0)),
        5 => Some((4608, 0)),
        6 => {
            if extra.len() < 1 {
                None
            } else {
                Some((extra[0] as u32 + 1, 1))
            }
        },
        7 => {
            if extra.len() < 2 {
                None
            } else {
                Some((get_be16(extra, 0) as u32 + 1, 2))
            }
        },
        8 => Some((256, 0)),
        9 => Some((512, 0)),
        10 => Some((1024, 0)),
        11 => Some((2048, 0)),
        12 => Some((4096, 0)),
        13 => Some((8192, 0)),
        14 => Some((16384, 0)),
        15 => Some((32768, 0)),
        _ => None,
    }
}

/// The number of bytes that spell out the sample rate for a header code.
pub open spec fn rate_extra(code: int) -> int {
    if code == 0xC {
        1
    } else if code == 0xD || code == 0xE {
        2
    } else {
        0
    }
}

/// Whether the four leading bytes can begin a frame: the sync code, and no
/// reserved rate, channel assignment, sample depth or bit.
pub open spec fn frame_lead(data: Seq<u8>) -> bool {
    &&& data.len() >= 4
    &&& data[0] == 0xFF
    &&& data[1] == 0xF8 || data[1] == 0xF9
    &&& data[2] as int % 0x10 != 0xF
    &&& data[3] as int / 0x10 < 0xB
    &&& data[3] as int / 2 % 8 != 3
    &&& data[3] as int / 2 % 8 != 7
    &&& data[3] as int % 2 == 0
}

/// The frame header at the start of `data`, if there is one and its checksum
/// holds.
pub open spec fn frame_header_of(data: Seq<u8>) -> Option<FlacFrameHeader> {
    if !frame_lead(data) {
        None
    } else {
        match coded_number(data.skip(4)) {
            None => None,
            Some((number, number_len)) => match block_size_of(
                (data[2] as int / 0x10) as u8,
                data.skip(4 + number_len),
            ) {
                None => None,
                Some((block_size, block_extra)) => {
                    let len = 4 + number_len + block_extra + rate_extra(data[2] as int % 0x10) + 1;
                    if data.len() < len || crc::crc8_of(data.take(len)) != 0 {
                        None
                    } else {
                        Some(
                            FlacFrameHeader {
                                strategy: if data[1] == 0xF8 {
                                    BlockingStrategy::Fixed
                                } else {
                                    BlockingStrategy::Variable
                                },
                                coded_number: number as u64,
                                block_size: block_size as u32,
                                header_len: len as usize,
                            },
                        )
                    }
                },
            },
        }
    }
}

/// Reads the frame header at the start of `data` and verifies its checksum,
/// which keeps chance sync codes out.
pub fn parse_frame_header(data: &[u8]) -> (header: Option<FlacFrameHeader>)
    ensures
        header == frame_header_of(data@),
{
    assert(data.len() == data@.len());
    if data.len() < 4 {
        return None;
    }
    if data[0] != 0xFF || (data[1] != 0xF8 && data[1] != 0xF9) {
        return None;
    }
    let strategy = if data[1] == 0xF8 {
        BlockingStrategy::Fixed
    } else {
        BlockingStrategy::Variable
    };
    let block_code: u8 = data[2] / 0x10;
    let rate_code: u8 = data[2] % 0x10;
    let channel_code: u8 = data[3] / 0x10;
    let depth_code: u8 = data[3] / 2 % 8;
    if data[3] % 2 != 0 || channel_code > 0xA || depth_code == 3 || depth_code == 7 || rate_code
        == 0xF {
        return None;
    }
    let after_lead = vstd::slice::slice_subrange(data, 4, data.len());
    assert(after_lead@ =~= data@.skip(4));
    proof {
        coded_number_bound(after_lead@);
    }
    let (coded_number, number_len): (u64, usize) = match decode_utf8_coded_number(after_lead) {
        Some(found) => found,
        None => {
            return None;
        },
    };
    let at: usize = 4 + number_len;
    let after_number = vstd::slice::slice_subrange(data, at, data.len());
    assert(after_number@ =~= data@.skip(4 + number_len));
    proof {
        block_size_bound(block_code, after_number@);
    }
    let (block_size, block_extra): (u32, usize) = match block_size_from_code(
        block_code,
        after_number,
    ) {
        Some(found) => found,
        None => {
            return None;
        },
    };
    let rate_len: usize = if rate_code == 0xC {
        1
    } else if rate_code == 0xD || rate_code == 0xE {
        2
    } else {
        0
    };
    let header_len: usize = at + block_extra + rate_len + 1;
    if data.len() < header_len {
        return None;
    }
    let header_bytes = vstd::slice::slice_subrange(data, 0, header_len);
    assert(header_bytes@ =~= data@.take(header_len as int));
    if crc8(header_bytes) != 0 {
        return None;
    }
    Some(FlacFrameHeader { strategy, coded_number, block_size, header_len })
}

/// Whether `data` starts with a plausible frame.
pub fn is_valid_flac_frame(data: &[u8]) -> (valid: bool)
    ensures
        valid == (frame_header_of(data@) is Some),
{
    parse_frame_header(data).is_some()
}

/// A header's fields stay in range, and the header lies within the data.
pub proof fn frame_header_bounds(data: Seq<u8>)
    ensures
        frame_header_of(data) matches Some(header) ==> header.coded_number < 0x10_0000_0000 && 1
            <= header.block_size <= 65536 && 6 <= header.header_len <= data.len()
            && header.header_len <= 16,
{
    if frame_lead(data) {
        coded_number_bound(data.skip(4));
        if let Some((number, number_len)) = coded_number(data.skip(4)) {
            block_size_bound((data[2] as int / 0x10) as u8, data.skip(4 + number_len));
        }
    }
}

proof fn lemma_number_extended_prefix(
    data: Seq<u8>,
    more: Seq<u8>,
    i: int,
    end: int,
    value: int,
)
    requires
        0 <= i,
        end <= data.len(),
    ensures
        number_extended(data + more, i, end, value) == number_extended(data, i, end, value),
    decreases end - i,
{
    if i < end {
        lemma_number_extended_prefix(data, more, i + 1, end, value * 0x40 + (data[i] - 0x80));
    }
}

/// A frame header does not depend on what follows the frame.
pub proof fn frame_header_ignores_what_follows(frame: Seq<u8>, more: Seq<u8>)
    requires
        frame_header_of(frame) is Some,
    ensures
        frame_header_of(frame + more) == frame_header_of(frame),
{
    let data = frame + more;
    assert(data.skip(4) =~= frame.skip(4) + more);
    coded_number_bound(frame.skip(4));
    let (value, extra) = number_lead(frame[4])->0;
    assert(data.skip(4)[0] == frame[4]);
    assert(frame.skip(4)[0] == frame[4]);
    lemma_number_extended_prefix(frame.skip(4), more, 1, 1 + extra, value);
    let (number, number_len) = coded_number(frame.skip(4))->0;
    assert(coded_number(data.skip(4)) == Some((number, number_len)));
    let code: u8 = (data[2] as int / 0x10) as u8;
    assert(data.skip(4 + number_len) =~= frame.skip(4 + number_len) + more);
    block_size_bound(code, frame.skip(4 + number_len));
    assert(block_size_of(code, data.skip(4 + number_len)) == block_size_of(
        code,
        frame.skip(4 + number_len),
    ));
    let (block_size, block_extra) = block_size_of(code, frame.skip(4 + number_len))->0;
    let len = 4 + number_len + block_extra + rate_extra(data[2] as int % 0x10) + 1;
    assert(data.take(len) =~= frame.take(len));
}

/// The number of the first sample of a frame in a stream whose largest block
/// size is `max_block_size`, 0 when unknown.
///
/// Fixed blocking numbers nominal blocks, and the last block of a stream may
/// be shorter than nominal.
pub open spec fn first_sample(header: FlacFrameHeader, max_block_size: u16) -> int {
    match header.strategy {
        BlockingStrategy::Variable => header.coded_number as int,
        BlockingStrategy::Fixed => if max_block_size != 0 {
            header.coded_number * max_block_size
        } else {
            header.coded_number * header.block_size
        },
    }
}

/// First samples fit in 53 bits.
pub proof fn first_sample_bound(data: Seq<u8>, max_block_size: u16)
    ensures
        frame_header_of(data) matches Some(header) ==> 0 <= first_sample(header, max_block_size)
            < 0x10_0000_0000 * 65536,
{
    frame_header_bounds(data);
    if let Some(header) = frame_header_of(data) {
        let number = header.coded_number as int;
        let nominal = if max_block_size != 0 {
            max_block_size as int
        } else {
            header.block_size as int
        };
        assert(0 <= number * nominal < 0x10_0000_0000 * 65536) by (nonlinear_arith)
            requires
                0 <= number < 0x10_0000_0000,
                1 <= nominal <= 65536,
        ;
    }
}

/// The number of the first sample of a frame with the given header.
pub fn frame_first_sample(header: &FlacFrameHeader, max_block_size: u16) -> (sample: u64)
    requires
        header.coded_number < 0x10_0000_0000,
        header.block_size <= 65536,
    ensures
        sample == first_sample(*header, max_block_size),
{
    match header.strategy {
        BlockingStrategy::Variable => header.coded_number,
        BlockingStrategy::Fixed => {
            let nominal: u64 = if max_block_size != 0 {
                max_block_size as u64
            } else {
                header.block_size as u64
            };
            let number: u64 = header.coded_number;
            assert(number * nominal <= 0x10_0000_0000 * 65536) by (nonlinear_arith)
                requires
                    number < 0x10_0000_0000,
                    nominal <= 65536,
            ;
            number * nominal
        },
    }
}

/// Whether a fixed-blocking frame is no larger than STREAMINFO allows.
pub open spec fn within_block_size(header: FlacFrameHeader, max_block_size: u16) -> bool {
    header.strategy == BlockingStrategy::Variable || max_block_size == 0 || header.block_size
        <= max_block_size
}

/// The sample rate that a frame header names, if it does not leave it to
/// STREAMINFO.
pub open spec fn header_rate(data: Seq<u8>, header: FlacFrameHeader) -> Option<int> {
    let code: u8 = data[2] % 0x10;
    let at = header.header_len - 1 - rate_extra(code as int);
    match code {
        1 => Some(88_200),
        2 => Some(176_400),
        3 => Some(192_000),
        4 => Some(8_000),
        5 => Some(16_000),
        6 => Some(22_050),
        7 => Some(24_000),
        8 => Some(32_000),
        9 => Some(44_100),
        10 => Some(48_000),
        11 => Some(96_000),
        12 => Some(1_000 * data[at]),
        13 => Some(wire::be16_at(data, at)),
        14 => Some(10 * wire::be16_at(data, at)),
        _ => None,
    }
}

/// The number of channels that a frame header names: that of independent
/// channels, or two that share what they hold.
pub open spec fn header_channels(data: Seq<u8>) -> int {
    let code = data[3] as int / 0x10;
    if code < 8 {
        code + 1
    } else {
        2
    }
}

/// The bits of a sample that a frame header names, if it does not leave them
/// to STREAMINFO.
pub open spec fn header_depth(data: Seq<u8>) -> Option<int> {
    match data[3] / 2 % 8 {
        1 => Some(8),
        2 => Some(12),
        4 => Some(16),
        5 => Some(20),
        6 => Some(24),
        _ => None,
    }
}

/// Whether a frame header agrees with STREAMINFO: the block size is no larger
/// than allowed, and what the header names of rate, channels and depth is the
/// same.
pub open spec fn agrees(data: Seq<u8>, header: FlacFrameHeader, shape: StreamShape) -> bool {
    &&& within_block_size(header, shape.max_block_size)
    &&& header_rate(data, header) matches Some(rate) ==> rate == shape.sample_rate
    &&& header_channels(data) == shape.channels
    &&& header_depth(data) matches Some(depth) ==> depth == shape.bits_per_sample
}

/// Whether a frame header agrees with STREAMINFO.
pub fn frame_agrees(data: &[u8], header: &FlacFrameHeader, shape: StreamShape) -> (yes: bool)
    requires
        frame_header_of(data@) == Some(*header),
    ensures
        yes == agrees(data@, *header, shape),
{
    proof {
        frame_header_bounds(data@);
    }
    if header.strategy == BlockingStrategy::Fixed && shape.max_block_size != 0
        && header.block_size > shape.max_block_size as u32 {
        return false;
    }
    let rate: Option<u32> = match data[2] % 0x10 {
        1 => Some(88_200),
        2 => Some(176_400),
        3 => Some(192_000),
        4 => Some(8_000),
        5 => Some(16_000),
        6 => Some(22_050),
        7 => Some(24_000),
        8 => Some(32_000),
        9 => Some(44_100),
        10 => Some(48_000),
        11 => Some(96_000),
        12 => Some(1_000 * data[header.header_len - 2] as u32),
        13 => Some(get_be16(data, header.header_len - 3) as u32),
        14 => Some(10 * get_be16(data, header.header_len - 3) as u32),
        _ => None,
    };
    let channel_code: u8 = data[3] / 0x10;
    let channels: u8 = if channel_code < 8 {
        channel_code + 1
    } else {
        2
    };
    let depth: Option<u8> = match data[3] / 2 % 8 {
        1 => Some(8),
        2 => Some(12),
        4 => Some(16),
        5 => Some(20),
        6 => Some(24),
        _ => None,
    };
    let same_rate: bool = match rate {
        Some(rate) => rate == shape.sample_rate,
        None => true,
    };
    let same_depth: bool = match depth {
        Some(depth) => depth == shape.bits_per_sample,
        None => true,
    };
    same_rate && channels == shape.channels && same_depth
}

/// Whether the last two bytes of a frame are the checksum of the others.
pub open spec fn footer_holds(frame: Seq<u8>) -> bool {
    crc::crc16_of(frame.take(frame.len() - 2)) == wire::be16_at(frame, frame.len() - 2)
}

/// Verifies the checksum at the end of a frame.
pub fn frame_footer_holds(frame: &[u8]) -> (holds: bool)
    requires
        frame@.len() >= 2,
    ensures
        holds == footer_holds(frame@),
{
    let covered = vstd::slice::slice_subrange(frame, 0, frame.len() - 2);
    assert(covered@ =~= frame@.take(frame@.len() - 2));
    let stored: u16 = get_be16(frame, frame.len() - 2);
    crc16(covered) == stored
}

/// The bytes of a synthetic frame header before its checksum: fixed blocking,
/// a block size of `block_extra + 1` spelled out, two independent channels,
/// rate and depth as in STREAMINFO.
pub open spec fn synthetic_lead(coded_number: u64, block_extra: u16) -> Seq<u8> {
    seq![0xFFu8, 0xF8, 0x70, 0x10] + (if coded_number < 0x80 {
        seq![coded_number as u8]
    } else {
        seq![
            (0xC0 + coded_number / 0x40 % 0x20) as u8,
            (0x80 + coded_number % 0x40) as u8,
        ]
    }) + wire::be16(block_extra)
}

/// Builds a minimal frame header for synthetic streams. Numbers up to 2047
/// are coded whole; of larger ones the low eleven bits remain.
pub fn synthetic_frame_header(coded_number: u64, block_extra: u16) -> (header: Vec<u8>)
    ensures
        header@ == synthetic_lead(coded_number, block_extra).push(
            crc::crc8_of(synthetic_lead(coded_number, block_extra)),
        ),
{
    let mut header: Vec<u8> = vec![0xFF, 0xF8, 0x70, 0x10];
    if coded_number < 0x80 {
        header.push(coded_number as u8);
    } else {
        header.push(0xC0 + (coded_number / 0x40 % 0x20) as u8);
        header.push(0x80 + (coded_number % 0x40) as u8);
    }
    put_be16(&mut header, block_extra);
    assert(header@ =~= synthetic_lead(coded_number, block_extra));
    let check: u8 = crc8(header.as_slice());
    header.push(check);
    header
}

/// A synthetic header is a frame header, with the number and block size that
/// it was made from.
pub proof fn synthetic_header_parses(coded_number: u64, block_extra: u16)
    requires
        coded_number < 0x800,
    ensures
        ({
            let lead = synthetic_lead(coded_number, block_extra);
            let header = lead.push(crc::crc8_of(lead));
            frame_header_of(header) == Some(
                FlacFrameHeader {
                    strategy: BlockingStrategy::Fixed,
                    coded_number,
                    block_size: (block_extra + 1) as u32,
                    header_len: header.len() as usize,
                },
            )
        }),
{
    let lead = synthetic_lead(coded_number, block_extra);
    let header = lead.push(crc::crc8_of(lead));
    crc::crc8_completes(lead);
    let rest = header.skip(4);
    reveal_with_fuel(number_extended, 2);
    let number_len: int = if coded_number < 0x80 {
        1
    } else {
        2
    };
    assert(crate::codec::flac::coded_number(rest) == Some((coded_number as int, number_len)));
    let extra = header.skip(4 + number_len);
    assert(extra[0] == wire::be16(block_extra)[0] && extra[1] == wire::be16(block_extra)[1]);
    assert(header.take(header.len() as int) =~= header);
    assert(0x70u8 as int / 0x10 == 7 && 0x70u8 as int % 0x10 == 0);
}

} // verus!
