//! What the bytes of a FLAC stream stand for.

use vstd::prelude::*;
use crate::codec::flac::{self, BlockingStrategy, FlacFrameHeader, StreamShape};
use crate::crc;

verus! {

/// The block sizes of the header codes: 192, then 576 and its doubles, one or
/// two bytes behind the header that hold one less, then 256 and its doubles.
pub proof fn block_sizes_of_the_codes(code: u8, extra: Seq<u8>)
    ensures
        code == 0 || code > 15 ==> flac::block_size_of(code, extra) is None,
        code == 1 ==> flac::block_size_of(code, extra) == Some((192int, 0int)),
        code == 2 ==> flac::block_size_of(code, extra) == Some((576int, 0int)),
        code == 3 ==> flac::block_size_of(code, extra) == Some((1152int, 0int)),
        code == 4 ==> flac::block_size_of(code, extra) == Some((2304int, 0int)),
        code == 5 ==> flac::block_size_of(code, extra) == Some((4608int, 0int)),
        code == 6 && extra.len() >= 1 ==> flac::block_size_of(code, extra) == Some(
            (extra[0] + 1, 1int),
        ),
        code == 7 && extra.len() >= 2 ==> flac::block_size_of(code, extra) == Some(
            (256 * extra[0] + extra[1] + 1, 2int),
        ),
        code == 8 ==> flac::block_size_of(code, extra) == Some((256int, 0int)),
        code == 9 ==> flac::block_size_of(code, extra) == Some((512int, 0int)),
        code == 10 ==> flac::block_size_of(code, extra) == Some((1024int, 0int)),
        code == 11 ==> flac::block_size_of(code, extra) == Some((2048int, 0int)),
        code == 12 ==> flac::block_size_of(code, extra) == Some((4096int, 0int)),
        code == 13 ==> flac::block_size_of(code, extra) == Some((8192int, 0int)),
        code == 14 ==> flac::block_size_of(code, extra) == Some((16384int, 0int)),
        code == 15 ==> flac::block_size_of(code, extra) == Some((32768int, 0int)),
        code == 6 && extra.len() < 1 ==> flac::block_size_of(code, extra) is None,
        code == 7 && extra.len() < 2 ==> flac::block_size_of(code, extra) is None,
{
    reveal_with_fuel(flac::doubled, 8);
}

/// A number as the stream codes it: in as few bytes as hold it, the first of
/// which tells how many follow, with six bits in each of those.
pub open spec fn number_bytes(n: int) -> Seq<u8> {
    if n < 0x80 {
        seq![n as u8]
    } else if n < 0x800 {
        seq![(0xC0 + n / 0x40) as u8, (0x80 + n % 0x40) as u8]
    } else if n < 0x1_0000 {
        seq![(0xE0 + n / 0x1000) as u8, (0x80 + n / 0x40 % 0x40) as u8, (0x80 + n % 0x40) as u8]
    } else if n < 0x20_0000 {
        seq![
            (0xF0 + n / 0x4_0000) as u8,
            (0x80 + n / 0x1000 % 0x40) as u8,
            (0x80 + n / 0x40 % 0x40) as u8,
            (0x80 + n % 0x40) as u8,
        ]
    } else if n < 0x400_0000 {
        seq![
            (0xF8 + n / 0x100_0000) as u8,
            (0x80 + n / 0x4_0000 % 0x40) as u8,
            (0x80 + n / 0x1000 % 0x40) as u8,
            (0x80 + n / 0x40 % 0x40) as u8,
            (0x80 + n % 0x40) as u8,
        ]
    } else if n < 0x8000_0000 {
        seq![
            (0xFC + n / 0x4000_0000) as u8,
            (0x80 + n / 0x100_0000 % 0x40) as u8,
            (0x80 + n / 0x4_0000 % 0x40) as u8,
            (0x80 + n / 0x1000 % 0x40) as u8,
            (0x80 + n / 0x40 % 0x40) as u8,
            (0x80 + n % 0x40) as u8,
        ]
    } else {
        seq![
            0xFEu8,
            (0x80 + n / 0x4000_0000 % 0x40) as u8,
            (0x80 + n / 0x100_0000 % 0x40) as u8,
            (0x80 + n / 0x4_0000 % 0x40) as u8,
            (0x80 + n / 0x1000 % 0x40) as u8,
            (0x80 + n / 0x40 % 0x40) as u8,
            (0x80 + n % 0x40) as u8,
        ]
    }
}

/// A number of up to 36 bits is read back from its bytes, whatever follows
/// them.
#[verifier::spinoff_prover]
#[verifier::rlimit(60)]
pub proof fn coded_numbers_are_read_back(n: int, rest: Seq<u8>)
    requires
        0 <= n < 0x10_0000_0000,
    ensures
        flac::coded_number(number_bytes(n) + rest) == Some((n, number_bytes(n).len() as int)),
{
    let data = number_bytes(n) + rest;
    let k = number_bytes(n).len() as int;
    let a = n % 0x40;
    let b = n / 0x40 % 0x40;
    let c = n / 0x1000 % 0x40;
    let d = n / 0x4_0000 % 0x40;
    let e = n / 0x100_0000 % 0x40;
    let f = n / 0x4000_0000 % 0x40;
    assert(n / 0x40 == n / 0x1000 * 0x40 + b);
    assert(n / 0x1000 == n / 0x4_0000 * 0x40 + c);
    assert(n / 0x4_0000 == n / 0x100_0000 * 0x40 + d);
    assert(n / 0x100_0000 == n / 0x4000_0000 * 0x40 + e);
    reveal_with_fuel(flac::number_extended, 7);
    assert forall|i: int| 0 <= i < k implies #[trigger] data[i] == number_bytes(n)[i] by {}
    if n < 0x80 {
    } else if n < 0x800 {
        assert(data[1] == 0x80 + a);
    } else if n < 0x1_0000 {
        assert(data[1] == 0x80 + b && data[2] == 0x80 + a);
    } else if n < 0x20_0000 {
        assert(data[1] == 0x80 + c && data[2] == 0x80 + b && data[3] == 0x80 + a);
    } else if n < 0x400_0000 {
        assert(data[1] == 0x80 + d && data[2] == 0x80 + c && data[3] == 0x80 + b && data[4] == 0x80
            + a);
    } else if n < 0x8000_0000 {
        assert(data[1] == 0x80 + e && data[2] == 0x80 + d && data[3] == 0x80 + c && data[4] == 0x80
            + b && data[5] == 0x80 + a);
    } else {
        assert(f == n / 0x4000_0000);
        assert(data[1] == 0x80 + f && data[2] == 0x80 + e && data[3] == 0x80 + d && data[4] == 0x80
            + c && data[5] == 0x80 + b && data[6] == 0x80 + a);
    }
}

/// The block size of a code, and the bytes that spell it out, as a header has
/// them.
pub open spec fn is_block_size(code: int, extra: Seq<u8>, size: int, len: int) -> bool {
    ||| code == 1 && size == 192 && len == 0
    ||| code == 2 && size == 576 && len == 0
    ||| code == 3 && size == 1152 && len == 0
    ||| code == 4 && size == 2304 && len == 0
    ||| code == 5 && size == 4608 && len == 0
    ||| code == 6 && extra.len() >= 1 && size == extra[0] + 1 && len == 1
    ||| code == 7 && extra.len() >= 2 && size == 256 * extra[0] + extra[1] + 1 && len == 2
    ||| code == 8 && size == 256 && len == 0
    ||| code == 9 && size == 512 && len == 0
    ||| code == 10 && size == 1024 && len == 0
    ||| code == 11 && size == 2048 && len == 0
    ||| code == 12 && size == 4096 && len == 0
    ||| code == 13 && size == 8192 && len == 0
    ||| code == 14 && size == 16384 && len == 0
    ||| code == 15 && size == 32768 && len == 0
}

/// A frame header is read from its bytes: for every number, the bytes of a
/// header with that number, a block size code and a checksum give a header
/// with the number, the size of the code and the length of the bytes. The
/// second byte tells what the number counts.
pub proof fn frame_headers_are_read_back(
    second: u8,
    third: u8,
    fourth: u8,
    number: int,
    extra: Seq<u8>,
    rate: Seq<u8>,
    check: u8,
    size: int,
    rest: Seq<u8>,
)
    requires
        second == 0xF8 || second == 0xF9,
        0 <= number < 0x10_0000_0000,
        is_block_size(third as int / 0x10, extra, size, extra.len() as int),
        third as int % 0x10 != 15,
        rate.len() == (if third as int % 0x10 == 12 {
            1int
        } else if third as int % 0x10 == 13 || third as int % 0x10 == 14 {
            2int
        } else {
            0int
        }),
        fourth as int / 0x10 <= 10,
        fourth as int / 2 % 8 != 3 && fourth as int / 2 % 8 != 7,
        fourth as int % 2 == 0,
        crc::crc8_of(
            seq![0xFFu8, second, third, fourth] + number_bytes(number) + extra + rate + seq![check],
        ) == 0,
    ensures
        ({
            let bytes = seq![0xFFu8, second, third, fourth] + number_bytes(number) + extra + rate
                + seq![check];
            flac::frame_header_of(bytes + rest) matches Some(header) && header.coded_number
                == number && header.block_size == size && header.header_len == bytes.len() && (
            header.strategy == BlockingStrategy::Variable <==> second == 0xF9)
        }),
{
    let lead = seq![0xFFu8, second, third, fourth];
    let digits = number_bytes(number);
    let bytes = lead + digits + extra + rate + seq![check];
    let data = bytes + rest;
    let tail = extra + rate + seq![check] + rest;
    coded_numbers_are_read_back(number, tail);
    assert(data.skip(4) =~= digits + tail);
    assert(data.skip(4 + digits.len() as int) =~= tail);
    let code = (third as int / 0x10) as u8;
    block_sizes_of_the_codes(code, tail);
    if extra.len() >= 1 {
        assert(tail[0] == extra[0]);
    }
    if extra.len() >= 2 {
        assert(tail[1] == extra[1]);
    }
    let len = bytes.len() as int;
    assert(data.take(len) =~= bytes);
}

/// What is read as a frame header begins with fourteen sync bits and a zero,
/// names no reserved rate, channel assignment or depth, has a checksum that
/// holds, and a size that is that of its code.
pub proof fn frame_headers_are_whole(data: Seq<u8>)
    ensures
        flac::frame_header_of(data) matches Some(header) ==> {
            &&& data.len() >= header.header_len >= 6
            &&& data[0] == 0xFF && data[1] / 2 == 0x7C
            &&& data[1] % 2 == 1 <==> header.strategy == BlockingStrategy::Variable
            &&& data[2] % 16 != 15
            &&& data[3] / 16 <= 10 && data[3] % 2 == 0 && data[3] / 2 % 8 != 3 && data[3] / 2 % 8
                != 7
            &&& crc::crc8_of(data.take(header.header_len as int)) == 0
            &&& data[2] / 16 == 12 ==> header.block_size == 4096
            &&& data[2] / 16 != 6 && data[2] / 16 != 7 ==> is_block_size(
                data[2] as int / 16,
                Seq::empty(),
                header.block_size as int,
                0,
            )
        },
{
    flac::frame_header_bounds(data);
    if flac::frame_lead(data) {
        if let Some((number, number_len)) = flac::coded_number(data.skip(4)) {
            block_sizes_of_the_codes((data[2] as int / 0x10) as u8, data.skip(4 + number_len));
        }
    }
}

/// Frames of a fixed size begin one block behind the other: so many frames
/// later means so many blocks later. Frames of varying sizes begin at the
/// sample that they name.
pub proof fn frames_begin_where_they_say(
    header: FlacFrameHeader,
    later: FlacFrameHeader,
    max_block_size: u16,
)
    requires
        header.strategy == later.strategy,
        header.block_size == later.block_size,
        later.coded_number == header.coded_number + 1,
    ensures
        header.strategy == BlockingStrategy::Variable ==> flac::first_sample(header, max_block_size)
            == header.coded_number,
        header.strategy == BlockingStrategy::Fixed && header.coded_number == 0
            ==> flac::first_sample(header, max_block_size) == 0,
        header.strategy == BlockingStrategy::Fixed && max_block_size > 0 ==> flac::first_sample(
            later,
            max_block_size,
        ) == flac::first_sample(header, max_block_size) + max_block_size,
        header.strategy == BlockingStrategy::Fixed && max_block_size == 0 ==> flac::first_sample(
            later,
            max_block_size,
        ) == flac::first_sample(header, max_block_size) + header.block_size,
{
    let n = header.coded_number as int;
    let m = max_block_size as int;
    let b = header.block_size as int;
    assert((n + 1) * m == n * m + m) by (nonlinear_arith);
    assert((n + 1) * b == n * b + b) by (nonlinear_arith);
    assert(n == 0 ==> n * m == 0 && n * b == 0) by (nonlinear_arith);
}

/// A STREAMINFO block is read field by field, most significant bits first: two
/// block sizes of 16 bits, two frame sizes of 24, then a rate of 20 bits, one
/// less than the channels in 3, one less than the depth in 5 and the samples in
/// 36, then a checksum of 16 bytes.
#[verifier::spinoff_prover]
pub proof fn streaminfo_is_read_by_bits(data: Seq<u8>)
    ensures
        flac::streaminfo_of(data) matches Some(info) ==> {
            &&& data.len() >= 34
            &&& info.min_block_size == 256 * data[0] + data[1]
            &&& info.max_block_size == 256 * data[2] + data[3]
            &&& info.min_frame_size == 256 * (256 * data[4] + data[5]) + data[6]
            &&& info.max_frame_size == 256 * (256 * data[7] + data[8]) + data[9]
            &&& info.sample_rate * 0x1000_0000_0000 + (info.channels - 1) * 0x200_0000_0000 + (
            info.bits_per_sample - 1) * 0x10_0000_0000 + info.total_samples == 256 * (256 * (256 * (
            256 * (256 * (256 * (256 * data[10] + data[11]) + data[12]) + data[13]) + data[14])
                + data[15]) + data[16]) + data[17]
            &&& info.channels <= 8 && info.bits_per_sample <= 32 && info.total_samples
                < 0x10_0000_0000
            &&& info.md5 == data.subrange(18, 34)
        },
        flac::streaminfo_of(data) is None <==> data.len() < 34 || (256 * data[0] + data[1] < 16
            && 256 * data[2] + data[3] != 0) || !(0 < (256 * (256 * data[10] + data[11]) + data[12])
            / 16 <= 655_350) || (256 * data[12] + data[13]) / 16 % 32 < 3,
{
    let d = data[12] as int;
    let e = data[13] as int;
    assert((256 * (256 * data[10] + data[11]) + data[12]) / 16 == 0x1000 * data[10] + 0x10
        * data[11] + d / 16);
    assert((256 * d + e) / 16 % 32 == d % 2 * 16 + e / 16);
    assert(d == d / 16 * 16 + d / 2 % 8 * 2 + d % 2);
    assert(e == e / 16 * 16 + e % 16);
}

/// The sample rates that headers name, in hertz: as codes, and spelled out in
/// kilohertz, in hertz and in tens of hertz in front of the checksum.
pub proof fn rates_of_the_codes(data: Seq<u8>, header: FlacFrameHeader)
    ensures
        ({
            let rate = flac::header_rate(data, header);
            let end = header.header_len as int;
            &&& data[2] % 16 == 0 ==> rate is None
            &&& data[2] % 16 == 1 ==> rate == Some(88_200int)
            &&& data[2] % 16 == 2 ==> rate == Some(176_400int)
            &&& data[2] % 16 == 3 ==> rate == Some(192_000int)
            &&& data[2] % 16 == 4 ==> rate == Some(8_000int)
            &&& data[2] % 16 == 5 ==> rate == Some(16_000int)
            &&& data[2] % 16 == 6 ==> rate == Some(22_050int)
            &&& data[2] % 16 == 7 ==> rate == Some(24_000int)
            &&& data[2] % 16 == 8 ==> rate == Some(32_000int)
            &&& data[2] % 16 == 9 ==> rate == Some(44_100int)
            &&& data[2] % 16 == 10 ==> rate == Some(48_000int)
            &&& data[2] % 16 == 11 ==> rate == Some(96_000int)
            &&& data[2] % 16 == 12 ==> rate == Some(1000 * data[end - 2])
            &&& data[2] % 16 == 13 ==> rate == Some(256 * data[end - 3] + data[end - 2])
            &&& data[2] % 16 == 14 ==> rate == Some(10 * (256 * data[end - 3] + data[end - 2]))
        }),
{
}

/// The channels that headers name: one to eight, and two in the three ways to
/// share what they hold.
pub proof fn channels_of_the_codes(data: Seq<u8>)
    ensures
        data[3] / 16 < 8 ==> flac::header_channels(data) == data[3] / 16 + 1,
        8 <= data[3] / 16 <= 10 ==> flac::header_channels(data) == 2,
{
}

/// The depths that headers name.
pub proof fn depths_of_the_codes(data: Seq<u8>)
    ensures
        data[3] / 2 % 8 == 0 ==> flac::header_depth(data) is None,
        data[3] / 2 % 8 == 1 ==> flac::header_depth(data) == Some(8int),
        data[3] / 2 % 8 == 2 ==> flac::header_depth(data) == Some(12int),
        data[3] / 2 % 8 == 4 ==> flac::header_depth(data) == Some(16int),
        data[3] / 2 % 8 == 5 ==> flac::header_depth(data) == Some(20int),
        data[3] / 2 % 8 == 6 ==> flac::header_depth(data) == Some(24int),
{
}

/// A frame agrees with STREAMINFO if and only if it is no longer than the
/// largest block, where frames have a fixed size and that size is known, and
/// each of rate, channels and depth that it names is that of the stream.
pub proof fn agreement_is_of_every_field(
    data: Seq<u8>,
    header: FlacFrameHeader,
    shape: StreamShape,
)
    ensures
        flac::agrees(data, header, shape) <==> {
            &&& header.strategy == BlockingStrategy::Fixed && shape.max_block_size > 0
                ==> header.block_size <= shape.max_block_size
            &&& flac::header_rate(data, header) is None || flac::header_rate(data, header) == Some(
                shape.sample_rate as int,
            )
            &&& flac::header_channels(data) == shape.channels
            &&& flac::header_depth(data) is None || flac::header_depth(data) == Some(
                shape.bits_per_sample as int,
            )
        },
{
}

/// Metadata blocks, one behind the other: a flag for the last one and a type
/// of seven bits, a length of 24 bits, and the body. A run of blocks in which
/// only the last has the flag is split into those blocks.
pub proof fn metadata_blocks_are_read_in_turn(
    data: Seq<u8>,
    offset: int,
    done: Seq<flac::BlockModel>,
    block: flac::BlockModel,
)
    requires
        0 <= offset,
        offset + 4 + block.data.len() <= data.len(),
        block.block_type < 0x80,
        data[offset] == block.block_type + (if block.last {
            128int
        } else {
            0int
        }),
        256 * (256 * data[offset + 1] + data[offset + 2]) + data[offset + 3] == block.data.len(),
        data.subrange(offset + 4, offset + 4 + block.data.len()) == block.data,
        done.len() < 64,
    ensures
        block.last ==> flac::blocks_from(data, offset, done) == Some(done.push(block)),
        !block.last ==> flac::blocks_from(data, offset, done) == flac::blocks_from(
            data,
            offset + 4 + block.data.len(),
            done.push(block),
        ),
{
}

/// The last two bytes of a frame are the checksum of the others, the more
/// significant first.
pub proof fn footers_hold_the_checksum(frame: Seq<u8>)
    requires
        frame.len() >= 2,
    ensures
        flac::footer_holds(frame) <==> crc::crc16_of(frame.drop_last().drop_last()) == 256
            * frame[frame.len() - 2] + frame[frame.len() - 1],
{
    assert(frame.take(frame.len() - 2) =~= frame.drop_last().drop_last());
}

} // verus!
