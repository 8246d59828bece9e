//! What a native FLAC file looks like, and which frames it takes.

use vstd::prelude::*;
use crate::api::AudioCodec;
use crate::codec::flac::{self, StreamShape, StreaminfoModel};
use crate::crc;
use crate::muxer::flac as writer;
use crate::muxer::flac::{FlacQueue, FlacWriterError};
use crate::wire;

verus! {

/// A metadata block: a flag for the last one and the type in one byte, the
/// length in three, the most significant first, and the body.
pub proof fn metadata_block_bytes(last: bool, block_type: u8, payload: Seq<u8>)
    requires
        block_type < 128,
        payload.len() < 0x100_0000,
    ensures
        ({
            let b = writer::block_image(last, block_type, payload);
            &&& b.len() == 4 + payload.len()
            &&& b[0] / 128 == 1 <==> last
            &&& b[0] % 128 == block_type
            &&& 256 * (256 * b[1] + b[2]) + b[3] == payload.len()
            &&& b.skip(4) == payload
        }),
{
    let b = writer::block_image(last, block_type, payload);
    wire::big_endian_bytes(0, payload.len() as u32, 0, 0);
    assert(b.skip(4) =~= payload);
}

/// The comments: the length of the vendor and the vendor, the number of
/// comments, and, with a title, the length of the comment, `TITLE=` and the
/// title.
pub proof fn comment_block_bytes(title: Option<Seq<char>>)
    requires
        title matches Some(text) ==> vstd::utf8::encode_utf8(text).len() + 6 <= u32::MAX,
    ensures
        ({
            let p = writer::comment_bytes(title);
            &&& p[0] + 256 * (p[1] + 256 * (p[2] + 256 * p[3])) == 6
            &&& p[4] == 0x6D && p[5] == 0x75 && p[6] == 0x78 && p[7] == 0x66 && p[8] == 0x69 && p[9]
                == 0x6E
            &&& title is None || title->0.len() == 0 ==> p.len() == 14 && p[10] + 256 * (p[11] + 256
                * (p[12] + 256 * p[13])) == 0
            &&& title matches Some(text) ==> text.len() > 0 ==> {
                let bytes = vstd::utf8::encode_utf8(text);
                &&& p[10] + 256 * (p[11] + 256 * (p[12] + 256 * p[13])) == 1
                &&& p[14] + 256 * (p[15] + 256 * (p[16] + 256 * p[17])) == bytes.len() + 6
                &&& p[18] == 0x54 && p[19] == 0x49 && p[20] == 0x54 && p[21] == 0x4C && p[22]
                    == 0x45 && p[23] == 0x3D
                &&& p.skip(24) == bytes
            }
        }),
{
    let p = writer::comment_bytes(title);
    wire::little_endian_bytes(0, 6, 0);
    wire::little_endian_bytes(0, 0, 0);
    wire::little_endian_bytes(0, 1, 0);
    if title is Some && title->0.len() > 0 {
        let bytes = vstd::utf8::encode_utf8(title->0);
        wire::little_endian_bytes(0, (bytes.len() + 6) as u32, 0);
        assert(p.skip(24) =~= bytes);
    }
}

/// Frame sizes are stored as they are, up to what 24 bits hold.
pub proof fn frame_sizes_are_capped(size: int)
    requires
        0 <= size,
    ensures
        size <= 0xFF_FFFF ==> writer::size_field(size) == size,
        size > 0xFF_FFFF ==> writer::size_field(size) == 0xFF_FFFF,
{
}

/// The shortest and the longest frame are frames.
pub proof fn extreme_lengths_are_of_frames(frames: Seq<Seq<u8>>) -> (at: (int, int))
    requires
        frames.len() > 0,
    ensures
        0 <= at.0 < frames.len() && frames[at.0].len() == writer::shortest(frames),
        0 <= at.1 < frames.len() && frames[at.1].len() == writer::longest(frames),
        forall|k: int|
            0 <= k < frames.len() ==> writer::shortest(frames) <= (#[trigger] frames[k]).len()
                <= writer::longest(frames),
    decreases frames.len(),
{
    assert forall|k: int| 0 <= k < frames.len() implies writer::shortest(frames) <= (
    #[trigger] frames[k]).len() <= writer::longest(frames) by {
        writer::frame_lengths_are_bounds(frames, k);
    }
    if frames.len() == 1 {
        (0, 0)
    } else {
        let less = frames.drop_last();
        let at = extreme_lengths_are_of_frames(less);
        assert(frames[at.0] == less[at.0] && frames[at.1] == less[at.1]);
        let last = frames.len() - 1;
        (
            if writer::shortest(less) <= frames.last().len() {
                at.0
            } else {
                last
            },
            if writer::longest(less) >= frames.last().len() {
                at.1
            } else {
                last
            },
        )
    }
}

/// The STREAMINFO block of a file: the sizes of the shortest and the longest
/// frame in three bytes each, the most significant first.
pub proof fn frame_sizes_are_stored(
    supplied: StreaminfoModel,
    min_frame: u32,
    max_frame: u32,
    total_samples: u64,
)
    requires
        min_frame <= 0xFF_FFFF && max_frame <= 0xFF_FFFF,
        flac::streaminfo_bytes(
            supplied.min_block_size,
            supplied.max_block_size,
            supplied.sample_rate,
            supplied.channels,
            supplied.bits_per_sample,
            total_samples,
        ).len() == 34,
    ensures
        ({
            let b = writer::final_streaminfo(supplied, min_frame, max_frame, total_samples);
            &&& b.len() == 34
            &&& 256 * (256 * b[4] + b[5]) + b[6] == min_frame
            &&& 256 * (256 * b[7] + b[8]) + b[9] == max_frame
        }),
{
    wire::big_endian_bytes(0, min_frame, 0, 0);
    wire::big_endian_bytes(0, max_frame, 0, 0);
}

/// A file begins with `fLaC`; behind it stand a STREAMINFO block and, as the
/// last, the comments, and then the frames as they are.
pub proof fn files_begin_with_the_marker(
    supplied: StreaminfoModel,
    total_samples: u64,
    title: Option<Seq<char>>,
    frames: Seq<Seq<u8>>,
)
    ensures
        ({
            let b = writer::file_image(supplied, total_samples, title, frames);
            let info = writer::final_streaminfo(
                supplied,
                writer::size_field(writer::shortest(frames)),
                writer::size_field(writer::longest(frames)),
                total_samples,
            );
            &&& b[0] == 0x66 && b[1] == 0x4C && b[2] == 0x61 && b[3] == 0x43
            &&& b.skip(4) == writer::block_image(false, 0, info) + writer::block_image(
                true,
                4,
                writer::comment_bytes(title),
            ) + wire::joined(frames)
        }),
{
    let b = writer::file_image(supplied, total_samples, title, frames);
    let info = writer::final_streaminfo(
        supplied,
        writer::size_field(writer::shortest(frames)),
        writer::size_field(writer::longest(frames)),
        total_samples,
    );
    assert(b.skip(4) =~= writer::block_image(false, 0, info) + writer::block_image(
        true,
        4,
        writer::comment_bytes(title),
    ) + wire::joined(frames));
}

/// A frame is taken if and only if it has a header, its last two bytes are the
/// checksum of the others, it agrees with STREAMINFO, and it does not begin
/// before the end of the one in front of it.
pub proof fn frames_are_taken_when_they_are_sound(
    data: Seq<u8>,
    shape: StreamShape,
    prev_end: Option<u64>,
)
    ensures
        writer::frame_fault(data, shape, prev_end) is None <==> (flac::frame_header_of(
            data,
        ) matches Some(header) && data.len() >= 6 && crc::crc16_of(data.take(data.len() - 2)) == 256
            * data[data.len() - 2] + data[data.len() - 1] && flac::agrees(data, header, shape) && (
        prev_end matches Some(end) ==> flac::first_sample(header, shape.max_block_size) >= end)),
        flac::frame_header_of(data) is None ==> writer::frame_fault(data, shape, prev_end) == Some(
            FlacWriterError::InvalidFlacFrame,
        ),
{
}

/// A frame ends as many samples behind its beginning as its block has.
pub proof fn frames_end_behind_their_block(data: Seq<u8>, max_block_size: u16)
    requires
        flac::frame_header_of(data) is Some,
    ensures
        writer::frame_end(data, max_block_size) == flac::first_sample(
            flac::frame_header_of(data)->0,
            max_block_size,
        ) + flac::frame_header_of(data)->0.block_size,
{
    flac::first_sample_bound(data, max_block_size);
}

/// A file can be written if and only if that has not been tried, the track is
/// FLAC with a valid STREAMINFO of its own rate and channels, and there are
/// frames.
pub proof fn files_are_written_when_they_can_be(queue: FlacQueue)
    ensures
        queue.file_fault() is None <==> !queue.finalized && queue.track is Some
            && queue.track->0.codec == AudioCodec::Flac && (writer::supplied_streaminfo(
            queue.track->0,
        ) matches Some(info) && info.sample_rate == queue.track->0.sample_rate && info.channels
            == queue.track->0.channels) && queue.frames.len() > 0,
        queue.finalized ==> queue.file_fault() == Some(FlacWriterError::FinalizedTwice),
        queue.finalized ==> queue.frame_fault(Seq::empty()) == Some(
            FlacWriterError::AlreadyFinalized,
        ),
        queue.file_fault() is None ==> queue.file(None) == writer::file_image(
            writer::supplied_streaminfo(queue.track->0)->0,
            match queue.end {
                Some(end) => end,
                None => 0,
            },
            None,
            queue.frames,
        ),
{
}

} // verus!
