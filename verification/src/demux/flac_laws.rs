//! Which bytes of a FLAC file are frames.

use vstd::prelude::*;
use crate::codec::flac::{self, StreamShape};
use crate::crc;
use crate::demux::flac as demux;
use crate::demux::flac::{FlacError, FrameModel, StreamModel};

verus! {

/// Every place where a frame header stands is found.
pub proof fn every_header_is_found(audio: Seq<u8>, from: int, at: int) -> (k: int)
    requires
        0 <= from <= at < audio.len(),
        flac::frame_header_of(audio.skip(at)) is Some,
    ensures
        0 <= k < demux::starts_from(audio, from).len(),
        demux::starts_from(audio, from)[k] == at,
    decreases at - from,
{
    if from == at {
        assert(demux::frame_starts_at(audio, at));
        0
    } else {
        let k = every_header_is_found(audio, from + 1, at);
        if demux::frame_starts_at(audio, from) {
            assert(demux::starts_from(audio, from)[k + 1] == at);
            k + 1
        } else {
            k
        }
    }
}

/// A frame is taken if and only if it has a header, agrees with STREAMINFO,
/// ends with the checksum of its other bytes, and does not begin before the end
/// of the one in front of it. It has the first sample and the block size of its
/// header, and all of its bytes.
pub proof fn frames_are_taken_when_they_are_sound(
    slice: Seq<u8>,
    index: int,
    shape: StreamShape,
    prev_end: Option<int>,
)
    ensures
        demux::frame_of(slice, index, shape, prev_end) is Ok <==> (flac::frame_header_of(
            slice,
        ) matches Some(header) && slice.len() >= 6 && flac::agrees(slice, header, shape)
            && crc::crc16_of(slice.take(slice.len() - 2)) == 256 * slice[slice.len() - 2]
            + slice[slice.len() - 1] && (prev_end matches Some(end) ==> flac::first_sample(
            header,
            shape.max_block_size,
        ) >= end)),
        demux::frame_of(slice, index, shape, prev_end) matches Ok(frame) ==> {
            let header = flac::frame_header_of(slice)->0;
            &&& frame.sample_number == flac::first_sample(header, shape.max_block_size)
            &&& frame.block_size == header.block_size
            &&& frame.data == slice
        },
        flac::frame_header_of(slice) matches Some(header) ==> slice.len() >= 6 && !flac::agrees(
            slice,
            header,
            shape,
        ) ==> demux::frame_of(slice, index, shape, prev_end) == Err::<FrameModel, FlacError>(
            FlacError::InconsistentFrame { frame: index as usize },
        ),
{
}

/// The bytes between one header and the next are a frame.
pub proof fn frames_reach_to_the_next_header(audio: Seq<u8>, starts: Seq<int>, k: int)
    requires
        0 <= k < starts.len(),
        forall|i: int| 0 <= i < starts.len() ==> 0 <= #[trigger] starts[i] <= audio.len(),
        forall|i: int, j: int|
            0 <= i < j < starts.len() ==> #[trigger] starts[i] < #[trigger] starts[j],
    ensures
        k + 1 < starts.len() ==> demux::frame_slice(audio, starts, k) == audio.subrange(
            starts[k],
            starts[k + 1],
        ),
        k + 1 == starts.len() ==> demux::frame_slice(audio, starts, k) == audio.skip(starts[k]),
{
    assert(audio.subrange(starts[k], audio.len() as int) =~= audio.skip(starts[k]));
}

/// What is no FLAC file is told: nothing at all, and data that does not begin
/// with `fLaC`.
pub proof fn files_begin_with_the_marker(data: Seq<u8>)
    ensures
        data.len() == 0 ==> demux::demuxed(data) == Err::<StreamModel, FlacError>(FlacError::Empty),
        data.len() > 0 && !(data.len() >= 4 && data[0] == 0x66 && data[1] == 0x4C && data[2] == 0x61
            && data[3] == 0x43) ==> demux::demuxed(data) == Err::<StreamModel, FlacError>(
            FlacError::BadMarker,
        ),
        demux::demuxed(data) matches Ok(stream) ==> {
            &&& data.len() >= 4 && data[0] == 0x66 && data[1] == 0x4C && data[2] == 0x61 && data[3]
                == 0x43
            &&& stream.metadata_blocks.len() > 0
            &&& stream.metadata_blocks[0].block_type == 0
            &&& stream.metadata_blocks[0].data.len() == 34
            &&& stream.streaminfo_raw == stream.metadata_blocks[0].data
            &&& flac::streaminfo_of(stream.streaminfo_raw) == Some(stream.streaminfo)
            &&& stream.frames.len() > 0
        },
{
    if data.len() >= 4 {
        let front = data.subrange(0, 4);
        assert(front[0] == data[0] && front[1] == data[1] && front[2] == data[2] && front[3]
            == data[3]);
        assert(flac::FLAC_MARKER@[0] == 0x66 && flac::FLAC_MARKER@[1] == 0x4C
            && flac::FLAC_MARKER@[2] == 0x61 && flac::FLAC_MARKER@[3] == 0x43);
        if data[0] == 0x66 && data[1] == 0x4C && data[2] == 0x61 && data[3] == 0x43 {
            assert(front =~= flac::FLAC_MARKER@);
        }
    }
    if demux::demuxed(data) is Ok {
        demux::demuxed_frames_cover_audio(data);
        lemma_some_block(data.skip(4), 0, Seq::empty());
    }
}

proof fn lemma_some_block(data: Seq<u8>, offset: int, done: Seq<flac::BlockModel>)
    requires
        0 <= offset,
    ensures
        flac::blocks_from(data, offset, done) matches Some(blocks) ==> blocks.len() > done.len(),
    decreases data.len() - offset,
{
    if flac::blocks_from(data, offset, done) is Some {
        let last = data[offset] >= 0x80;
        let len = crate::wire::be24_at(data, offset + 1);
        if !last {
            let block = flac::BlockModel {
                block_type: (data[offset] % 0x80) as u8,
                last,
                data: data.subrange(offset + 4, offset + 4 + len),
            };
            lemma_some_block(data, offset + 4 + len, done.push(block));
        }
    }
}

} // verus!
