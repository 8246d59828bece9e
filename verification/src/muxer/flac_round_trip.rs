//! What the FLAC writer lays out, the FLAC demuxer reads back.

use vstd::prelude::*;
use crate::codec::flac::{self, BlockModel, StreamShape, StreaminfoModel, FLAC_MARKER};
use crate::demux::flac as demuxer;
use crate::demux::flac::{FlacError, FrameModel, StreamModel};
use crate::muxer::flac as writer;
use crate::wire;

verus! {

/// Where the `k`-th frame starts in the joined frames.
pub open spec fn boundary(frames: Seq<Seq<u8>>, k: int) -> int {
    wire::joined(frames.take(k)).len() as int
}

/// Whether every frame is accepted behind those before it.
pub open spec fn all_accepted(frames: Seq<Seq<u8>>, shape: StreamShape) -> bool {
    forall|k: int| 0 <= k < frames.len() ==> #[trigger] accepted(frames, shape, k)
}

/// Whether the `k`-th frame is accepted behind the one before it.
pub open spec fn accepted(frames: Seq<Seq<u8>>, shape: StreamShape, k: int) -> bool {
    writer::frame_fault(frames[k], shape, end_before(frames, shape.max_block_size, k)) is None
}

/// The sample behind the frame before the `k`-th.
pub open spec fn end_before(frames: Seq<Seq<u8>>, max_block_size: u16, k: int) -> Option<u64> {
    if k <= 0 {
        None
    } else {
        Some(writer::frame_end(frames[k - 1], max_block_size))
    }
}

/// A frame that is accepted behind accepted frames joins them.
pub proof fn acceptance_extends(frames: Seq<Seq<u8>>, data: Seq<u8>, shape: StreamShape)
    requires
        all_accepted(frames, shape),
        writer::frame_fault(
            data,
            shape,
            end_before(frames, shape.max_block_size, frames.len() as int),
        ) is None,
    ensures
        all_accepted(frames.push(data), shape),
        end_before(frames.push(data), shape.max_block_size, frames.len() as int + 1) == Some(
            writer::frame_end(data, shape.max_block_size),
        ),
{
    let more = frames.push(data);
    assert forall|k: int| 0 <= k < more.len() implies #[trigger] accepted(
        more,
        shape,
        k,
    ) by {
        if k > 0 {
            assert(more[k - 1] == frames[k - 1]);
        }
        if k < frames.len() {
            assert(accepted(frames, shape, k));
        }
    }
}

/// Whether no frame holds, past its first byte, what reads as a frame header.
pub open spec fn separable(frames: Seq<Seq<u8>>) -> bool {
    forall|i: int|
        0 <= i < wire::joined(frames).len() && #[trigger] demuxer::frame_starts_at(
            wire::joined(frames),
            i,
        ) ==> exists|k: int| 0 <= k < frames.len() && i == #[trigger] boundary(frames, k)
}

/// The frames of a queue as the demuxer gives them.
pub open spec fn placed_frames(frames: Seq<Seq<u8>>, max_block_size: u16) -> Seq<FrameModel> {
    Seq::new(
        frames.len(),
        |k: int|
            {
                let header = flac::frame_header_of(frames[k])->0;
                FrameModel {
                    sample_number: flac::first_sample(header, max_block_size),
                    block_size: header.block_size,
                    data: frames[k],
                }
            },
    )
}

proof fn lemma_boundary_step(frames: Seq<Seq<u8>>, k: int)
    requires
        0 <= k < frames.len(),
    ensures
        boundary(frames, k + 1) == boundary(frames, k) + frames[k].len(),
        wire::joined(frames.take(k + 1)) == wire::joined(frames.take(k)) + frames[k],
{
    assert(frames.take(k + 1).drop_last() =~= frames.take(k));
    assert(frames.take(k + 1).last() == frames[k]);
}

/// What is joined begins with what is joined of a prefix.
proof fn lemma_joined_split(frames: Seq<Seq<u8>>, k: int)
    requires
        0 <= k <= frames.len(),
    ensures
        boundary(frames, k) <= wire::joined(frames).len(),
        wire::joined(frames).take(boundary(frames, k)) == wire::joined(frames.take(k)),
    decreases frames.len() - k,
{
    let all = wire::joined(frames);
    if k == frames.len() {
        assert(frames.take(k) =~= frames);
        assert(all.take(boundary(frames, k)) =~= all);
    } else {
        lemma_joined_split(frames, k + 1);
        lemma_boundary_step(frames, k);
        assert(all.take(boundary(frames, k)) =~= all.take(boundary(frames, k + 1)).take(
            boundary(frames, k),
        ));
        assert((wire::joined(frames.take(k)) + frames[k]).take(boundary(frames, k))
            =~= wire::joined(frames.take(k)));
    }
}

/// The `k`-th frame stands between its boundaries.
proof fn lemma_frame_between(frames: Seq<Seq<u8>>, k: int)
    requires
        0 <= k < frames.len(),
    ensures
        0 <= boundary(frames, k) <= boundary(frames, k + 1) <= wire::joined(frames).len(),
        boundary(frames, k + 1) == boundary(frames, k) + frames[k].len(),
        wire::joined(frames).subrange(boundary(frames, k), boundary(frames, k + 1)) == frames[k],
{
    lemma_joined_split(frames, k + 1);
    lemma_boundary_step(frames, k);
    let all = wire::joined(frames);
    let from = boundary(frames, k);
    let to = boundary(frames, k + 1);
    assert(all.subrange(from, to) =~= all.take(to).subrange(from, to));
    assert((wire::joined(frames.take(k)) + frames[k]).subrange(from, to) =~= frames[k]);
}

/// A run of positions without frame starts adds none.
proof fn lemma_no_starts_between(audio: Seq<u8>, from: int, to: int)
    requires
        0 <= from <= to <= audio.len(),
        forall|i: int| from <= i < to ==> !#[trigger] demuxer::frame_starts_at(audio, i),
    ensures
        demuxer::starts_from(audio, from) == demuxer::starts_from(audio, to),
    decreases to - from,
{
    if from < to {
        assert(!demuxer::frame_starts_at(audio, from));
        lemma_no_starts_between(audio, from + 1, to);
    }
}

/// Boundaries grow with the number of frames before them.
proof fn lemma_boundaries_grow(frames: Seq<Seq<u8>>, j: int, k: int)
    requires
        0 <= j <= k <= frames.len(),
        forall|i: int| 0 <= i < frames.len() ==> (#[trigger] frames[i]).len() > 0,
    ensures
        boundary(frames, j) <= boundary(frames, k),
        j < k ==> boundary(frames, j) < boundary(frames, k),
    decreases k - j,
{
    if j < k {
        lemma_boundaries_grow(frames, j, k - 1);
        lemma_boundary_step(frames, k - 1);
        assert(frames[k - 1].len() > 0);
    }
}

/// The frame starts from the `k`-th boundary on are the boundaries.
proof fn lemma_starts_are_boundaries(frames: Seq<Seq<u8>>, k: int)
    requires
        0 <= k <= frames.len(),
        separable(frames),
        forall|i: int|
            0 <= i < frames.len() ==> flac::frame_header_of(#[trigger] frames[i]) is Some,
    ensures
        demuxer::starts_from(wire::joined(frames), boundary(frames, k)) == Seq::new(
            (frames.len() - k) as nat,
            |i: int| boundary(frames, k + i),
        ),
    decreases frames.len() - k,
{
    let all = wire::joined(frames);
    if k == frames.len() {
        assert(frames.take(k) =~= frames);
        assert(demuxer::starts_from(all, boundary(frames, k)) =~= Seq::new(
            0,
            |i: int| boundary(frames, k + i),
        ));
    } else {
        let from = boundary(frames, k);
        let to = boundary(frames, k + 1);
        lemma_frame_between(frames, k);
        flac::frame_header_bounds(frames[k]);
        assert(all.skip(from) =~= frames[k] + all.skip(to));
        flac::frame_header_ignores_what_follows(frames[k], all.skip(to));
        assert(demuxer::frame_starts_at(all, from));
        assert forall|i: int| 0 <= i < frames.len() implies (#[trigger] frames[i]).len() > 0 by {
            flac::frame_header_bounds(frames[i]);
        }
        assert forall|i: int| from + 1 <= i < to implies !#[trigger] demuxer::frame_starts_at(
            all,
            i,
        ) by {
            if demuxer::frame_starts_at(all, i) {
                let j = choose|j: int| 0 <= j < frames.len() && i == #[trigger] boundary(frames, j);
                if j <= k {
                    lemma_boundaries_grow(frames, j, k);
                } else {
                    lemma_boundaries_grow(frames, k + 1, j);
                }
            }
        }
        lemma_no_starts_between(all, from + 1, to);
        lemma_starts_are_boundaries(frames, k + 1);
        let rest = Seq::new((frames.len() - k - 1) as nat, |i: int| boundary(frames, k + 1 + i));
        assert(demuxer::starts_from(all, from) == seq![from] + rest);
        assert(seq![from] + rest =~= Seq::new(
            (frames.len() - k) as nat,
            |i: int| boundary(frames, k + i),
        ));
    }
}

/// An accepted frame is placed behind the frames before it.
proof fn lemma_frame_placed(frames: Seq<Seq<u8>>, shape: StreamShape, n: int)
    requires
        0 <= n < frames.len(),
        all_accepted(frames, shape),
    ensures
        demuxer::frame_of(
            frames[n],
            n,
            shape,
            demuxer::end_of(placed_frames(frames, shape.max_block_size).take(n)),
        ) == Ok::<FrameModel, FlacError>(placed_frames(frames, shape.max_block_size)[n]),
{
    let placed = placed_frames(frames, shape.max_block_size);
    assert(accepted(frames, shape, n));
    flac::frame_header_bounds(frames[n]);
    if n > 0 {
        assert(accepted(frames, shape, n - 1));
        assert(placed.take(n).last() == placed[n - 1]);
        flac::frame_header_bounds(frames[n - 1]);
        flac::first_sample_bound(frames[n - 1], shape.max_block_size);
    }
}

/// The slices between the frame starts are the frames.
proof fn lemma_slices_are_frames(frames: Seq<Seq<u8>>, n: int)
    requires
        0 <= n < frames.len(),
        separable(frames),
        forall|i: int|
            0 <= i < frames.len() ==> flac::frame_header_of(#[trigger] frames[i]) is Some,
    ensures
        demuxer::starts_from(wire::joined(frames), 0).len() == frames.len(),
        demuxer::frame_slice(
            wire::joined(frames),
            demuxer::starts_from(wire::joined(frames), 0),
            n,
        ) == frames[n],
{
    lemma_starts_are_boundaries(frames, 0);
    assert(frames.take(0) =~= Seq::<Seq<u8>>::empty());
    assert(boundary(frames, 0) == 0);
    lemma_frame_between(frames, n);
    if n + 1 == frames.len() {
        assert(frames.take(n + 1) =~= frames);
    }
}

/// The frames are read back, those from the `n`-th on behind the others.
proof fn lemma_frames_read_back(frames: Seq<Seq<u8>>, shape: StreamShape, n: int)
    requires
        frames.len() > 0,
        0 <= n <= frames.len(),
        separable(frames),
        all_accepted(frames, shape),
    ensures
        demuxer::frames_from(
            wire::joined(frames),
            demuxer::starts_from(wire::joined(frames), 0),
            shape,
            placed_frames(frames, shape.max_block_size).take(n),
        ) == Ok::<Seq<FrameModel>, FlacError>(placed_frames(frames, shape.max_block_size)),
    decreases frames.len() - n,
{
    let placed = placed_frames(frames, shape.max_block_size);
    lemma_headers_parse(frames, shape);
    if n == frames.len() {
        lemma_slices_are_frames(frames, 0);
        assert(placed.take(n) =~= placed);
    } else {
        lemma_slices_are_frames(frames, n);
        lemma_frame_placed(frames, shape, n);
        assert(placed.take(n).push(placed[n]) =~= placed.take(n + 1));
        lemma_frames_read_back(frames, shape, n + 1);
    }
}

/// The STREAMINFO of the written file.
pub open spec fn written_streaminfo(
    supplied: StreaminfoModel,
    total_samples: u64,
    frames: Seq<Seq<u8>>,
) -> StreaminfoModel {
    StreaminfoModel {
        min_frame_size: writer::size_field(writer::shortest(frames)),
        max_frame_size: writer::size_field(writer::longest(frames)),
        total_samples: (total_samples % 0x10_0000_0000) as u64,
        md5: Seq::new(16, |i: int| 0u8),
        ..supplied
    }
}

/// Whether a STREAMINFO holds what a block can.
pub open spec fn streaminfo_is_valid(info: StreaminfoModel) -> bool {
    &&& info.min_block_size >= 16 || info.max_block_size == 0
    &&& 0 < info.sample_rate <= flac::MAX_SAMPLE_RATE
    &&& 1 <= info.channels <= 8
    &&& 4 <= info.bits_per_sample <= 32
}

/// Every STREAMINFO that is read is valid.
pub proof fn parsed_streaminfo_is_valid(data: Seq<u8>)
    ensures
        flac::streaminfo_of(data) matches Some(info) ==> streaminfo_is_valid(info),
{
}

/// The STREAMINFO of the file is read back.
proof fn lemma_streaminfo_read_back(
    supplied: StreaminfoModel,
    min_frame: u32,
    max_frame: u32,
    total_samples: u64,
)
    requires
        streaminfo_is_valid(supplied),
        min_frame <= writer::MAX_FRAME_SIZE,
        max_frame <= writer::MAX_FRAME_SIZE,
    ensures
        writer::final_streaminfo(supplied, min_frame, max_frame, total_samples).len() == 34,
        flac::streaminfo_of(
            writer::final_streaminfo(supplied, min_frame, max_frame, total_samples),
        ) == Some(
            StreaminfoModel {
                min_frame_size: min_frame,
                max_frame_size: max_frame,
                total_samples: (total_samples % 0x10_0000_0000) as u64,
                md5: Seq::new(16, |i: int| 0u8),
                ..supplied
            },
        ),
{
    let total: u64 = (total_samples % 0x10_0000_0000) as u64;
    let body = flac::streaminfo_bytes(
        supplied.min_block_size,
        supplied.max_block_size,
        supplied.sample_rate,
        supplied.channels,
        supplied.bits_per_sample,
        total,
    );
    lemma_total_wraps(supplied, total_samples);
    flac::streaminfo_round_trip(
        supplied.min_block_size,
        supplied.max_block_size,
        supplied.sample_rate,
        supplied.channels,
        supplied.bits_per_sample,
        total,
    );
    lemma_sizes_patched(body, min_frame, max_frame);
}

/// Of the total, the body holds 36 bits.
proof fn lemma_total_wraps(info: StreaminfoModel, total_samples: u64)
    ensures
        ({
            let body = flac::streaminfo_bytes(
                info.min_block_size,
                info.max_block_size,
                info.sample_rate,
                info.channels,
                info.bits_per_sample,
                total_samples,
            );
            &&& body.len() == 34
            &&& body == flac::streaminfo_bytes(
                info.min_block_size,
                info.max_block_size,
                info.sample_rate,
                info.channels,
                info.bits_per_sample,
                (total_samples % 0x10_0000_0000) as u64,
            )
        }),
{
    let total: u64 = (total_samples % 0x10_0000_0000) as u64;
    assert(total / 0x1_0000_0000 % 0x10 == total_samples / 0x1_0000_0000 % 0x10);
    assert(total % 0x1_0000_0000 == total_samples % 0x1_0000_0000);
}

/// Putting frame sizes into a STREAMINFO body changes nothing else.
proof fn lemma_sizes_patched(body: Seq<u8>, min_frame: u32, max_frame: u32)
    requires
        body.len() == 34,
        min_frame <= writer::MAX_FRAME_SIZE,
        max_frame <= writer::MAX_FRAME_SIZE,
        flac::streaminfo_of(body) is Some,
    ensures
        (body.take(4) + wire::be24(min_frame) + wire::be24(max_frame) + body.skip(10)).len() == 34,
        flac::streaminfo_of(
            body.take(4) + wire::be24(min_frame) + wire::be24(max_frame) + body.skip(10),
        ) == Some(
            StreaminfoModel {
                min_frame_size: min_frame,
                max_frame_size: max_frame,
                ..flac::streaminfo_of(body)->0
            },
        ),
{
    let patched = body.take(4) + wire::be24(min_frame) + wire::be24(max_frame) + body.skip(10);
    assert(patched.len() == 34);
    assert(patched.subrange(18, 34) =~= body.subrange(18, 34));
    assert(patched[4] == wire::be24(min_frame)[0]);
    assert(patched[5] == wire::be24(min_frame)[1]);
    assert(patched[6] == wire::be24(min_frame)[2]);
    assert(patched[7] == wire::be24(max_frame)[0]);
    assert(patched[8] == wire::be24(max_frame)[1]);
    assert(patched[9] == wire::be24(max_frame)[2]);
    assert(wire::be24_at(patched, 4) == min_frame);
    assert(wire::be24_at(patched, 7) == max_frame);
    assert(wire::be16_at(patched, 0) == wire::be16_at(body, 0));
    assert(wire::be16_at(patched, 2) == wire::be16_at(body, 2));
    assert(wire::be32_at(patched, 14) == wire::be32_at(body, 14));
}

/// A block that is not the last is read, and reading goes on behind it.
proof fn lemma_block_read(
    before: Seq<u8>,
    last: bool,
    block_type: u8,
    payload: Seq<u8>,
    after: Seq<u8>,
    done: Seq<BlockModel>,
)
    requires
        block_type < 0x80,
        payload.len() <= 0xFF_FFFF,
        done.len() < flac::MAX_METADATA_BLOCKS,
    ensures
        ({
            let data = before + writer::block_image(last, block_type, payload) + after;
            let next = done.push(BlockModel { last, block_type, data: payload });
            flac::blocks_from(data, before.len() as int, done) == (if last {
                Some(next)
            } else {
                flac::blocks_from(data, (before.len() + 4 + payload.len()) as int, next)
            })
        }),
{
    let image = writer::block_image(last, block_type, payload);
    let data = before + image + after;
    let offset = before.len() as int;
    assert(image.len() == 4 + payload.len());
    assert forall|k: int| 0 <= k < image.len() implies #[trigger] data[offset + k] == image[k] by {}
    let len: u32 = (payload.len() % 0x1_0000_0000) as u32;
    assert(data[offset + 0] == image[0]);
    assert(data[offset + 1] == image[1] == wire::be24(len)[0]);
    assert(data[offset + 2] == image[2] == wire::be24(len)[1]);
    assert(data[offset + 3] == image[3] == wire::be24(len)[2]);
    assert(wire::be24_at(data, offset + 1) == payload.len());
    assert(data.subrange(offset + 4, offset + 4 + payload.len()) =~= payload) by {
        assert forall|k: int| 0 <= k < payload.len() implies data[offset + 4 + k] == payload[k] by {
            assert(data[offset + (4 + k)] == image[4 + k]);
        }
    }
}

/// The stream that is written: the counted STREAMINFO, a comment block, and
/// the frames as they came.
pub open spec fn written_stream(
    supplied: StreaminfoModel,
    total_samples: u64,
    title: Option<Seq<char>>,
    frames: Seq<Seq<u8>>,
) -> StreamModel {
    let info = writer::final_streaminfo(
        supplied,
        writer::size_field(writer::shortest(frames)),
        writer::size_field(writer::longest(frames)),
        total_samples,
    );
    StreamModel {
        streaminfo: written_streaminfo(supplied, total_samples, frames),
        streaminfo_raw: info,
        metadata_blocks: seq![
            BlockModel { last: false, block_type: 0, data: info },
            BlockModel { last: true, block_type: 4, data: writer::comment_bytes(title) },
        ],
        frames: placed_frames(frames, supplied.max_block_size),
    }
}

/// The metadata of the file is read back, and the frames follow it.
proof fn lemma_metadata_read_back(
    info: Seq<u8>,
    comments: Seq<u8>,
    audio: Seq<u8>,
)
    requires
        info.len() == 34,
        comments.len() <= 0xFF_FFFF,
    ensures
        ({
            let data = FLAC_MARKER@ + writer::block_image(false, 0, info) + writer::block_image(
                true,
                4,
                comments,
            ) + audio;
            let blocks = seq![
                BlockModel { last: false, block_type: 0, data: info },
                BlockModel { last: true, block_type: 4, data: comments },
            ];
            &&& data.len() > 0
            &&& wire::begins_with(data, FLAC_MARKER@)
            &&& flac::blocks_from(data.skip(4), 0, Seq::empty()) == Some(blocks)
            &&& data.skip(4 + demuxer::blocks_len(blocks)) == audio
        }),
{
    let first = writer::block_image(false, 0, info);
    let second = writer::block_image(true, 4, comments);
    let data = FLAC_MARKER@ + first + second + audio;
    let rest = data.skip(4);
    let none = Seq::<u8>::empty();
    let head = BlockModel { last: false, block_type: 0, data: info };
    let tail = BlockModel { last: true, block_type: 4, data: comments };
    let blocks = seq![head, tail];
    assert(data.subrange(0, 4) =~= FLAC_MARKER@);
    assert(rest =~= none + first + (second + audio));
    lemma_block_read(none, false, 0, info, second + audio, Seq::empty());
    assert(rest =~= first + second + audio);
    assert(first.len() == 4 + info.len());
    assert(second.len() == 4 + comments.len());
    lemma_block_read(first, true, 4, comments, audio, Seq::empty().push(head));
    assert(Seq::empty().push(head).push(tail) =~= blocks);
    assert(demuxer::blocks_len(blocks) == first.len() + second.len()) by {
        reveal_with_fuel(demuxer::blocks_len, 3);
        assert(blocks.drop_last() =~= seq![head]);
        assert(seq![head].drop_last() =~= Seq::empty());
    }
    assert(data.skip(4 + demuxer::blocks_len(blocks)) =~= audio);
}

/// The parts of a stream make the stream.
proof fn lemma_demuxed_from_parts(
    data: Seq<u8>,
    blocks: Seq<BlockModel>,
    info: StreaminfoModel,
    frames: Seq<FrameModel>,
)
    requires
        data.len() > 0,
        wire::begins_with(data, FLAC_MARKER@),
        flac::blocks_from(data.skip(4), 0, Seq::empty()) == Some(blocks),
        blocks[0].block_type == 0,
        blocks[0].data.len() == 34,
        flac::streaminfo_of(blocks[0].data) == Some(info),
        demuxer::starts_from(data.skip(4 + demuxer::blocks_len(blocks)), 0).len() > 0,
        demuxer::frames_from(
            data.skip(4 + demuxer::blocks_len(blocks)),
            demuxer::starts_from(data.skip(4 + demuxer::blocks_len(blocks)), 0),
            info.shape(),
            Seq::empty(),
        ) == Ok::<Seq<FrameModel>, FlacError>(frames),
    ensures
        demuxer::demuxed(data) == Ok::<StreamModel, FlacError>(
            StreamModel {
                streaminfo: info,
                streaminfo_raw: blocks[0].data,
                metadata_blocks: blocks,
                frames,
            },
        ),
{
}

/// A file laid out from its parts is read back as those parts.
proof fn lemma_laid_out_file_demuxes(
    body: Seq<u8>,
    info: StreaminfoModel,
    comments: Seq<u8>,
    audio: Seq<u8>,
    frames: Seq<FrameModel>,
)
    requires
        body.len() == 34,
        flac::streaminfo_of(body) == Some(info),
        comments.len() <= 0xFF_FFFF,
        demuxer::starts_from(audio, 0).len() > 0,
        demuxer::frames_from(
            audio,
            demuxer::starts_from(audio, 0),
            info.shape(),
            Seq::empty(),
        ) == Ok::<Seq<FrameModel>, FlacError>(frames),
    ensures
        demuxer::demuxed(
            FLAC_MARKER@ + writer::block_image(false, 0, body) + writer::block_image(
                true,
                4,
                comments,
            ) + audio,
        ) == Ok::<StreamModel, FlacError>(
            StreamModel {
                streaminfo: info,
                streaminfo_raw: body,
                metadata_blocks: seq![
                    BlockModel { last: false, block_type: 0, data: body },
                    BlockModel { last: true, block_type: 4, data: comments },
                ],
                frames,
            },
        ),
{
    let data = FLAC_MARKER@ + writer::block_image(false, 0, body) + writer::block_image(
        true,
        4,
        comments,
    ) + audio;
    let blocks = seq![
        BlockModel { last: false, block_type: 0, data: body },
        BlockModel { last: true, block_type: 4, data: comments },
    ];
    lemma_metadata_read_back(body, comments, audio);
    lemma_demuxed_from_parts(data, blocks, info, frames);
}

/// Joined frames are read back as frames.
proof fn lemma_audio_read_back(frames: Seq<Seq<u8>>, shape: StreamShape)
    requires
        frames.len() > 0,
        separable(frames),
        all_accepted(frames, shape),
    ensures
        demuxer::starts_from(wire::joined(frames), 0).len() > 0,
        demuxer::frames_from(
            wire::joined(frames),
            demuxer::starts_from(wire::joined(frames), 0),
            shape,
            Seq::empty(),
        ) == Ok::<Seq<FrameModel>, FlacError>(placed_frames(frames, shape.max_block_size)),
{
    lemma_headers_parse(frames, shape);
    lemma_starts_are_boundaries(frames, 0);
    assert(frames.take(0) =~= Seq::<Seq<u8>>::empty());
    assert(placed_frames(frames, shape.max_block_size).take(0) =~= Seq::empty());
    lemma_frames_read_back(frames, shape, 0);
}

/// Demuxing a written file gives back STREAMINFO, with the counted sizes and
/// total, and every frame with its place in the stream.
///
/// No frame holds what reads as a frame header past its first byte: the
/// demuxer would cut the frame there.
pub proof fn written_file_demuxes(
    supplied: StreaminfoModel,
    total_samples: u64,
    title: Option<Seq<char>>,
    frames: Seq<Seq<u8>>,
)
    requires
        streaminfo_is_valid(supplied),
        frames.len() > 0,
        all_accepted(frames, supplied.shape()),
        separable(frames),
        writer::comment_bytes(title).len() <= 0xFF_FFFF,
    ensures
        demuxer::demuxed(writer::file_image(supplied, total_samples, title, frames)) == Ok::<
            StreamModel,
            FlacError,
        >(written_stream(supplied, total_samples, title, frames)),
{
    let min_frame = writer::size_field(writer::shortest(frames));
    let max_frame = writer::size_field(writer::longest(frames));
    let body = writer::final_streaminfo(supplied, min_frame, max_frame, total_samples);
    let info = written_streaminfo(supplied, total_samples, frames);
    let placed = placed_frames(frames, supplied.max_block_size);
    writer::frame_lengths_are_bounds(frames, 0);
    lemma_streaminfo_read_back(supplied, min_frame, max_frame, total_samples);
    lemma_audio_read_back(frames, supplied.shape());
    lemma_laid_out_file_demuxes(
        body,
        info,
        writer::comment_bytes(title),
        wire::joined(frames),
        placed,
    );
}

/// Accepted frames begin with a header.
proof fn lemma_headers_parse(frames: Seq<Seq<u8>>, shape: StreamShape)
    requires
        all_accepted(frames, shape),
    ensures
        forall|i: int|
            0 <= i < frames.len() ==> flac::frame_header_of(#[trigger] frames[i]) is Some,
{
    assert forall|i: int| 0 <= i < frames.len() implies flac::frame_header_of(
        #[trigger] frames[i],
    ) is Some by {
        assert(accepted(frames, shape, i));
    }
}

} // verus!
