//! What the Ogg writer lays out, the Ogg demuxer reads back.

use vstd::prelude::*;
use crate::api::AudioCodec;
use crate::codec::opus::{self, OpusLayout};
use crate::crc;
use crate::demux::ogg::{self, OggFault, OggPage, OggStream, PacketModel, PlacedPacket, TrackModel};
use crate::muxer::ogg::{self as writer, OggQueue};
use crate::wire;

verus! {

/// A page whose segment table fits and announces its payload.
pub open spec fn page_is_sound(page: OggPage) -> bool {
    &&& page.segments.len() <= 255
    &&& page.payload.len() == ogg::lacing_sum(page.segments)
}

proof fn lemma_image_len(page: OggPage)
    ensures
        writer::page_image(page).len() == page.total_len(),
        writer::page_front(page).len() == 22,
{
}

/// The `n` bytes of `data` at `i`.
spec fn ogg_field(data: Seq<u8>, i: int, n: int) -> Seq<u8> {
    data.subrange(i, i + n)
}

proof fn lemma_le32_at(data: Seq<u8>, i: int, x: u32)
    requires
        0 <= i <= data.len() - 4,
        ogg_field(data, i, 4) == wire::le32(x),
    ensures
        wire::le32_at(data, i) == x,
{
    wire::le32_round_trip(x);
    let field = ogg_field(data, i, 4);
    assert(field[0] == data[i] && field[1] == data[i + 1] && field[2] == data[i + 2] && field[3]
        == data[i + 3]);
}

proof fn lemma_le64_at(data: Seq<u8>, i: int, x: u64)
    requires
        0 <= i <= data.len() - 8,
        ogg_field(data, i, 8) == wire::le64(x),
    ensures
        wire::le64_at(data, i) == x,
{
    wire::le64_round_trip(x);
    let field = ogg_field(data, i, 8);
    assert(field[0] == data[i] && field[1] == data[i + 1] && field[2] == data[i + 2] && field[3]
        == data[i + 3] && field[4] == data[i + 4] && field[5] == data[i + 5] && field[6] == data[i
        + 6] && field[7] == data[i + 7]);
}

/// A page is read back from where it was written.
pub proof fn page_round_trip(before: Seq<u8>, page: OggPage, after: Seq<u8>)
    requires
        page_is_sound(page),
    ensures
        ogg::page_at(before + writer::page_image(page) + after, before.len() as int) == Ok::<
            OggPage,
            OggFault,
        >(page),
{
    let image = writer::page_image(page);
    let data = before + image + after;
    let offset = before.len() as int;
    let checksum = writer::page_checksum(page);
    let count = page.segments.len() as int;
    lemma_image_len(page);
    assert forall|k: int| 0 <= k < image.len() implies #[trigger] data[offset + k]
        == image[k] by {}
    assert(data.subrange(offset, offset + 4) =~= ogg::capture_pattern()) by {
        assert(forall|k: int| 0 <= k < 4 ==> data[offset + k] == image[k]);
    }
    assert(data[offset + 4] == image[4] == 0);
    assert(data[offset + 5] == image[5] == page.header_type);
    assert(ogg_field(data, offset + 6, 8) =~= wire::le64(page.granule)) by {
        assert(forall|k: int| 6 <= k < 14 ==> data[offset + k] == image[k]);
    }
    assert(ogg_field(data, offset + 14, 4) =~= wire::le32(page.serial)) by {
        assert(forall|k: int| 14 <= k < 18 ==> data[offset + k] == image[k]);
    }
    assert(ogg_field(data, offset + 18, 4) =~= wire::le32(page.seq)) by {
        assert(forall|k: int| 18 <= k < 22 ==> data[offset + k] == image[k]);
    }
    assert(ogg_field(data, offset + 22, 4) =~= wire::le32(checksum)) by {
        assert(forall|k: int| 22 <= k < 26 ==> data[offset + k] == image[k]);
    }
    lemma_le64_at(data, offset + 6, page.granule);
    lemma_le32_at(data, offset + 14, page.serial);
    lemma_le32_at(data, offset + 18, page.seq);
    lemma_le32_at(data, offset + 22, checksum);
    assert(data[offset + 26] == image[26] == count as u8);
    let segments = data.subrange(offset + 27, offset + 27 + count);
    assert(segments =~= page.segments) by {
        assert forall|k: int| 0 <= k < count implies segments[k] == page.segments[k] by {
            assert(data[offset + (27 + k)] == image[27 + k]);
        }
    }
    let total = 27 + count + ogg::lacing_sum(segments);
    assert(total == image.len());
    assert(ogg::cleared(data.subrange(offset, offset + total)) =~= writer::page_with_checksum(
        page,
        0,
    )) by {
        assert(data.subrange(offset, offset + total) =~= image);
    }
    assert(data.subrange(offset + 27 + count, offset + total) =~= page.payload) by {
        assert forall|k: int| 0 <= k < page.payload.len() implies data[offset + 27 + count + k]
            == page.payload[k] by {
            assert(data[offset + (27 + count + k)] == image[27 + count + k]);
        }
    }
}

/// The image of a page stands between those of the pages before and after.
proof fn lemma_page_between(done: Seq<OggPage>, rest: Seq<OggPage>)
    requires
        rest.len() > 0,
    ensures
        writer::pages_image(done + rest) == writer::pages_image(done) + writer::page_image(rest[0])
            + writer::pages_image(rest.drop_first()),
        writer::pages_image(done.push(rest[0])) == writer::pages_image(done) + writer::page_image(
            rest[0],
        ),
{
    let page = rest[0];
    let tail = rest.drop_first();
    let next = done.push(page);
    assert(next.drop_last() =~= done);
    assert(next.last() == page);
    assert(next + tail =~= done + rest);
    writer::lemma_pages_image_concat(next, tail);
}

/// A sequence of pages is read back.
pub proof fn pages_round_trip(done: Seq<OggPage>, rest: Seq<OggPage>)
    requires
        forall|i: int| 0 <= i < rest.len() ==> page_is_sound(#[trigger] rest[i]),
    ensures
        ogg::pages_from(
            writer::pages_image(done + rest),
            writer::pages_image(done).len() as int,
            done,
        ) == Ok::<Seq<OggPage>, OggFault>(done + rest),
    decreases rest.len(),
{
    let data = writer::pages_image(done + rest);
    let offset = writer::pages_image(done).len() as int;
    if rest.len() == 0 {
        assert(done + rest =~= done);
    } else {
        let page = rest[0];
        let tail = rest.drop_first();
        let next = done.push(page);
        lemma_page_between(done, rest);
        lemma_image_len(page);
        assert(next + tail =~= done + rest);
        assert(ogg::page_at(data, offset) == Ok::<OggPage, OggFault>(page)) by {
            page_round_trip(writer::pages_image(done), page, writer::pages_image(tail));
        }
        assert(writer::pages_image(next).len() == offset + page.total_len());
        pages_round_trip(next, tail);
    }
}

proof fn lemma_lacing_sum_concat(a: Seq<u8>, b: Seq<u8>)
    ensures
        ogg::lacing_sum(a + b) == ogg::lacing_sum(a) + ogg::lacing_sum(b),
    decreases a.len(),
{
    if a.len() == 0 {
        assert(a + b =~= b);
    } else {
        assert((a + b).drop_first() =~= a.drop_first() + b);
        lemma_lacing_sum_concat(a.drop_first(), b);
    }
}

proof fn lemma_lacing_sum(len: nat)
    ensures
        ogg::lacing_sum(writer::lacing(len)) == len,
    decreases len,
{
    let table = writer::lacing(len);
    if len < 255 {
        reveal_with_fuel(ogg::lacing_sum, 2);
        assert(table.drop_first() =~= Seq::<u8>::empty());
    } else {
        assert(table.drop_first() =~= writer::lacing((len - 255) as nat));
        lemma_lacing_sum((len - 255) as nat);
    }
}

proof fn lemma_table_sum(packets: Seq<Seq<u8>>)
    ensures
        ogg::lacing_sum(writer::segment_table(packets)) == wire::joined(packets).len(),
    decreases packets.len(),
{
    if packets.len() > 0 {
        lemma_table_sum(packets.drop_last());
        lemma_lacing_sum(packets.last().len());
        lemma_lacing_sum_concat(
            writer::segment_table(packets.drop_last()),
            writer::lacing(packets.last().len()),
        );
    }
}

/// Two runs of segments are delivered one after the other.
proof fn lemma_deliver_concat(
    packets: Seq<PlacedPacket>,
    pending: Seq<u8>,
    a: Seq<u8>,
    b: Seq<u8>,
    x: Seq<u8>,
    y: Seq<u8>,
    page: int,
)
    requires
        ogg::lacing_sum(a) == x.len(),
    ensures
        ({
            let (middle, rest) = ogg::deliver(packets, pending, a, x, page);
            ogg::deliver(packets, pending, a + b, x + y, page) == ogg::deliver(
                middle,
                rest,
                b,
                y,
                page,
            )
        }),
    decreases a.len(),
{
    if a.len() == 0 {
        assert(a + b =~= b);
        assert(x + y =~= y);
    } else {
        let len = a[0] as int;
        ogg::lemma_lacing_sum_nonnegative(a.drop_first());
        assert((a + b).drop_first() =~= a.drop_first() + b);
        assert((x + y).take(len) =~= x.take(len));
        assert((x + y).skip(len) =~= x.skip(len) + y);
        let joined = pending + x.take(len);
        if len < 255 {
            lemma_deliver_concat(
                packets.push(PlacedPacket { data: joined, page }),
                Seq::empty(),
                a.drop_first(),
                b,
                x.skip(len),
                y,
                page,
            );
        } else {
            lemma_deliver_concat(packets, joined, a.drop_first(), b, x.skip(len), y, page);
        }
    }
}

/// The segments of one packet deliver that packet.
proof fn lemma_deliver_one(
    packets: Seq<PlacedPacket>,
    pending: Seq<u8>,
    packet: Seq<u8>,
    page: int,
)
    ensures
        ogg::deliver(packets, pending, writer::lacing(packet.len()), packet, page) == (
            packets.push(PlacedPacket { data: pending + packet, page }),
            Seq::<u8>::empty(),
        ),
    decreases packet.len(),
{
    let table = writer::lacing(packet.len());
    if packet.len() < 255 {
        assert(packet.take(packet.len() as int) =~= packet);
        assert(table.drop_first() =~= Seq::<u8>::empty());
        reveal_with_fuel(ogg::deliver, 2);
    } else {
        let rest = packet.skip(255);
        assert(table.drop_first() =~= writer::lacing(rest.len()));
        lemma_deliver_one(packets, pending + packet.take(255), rest, page);
        assert(pending + packet.take(255) + rest =~= pending + packet);
    }
}

/// The packets of a page, placed on it.
pub open spec fn placed_on(packets: Seq<Seq<u8>>, page: int) -> Seq<PlacedPacket> {
    packets.map_values(|data: Seq<u8>| PlacedPacket { data, page })
}

/// A page delivers its packets.
proof fn lemma_deliver_page(before: Seq<PlacedPacket>, packets: Seq<Seq<u8>>, page: int)
    ensures
        ogg::deliver(
            before,
            Seq::empty(),
            writer::segment_table(packets),
            wire::joined(packets),
            page,
        ) == (before + placed_on(packets, page), Seq::<u8>::empty()),
    decreases packets.len(),
{
    if packets.len() == 0 {
        assert(before + placed_on(packets, page) =~= before);
    } else {
        let front = packets.drop_last();
        let last = packets.last();
        lemma_deliver_page(before, front, page);
        lemma_table_sum(front);
        lemma_deliver_concat(
            before,
            Seq::empty(),
            writer::segment_table(front),
            writer::lacing(last.len()),
            wire::joined(front),
            last,
            page,
        );
        lemma_deliver_one(before + placed_on(front, page), Seq::empty(), last, page);
        assert(Seq::<u8>::empty() + last =~= last);
        assert(before + placed_on(packets, page) =~= (before + placed_on(front, page)).push(
            PlacedPacket { data: last, page },
        ));
    }
}

/// The packets from `i` on, each placed on its page, the first of which has
/// number `seq`.
pub open spec fn placed_audio(packets: Seq<Seq<u8>>, i: int, seq: int) -> Seq<PlacedPacket>
    decreases packets.len() - i,
{
    let end = writer::batch_end(packets, i, i, 0);
    if 0 <= i < end <= packets.len() {
        placed_on(packets.subrange(i, end), seq) + placed_audio(packets, end, seq + 1)
    } else {
        Seq::empty()
    }
}

/// The placed packets are those packets, on pages from `seq` on, and those
/// of the first page are the first batch.
proof fn lemma_placed_audio(packets: Seq<Seq<u8>>, i: int, seq: int)
    requires
        0 <= i <= packets.len(),
        writer::all_fit(packets),
    ensures
        placed_audio(packets, i, seq).len() == packets.len() - i,
        forall|k: int|
            0 <= k < packets.len() - i ==> (#[trigger] placed_audio(packets, i, seq)[k]).data
                == packets[i + k],
        forall|k: int|
            0 <= k < packets.len() - i ==> (#[trigger] placed_audio(packets, i, seq)[k]).page
                >= seq,
        forall|k: int|
            0 <= k < packets.len() - i ==> ((#[trigger] placed_audio(packets, i, seq)[k]).page
                == seq <==> k < writer::batch_end(packets, i, i, 0) - i),
    decreases packets.len() - i,
{
    if i < packets.len() {
        let end = writer::batch_end(packets, i, i, 0);
        assert(packets[i].len() <= writer::MAX_PACKET_LEN);
        writer::lemma_batch_end(packets, i, i, 0);
        lemma_placed_audio(packets, end, seq + 1);
        let first = placed_on(packets.subrange(i, end), seq);
        let rest = placed_audio(packets, end, seq + 1);
        let all = placed_audio(packets, i, seq);
        assert(all == first + rest);
        assert forall|k: int| 0 <= k < packets.len() - i implies (#[trigger] all[k]).data
            == packets[i + k] && all[k].page >= seq && (all[k].page == seq <==> k < end - i) by {
            if k < end - i {
                assert(all[k] == first[k]);
            } else {
                assert(all[k] == rest[k - (end - i)]);
            }
        }
    }
}

/// The stream of a file after pages that carry `packets`, of which the next
/// has number `seq`.
spec fn stream_at(packets: Seq<PlacedPacket>, seq: int, eos: bool) -> OggStream {
    OggStream {
        serial: writer::STREAM_SERIAL,
        packets,
        pending: Seq::empty(),
        expected_seq: writer::page_number(seq),
        eos,
        bos_seen: true,
    }
}

/// The audio pages from `seq` on deliver the packets from `i` on.
proof fn lemma_absorb_audio(
    pages: Seq<OggPage>,
    packets: Seq<Seq<u8>>,
    pre_skip: u16,
    before: Seq<PlacedPacket>,
    i: int,
    seq: int,
)
    requires
        0 <= i < packets.len(),
        writer::all_fit(packets),
        2 <= seq,
        packets.len() <= writer::MAX_PACKETS,
        seq <= pages.len(),
        pages.skip(seq) == writer::audio_pages(packets, pre_skip, i, seq),
    ensures
        ogg::absorb_all(seq![stream_at(before, seq, false)], pages, seq) == Ok::<
            Seq<OggStream>,
            OggFault,
        >(seq![stream_at(before + placed_audio(packets, i, seq), pages.len() as int, true)]),
    decreases packets.len() - i,
{
    let end = writer::batch_end(packets, i, i, 0);
    assert(packets[i].len() <= writer::MAX_PACKET_LEN);
    writer::lemma_batch_end(packets, i, i, 0);
    let page = writer::audio_page(packets, pre_skip, i, end, seq);
    let batch = packets.subrange(i, end);
    assert(writer::audio_pages(packets, pre_skip, i, seq)[0] == page);
    assert(pages.skip(seq).len() > 0);
    assert(pages[seq] == pages.skip(seq)[0]);
    let stream = stream_at(before, seq, false);
    let streams = seq![stream];
    assert(ogg::stream_position(streams, page.serial) == 0);
    lemma_deliver_page(before, batch, seq);
    let after = before + placed_on(batch, seq);
    let next = stream_at(after, seq + 1, end >= packets.len());
    assert(0u8 as int / 2 % 2 == 0 && 4u8 as int / 2 % 2 == 0 && 4u8 as int / 4 % 2 == 1
        && 0u8 as int / 4 % 2 == 0);
    assert(ogg::absorb(stream, page, seq) == Ok::<OggStream, OggFault>(next));
    assert(streams.update(0, next) =~= seq![next]);
    assert(ogg::absorb_all(streams, pages, seq) == ogg::absorb_all(seq![next], pages, seq + 1));
    assert(pages.skip(seq + 1) =~= pages.skip(seq).drop_first());
    assert(writer::audio_pages(packets, pre_skip, i, seq).drop_first() =~= writer::audio_pages(
        packets,
        pre_skip,
        end,
        seq + 1,
    ));
    if end < packets.len() {
        lemma_absorb_audio(pages, packets, pre_skip, after, end, seq + 1);
        assert(after + placed_audio(packets, end, seq + 1) =~= before + placed_audio(
            packets,
            i,
            seq,
        ));
    } else {
        assert(pages.skip(seq + 1).len() == 0);
        assert(pages.len() == seq + 1);
        assert(ogg::absorb_all(seq![next], pages, seq + 1) == Ok::<Seq<OggStream>, OggFault>(
            seq![next],
        ));
        assert(placed_audio(packets, end, seq + 1) =~= Seq::<PlacedPacket>::empty());
        assert(after =~= before + placed_audio(packets, i, seq));
    }
}

/// The duration of placed packets is that of the packets.
proof fn lemma_samples_agree(audio: Seq<PlacedPacket>, packets: Seq<Seq<u8>>, k: int)
    requires
        k <= packets.len(),
        audio.len() == packets.len(),
        forall|j: int| 0 <= j < packets.len() ==> (#[trigger] audio[j]).data == packets[j],
    ensures
        ogg::samples_before(audio, k) == writer::samples_up_to(packets, k),
    decreases k,
{
    if k > 0 {
        lemma_samples_agree(audio, packets, k - 1);
        assert(audio[k - 1].data == packets[k - 1]);
    }
}

/// Packets last at most 181440 samples each.
proof fn lemma_samples_bounded(packets: Seq<Seq<u8>>, k: int)
    requires
        0 <= k <= packets.len(),
    ensures
        0 <= writer::samples_up_to(packets, k) <= 181440 * k,
    decreases k,
{
    if k > 0 {
        lemma_samples_bounded(packets, k - 1);
        opus::packet_samples_bounds(packets[k - 1]);
    }
}

/// The granule positions of the written pages agree with the packets.
proof fn lemma_granules_agree(
    pages: Seq<OggPage>,
    audio: Seq<PlacedPacket>,
    packets: Seq<Seq<u8>>,
    pre_skip: u16,
    i: int,
    seq: int,
    anchor: Option<(int, int)>,
)
    requires
        0 <= i <= packets.len(),
        writer::all_fit(packets),
        packets.len() <= writer::MAX_PACKETS,
        0 <= seq <= pages.len(),
        pages.skip(seq) == writer::audio_pages(packets, pre_skip, i, seq),
        audio.len() == packets.len(),
        forall|j: int| 0 <= j < packets.len() ==> (#[trigger] audio[j]).data == packets[j],
        audio.skip(i) == placed_audio(packets, i, seq),
        anchor matches Some((end, granule)) ==> end == i && granule == writer::samples_up_to(
            packets,
            i,
        ) + pre_skip,
    ensures
        ogg::granule_fault(pages, audio, pre_skip as int, i, anchor) is None,
    decreases packets.len() - i,
{
    if i < packets.len() {
        let end = writer::batch_end(packets, i, i, 0);
        assert(packets[i].len() <= writer::MAX_PACKET_LEN);
        writer::lemma_batch_end(packets, i, i, 0);
        lemma_placed_audio(packets, i, seq);
        let page = writer::audio_page(packets, pre_skip, i, end, seq);
        assert(writer::audio_pages(packets, pre_skip, i, seq)[0] == page);
        assert(pages.skip(seq).len() > 0);
        assert(pages[seq] == pages.skip(seq)[0]);
        assert(forall|k: int| 0 <= k < packets.len() - i ==> audio.skip(i)[k] == audio[i + k]);
        assert(audio[i] == audio.skip(i)[0]);
        assert(audio[i].page == seq);
        ogg::lemma_run_end(audio, i, seq);
        let run = ogg::run_end(audio, i, seq);
        assert(run == end) by {
            if run < end {
                assert(audio[run] == audio.skip(i)[run - i]);
            } else if run > end {
                assert(audio[end] == audio.skip(i)[end - i]);
            }
        }
        lemma_samples_agree(audio, packets, end);
        lemma_samples_agree(audio, packets, i);
        lemma_samples_bounded(packets, end);
        lemma_samples_bounded(packets, i);
        let granule = writer::samples_up_to(packets, end) + pre_skip;
        assert(page.granule == granule);
        assert(pages.skip(seq + 1) =~= pages.skip(seq).drop_first());
        assert(writer::audio_pages(packets, pre_skip, i, seq).drop_first()
            =~= writer::audio_pages(packets, pre_skip, end, seq + 1));
        assert(audio.skip(end) =~= placed_audio(packets, end, seq + 1)) by {
            let first = placed_on(packets.subrange(i, end), seq);
            let rest = placed_audio(packets, end, seq + 1);
            assert(audio.skip(i) == first + rest);
            assert forall|k: int| 0 <= k < audio.len() - end implies audio.skip(end)[k]
                == rest[k] by {
                assert(audio.skip(i)[end - i + k] == (first + rest)[end - i + k]);
            }
        }
        lemma_granules_agree(
            pages,
            audio,
            packets,
            pre_skip,
            end,
            seq + 1,
            Some((end, granule)),
        );
    }
}

/// The identification header is read back.
proof fn lemma_head_round_trip(layout: OpusLayout)
    requires
        layout.defect() is None,
        layout.channel_mapping_family == 0,
    ensures
        ogg::opus_head_in(writer::head_packet(layout)) == Ok::<ogg::OpusHeadFields, OggFault>(
            ogg::OpusHeadFields {
                channels: layout.output_channel_count,
                pre_skip: layout.pre_skip,
                input_sample_rate: layout.input_sample_rate,
            },
        ),
        wire::begins_with(writer::head_packet(layout), ogg::opus_head_magic()),
        writer::head_packet(layout).len() == 19,
{
    let head = writer::head_packet(layout);
    assert(head.subrange(0, 8) =~= ogg::opus_head_magic());
    wire::le16_round_trip(layout.pre_skip);
    wire::le32_round_trip(layout.input_sample_rate);
    assert(head[10] == wire::le16(layout.pre_skip)[0]);
    assert(head[11] == wire::le16(layout.pre_skip)[1]);
    assert(head[12] == wire::le32(layout.input_sample_rate)[0]);
    assert(head[13] == wire::le32(layout.input_sample_rate)[1]);
    assert(head[14] == wire::le32(layout.input_sample_rate)[2]);
    assert(head[15] == wire::le32(layout.input_sample_rate)[3]);
}

/// Every written page is sound.
proof fn lemma_audio_pages_sound(packets: Seq<Seq<u8>>, pre_skip: u16, i: int, seq: int)
    requires
        0 <= i <= packets.len(),
        writer::all_fit(packets),
    ensures
        forall|k: int|
            0 <= k < writer::audio_pages(packets, pre_skip, i, seq).len() ==> page_is_sound(
                #[trigger] writer::audio_pages(packets, pre_skip, i, seq)[k],
            ),
    decreases packets.len() - i,
{
    if i < packets.len() {
        let end = writer::batch_end(packets, i, i, 0);
        assert(packets[i].len() <= writer::MAX_PACKET_LEN);
        writer::lemma_batch_end(packets, i, i, 0);
        lemma_batch_segments(packets, i, i, 0);
        lemma_table_sum(packets.subrange(i, end));
        lemma_audio_pages_sound(packets, pre_skip, end, seq + 1);
        let rest = writer::audio_pages(packets, pre_skip, end, seq + 1);
        let all = writer::audio_pages(packets, pre_skip, i, seq);
        assert forall|k: int| 0 <= k < all.len() implies page_is_sound(#[trigger] all[k]) by {
            if k > 0 {
                assert(all[k] == rest[k - 1]);
            }
        }
    }
}

/// A batch fits the segment table of a page.
proof fn lemma_batch_segments(packets: Seq<Seq<u8>>, start: int, i: int, segs: int)
    requires
        0 <= start <= i <= packets.len(),
        i - start <= writer::MAX_PACKETS_PER_PAGE,
        segs == writer::segment_table(packets.subrange(start, i)).len(),
        segs <= writer::MAX_SEGMENTS_PER_PAGE,
    ensures
        writer::segment_table(
            packets.subrange(start, writer::batch_end(packets, start, i, segs)),
        ).len() <= writer::MAX_SEGMENTS_PER_PAGE,
    decreases packets.len() - i,
{
    if i < packets.len() && i - start < writer::MAX_PACKETS_PER_PAGE && segs + packets[i].len()
        / 255 + 1 <= writer::MAX_SEGMENTS_PER_PAGE {
        writer::lemma_lacing_len(packets[i].len());
        let wider = packets.subrange(start, i + 1);
        assert(wider.drop_last() =~= packets.subrange(start, i));
        assert(wider.last() == packets[i]);
        lemma_batch_segments(packets, start, i + 1, segs + packets[i].len() / 255 + 1);
    }
}

/// The pages of a file make one finished stream, which holds the headers
/// and the packets.
proof fn lemma_streams_of_file(layout: OpusLayout, title: Option<Seq<char>>, packets: Seq<Seq<u8>>)
    requires
        layout.defect() is None,
        layout.channel_mapping_family == 0,
        packets.len() > 0,
        packets.len() <= writer::MAX_PACKETS,
        writer::all_fit(packets),
    ensures
        ({
            let pages = writer::file_pages(layout, title, packets);
            let raw = placed_on(seq![writer::head_packet(layout)], 0) + placed_on(
                seq![writer::tags_packet(title)],
                1,
            ) + placed_audio(packets, 0, 2);
            ogg::absorb_all(Seq::empty(), pages, 0) == Ok::<Seq<OggStream>, OggFault>(
                seq![stream_at(raw, pages.len() as int, true)],
            )
        }),
{
    let head = writer::head_packet(layout);
    let tags = writer::tags_packet(title);
    let pages = writer::file_pages(layout, title, packets);
    let empty = Seq::<PlacedPacket>::empty();
    let first = writer::page_of(2, 0, 0, seq![head]);
    let second = writer::page_of(0, 0, 1, seq![tags]);
    let placed_head = placed_on(seq![head], 0);
    let placed_headers = placed_head + placed_on(seq![tags], 1);
    assert(pages[0] == first && pages[1] == second);
    assert(2u8 as int / 2 % 2 == 1 && 2u8 as int / 4 % 2 == 0 && 0u8 as int / 2 % 2 == 0
        && 0u8 as int / 4 % 2 == 0);
    lemma_deliver_page(empty, seq![head], 0);
    assert(empty + placed_head =~= placed_head);
    let opened = Seq::<OggStream>::empty().push(ogg::new_stream(first));
    let begun = stream_at(placed_head, 1, false);
    assert(ogg::absorb(opened[0], first, 0) == Ok::<OggStream, OggFault>(begun));
    assert(opened.update(0, begun) =~= seq![begun]);
    lemma_deliver_page(placed_head, seq![tags], 1);
    let headed = stream_at(placed_headers, 2, false);
    assert(ogg::stream_position(seq![begun], second.serial) == 0);
    assert(ogg::absorb(begun, second, 1) == Ok::<OggStream, OggFault>(headed));
    assert(seq![begun].update(0, headed) =~= seq![headed]);
    assert(ogg::absorb_all(Seq::empty(), pages, 0) == ogg::absorb_all(seq![begun], pages, 1));
    assert(ogg::absorb_all(seq![begun], pages, 1) == ogg::absorb_all(seq![headed], pages, 2));
    assert(pages.skip(2) =~= writer::audio_pages(packets, layout.pre_skip, 0, 2));
    lemma_absorb_audio(pages, packets, layout.pre_skip, placed_headers, 0, 2);
}

/// The track in the packets of a file.
proof fn lemma_track_of_file(layout: OpusLayout, title: Option<Seq<char>>, packets: Seq<Seq<u8>>)
    requires
        layout.defect() is None,
        layout.channel_mapping_family == 0,
        packets.len() > 0,
        packets.len() <= writer::MAX_PACKETS,
        writer::all_valid(packets),
        writer::all_fit(packets),
    ensures
        ({
            let pages = writer::file_pages(layout, title, packets);
            let raw = placed_on(seq![writer::head_packet(layout)], 0) + placed_on(
                seq![writer::tags_packet(title)],
                1,
            ) + placed_audio(packets, 0, 2);
            ogg::track_of(pages, raw) == Ok::<TrackModel, OggFault>(
                written_track(layout, packets),
            )
        }),
{
    let head = writer::head_packet(layout);
    let tags = writer::tags_packet(title);
    let pages = writer::file_pages(layout, title, packets);
    let placed_headers = placed_on(seq![head], 0) + placed_on(seq![tags], 1);
    let raw = placed_headers + placed_audio(packets, 0, 2);
    lemma_head_round_trip(layout);
    assert(raw[0].data == head);
    assert(raw[1].data == tags);
    assert(tags.subrange(0, 8) =~= ogg::opus_tags_magic());
    lemma_placed_audio(packets, 0, 2);
    assert(ogg::audio_start(raw) == 2);
    let audio = raw.skip(2);
    assert(audio =~= placed_audio(packets, 0, 2));
    assert(audio.skip(0) =~= audio);
    assert forall|k: int| 0 <= k < audio.len() implies opus::packet_samples(
        (#[trigger] audio[k]).data,
    ) is Some by {
        assert(audio[k].data == packets[k]);
    }
    assert(pages.skip(2) =~= writer::audio_pages(packets, layout.pre_skip, 0, 2));
    lemma_granules_agree(pages, audio, packets, layout.pre_skip, 0, 2, None);
    assert forall|k: int| 0 <= k <= packets.len() implies #[trigger] ogg::samples_before(audio, k)
        == writer::samples_up_to(packets, k) by {
        lemma_samples_agree(audio, packets, k);
    }
    assert(ogg::track_of(pages, raw) is Ok);
    assert(ogg::track_of(pages, raw)->Ok_0.packets =~= written_track(layout, packets).packets);
}

/// The track that is written: every packet timed by the duration of those
/// before it.
pub open spec fn written_track(layout: OpusLayout, packets: Seq<Seq<u8>>) -> TrackModel {
    TrackModel {
        channels: layout.output_channel_count,
        pre_skip: layout.pre_skip,
        input_sample_rate: layout.input_sample_rate,
        packets: Seq::new(
            packets.len(),
            |k: int| PacketModel { pts: writer::samples_up_to(packets, k), data: packets[k] },
        ),
        duration: writer::samples_up_to(packets, packets.len() as int),
    }
}

/// Demuxing a written file gives back the channel count, the encoder delay,
/// the input rate and every packet, each timed by the duration of those
/// before it.
///
/// The file is that of a mono or stereo track with at least one packet: the
/// demuxer takes no other channel mapping and no stream without audio.
pub proof fn written_file_demuxes(
    layout: OpusLayout,
    title: Option<Seq<char>>,
    packets: Seq<Seq<u8>>,
)
    requires
        layout.defect() is None,
        layout.channel_mapping_family == 0,
        packets.len() > 0,
        packets.len() <= writer::MAX_PACKETS,
        writer::all_valid(packets),
        writer::all_fit(packets),
        writer::tags_packet(title).len() <= writer::MAX_PACKET_LEN,
    ensures
        ogg::demuxed(writer::file_image(layout, title, packets)) == Ok::<TrackModel, OggFault>(
            written_track(layout, packets),
        ),
{
    let head = writer::head_packet(layout);
    let tags = writer::tags_packet(title);
    let pages = writer::file_pages(layout, title, packets);
    let data = writer::file_image(layout, title, packets);
    let audio_pages = writer::audio_pages(packets, layout.pre_skip, 0, 2);
    lemma_head_round_trip(layout);
    writer::lemma_single_packet_table(head);
    writer::lemma_single_packet_table(tags);
    lemma_table_sum(seq![head]);
    lemma_table_sum(seq![tags]);
    lemma_audio_pages_sound(packets, layout.pre_skip, 0, 2);
    assert forall|i: int| 0 <= i < pages.len() implies page_is_sound(#[trigger] pages[i]) by {
        if i >= 2 {
            assert(pages[i] == audio_pages[i - 2]);
        }
    }
    pages_round_trip(Seq::empty(), pages);
    assert(Seq::<OggPage>::empty() + pages =~= pages);
    assert(writer::pages_image(Seq::<OggPage>::empty()).len() == 0);
    assert(data.len() > 0) by {
        writer::lemma_pages_image_concat(pages.drop_last(), seq![pages.last()]);
        lemma_image_len(pages.last());
    }
    lemma_streams_of_file(layout, title, packets);
    let placed_headers = placed_on(seq![head], 0) + placed_on(seq![tags], 1);
    let raw = placed_headers + placed_audio(packets, 0, 2);
    let streams = seq![stream_at(raw, pages.len() as int, true)];
    assert(ogg::unfinished(streams, 0, data.len() as int) is None) by {
        reveal_with_fuel(ogg::unfinished, 2);
    }
    lemma_track_of_file(layout, title, packets);
    assert(raw[0].data == head);
    assert(ogg::carries(streams[0], ogg::BosCodec::Opus));
    assert(ogg::opus_among(streams, 0, None) == Ok::<Option<int>, OggFault>(Some(0))) by {
        reveal_with_fuel(ogg::opus_among, 2);
    }
}

proof fn lemma_lacing_sum_bound(segments: Seq<u8>)
    ensures
        0 <= ogg::lacing_sum(segments) <= 255 * segments.len(),
    decreases segments.len(),
{
    if segments.len() > 0 {
        lemma_lacing_sum_bound(segments.drop_first());
    }
}

/// No page is longer than its header, a full table and as many full segments.
proof fn lemma_image_bound(pages: Seq<OggPage>)
    requires
        forall|i: int| 0 <= i < pages.len() ==> page_is_sound(#[trigger] pages[i]),
    ensures
        writer::pages_image(pages).len() <= 65307 * pages.len(),
    decreases pages.len(),
{
    if pages.len() > 0 {
        assert(page_is_sound(pages[pages.len() - 1]));
        lemma_image_bound(pages.drop_last());
        lemma_image_len(pages.last());
        lemma_lacing_sum_bound(pages.last().segments);
    }
}

proof fn lemma_page_count(packets: Seq<Seq<u8>>, pre_skip: u16, i: int, seq: int)
    requires
        0 <= i <= packets.len(),
    ensures
        writer::audio_pages(packets, pre_skip, i, seq).len() <= packets.len() - i,
    decreases packets.len() - i,
{
    let end = writer::batch_end(packets, i, i, 0);
    if i < end <= packets.len() {
        lemma_page_count(packets, pre_skip, end, seq + 1);
    }
}

/// A written file of up to 2^30 packets and headers is not too long to be
/// demuxed.
pub proof fn written_file_is_short(
    layout: OpusLayout,
    title: Option<Seq<char>>,
    packets: Seq<Seq<u8>>,
)
    requires
        layout.defect() is None,
        layout.channel_mapping_family == 0,
        packets.len() + 2 <= 0x4000_0000,
        writer::all_fit(packets),
        writer::tags_packet(title).len() <= writer::MAX_PACKET_LEN,
    ensures
        writer::file_image(layout, title, packets).len() <= ogg::MAX_OGG_LEN,
{
    let head = writer::head_packet(layout);
    let tags = writer::tags_packet(title);
    let pages = writer::file_pages(layout, title, packets);
    let audio_pages = writer::audio_pages(packets, layout.pre_skip, 0, 2);
    writer::lemma_single_packet_table(head);
    writer::lemma_single_packet_table(tags);
    lemma_table_sum(seq![head]);
    lemma_table_sum(seq![tags]);
    lemma_audio_pages_sound(packets, layout.pre_skip, 0, 2);
    assert forall|i: int| 0 <= i < pages.len() implies page_is_sound(#[trigger] pages[i]) by {
        if i >= 2 {
            assert(pages[i] == audio_pages[i - 2]);
        }
    }
    lemma_image_bound(pages);
    lemma_page_count(packets, layout.pre_skip, 0, 2);
}

/// What a writer lays out for a mono or stereo track without a configuration
/// of its own demuxes to the channels and the encoder delay of the track, and
/// to every packet that was queued.
pub proof fn queued_packets_come_back(queue: OggQueue, title: Option<Seq<char>>)
    requires
        !queue.finalized,
        queue.track matches Some(track) && track.codec == AudioCodec::Opus && (track.channels == 1
            || track.channels == 2) && track.opus_config_override is None,
        0 < queue.packets.len() <= writer::MAX_PACKETS,
        writer::all_valid(queue.packets),
        writer::all_fit(queue.packets),
        writer::tags_packet(title).len() <= writer::MAX_PACKET_LEN,
    ensures
        queue.file_fault() is None,
        ({
            let track = queue.track->0;
            let layout = writer::effective_layout(track);
            let demuxed = ogg::demuxed(writer::file_image(layout, title, queue.packets));
            &&& demuxed == Ok::<TrackModel, OggFault>(written_track(layout, queue.packets))
            &&& demuxed->Ok_0.channels == track.channels
            &&& demuxed->Ok_0.pre_skip == (match track.opus_preskip {
                Some(pre_skip) => pre_skip,
                None => writer::DEFAULT_PRE_SKIP,
            })
            &&& demuxed->Ok_0.input_sample_rate == 48_000
            &&& demuxed->Ok_0.packets.len() == queue.packets.len()
            &&& forall|i: int|
                0 <= i < queue.packets.len() ==> (#[trigger] demuxed->Ok_0.packets[i]).data
                    == queue.packets[i]
        }),
{
    written_file_demuxes(writer::effective_layout(queue.track->0), title, queue.packets);
}

} // verus!
