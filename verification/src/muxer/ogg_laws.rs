//! What an Ogg Opus file looks like, byte by byte and page by page.

use vstd::prelude::*;
use crate::api::AudioCodec;
use crate::codec::opus::{self, OpusLayout};
use crate::crc;
use crate::demux::ogg::{self as pages, OggPage};
use crate::demux::ogg_laws;
use crate::muxer::mp4::Mp4AudioTrack;
use crate::muxer::ogg::{self, OggQueue, OggWriterError};
use crate::wire;

verus! {

/// The identification header: `OpusHead`, a version of 1, the channels, the
/// delay, the rate and the gain with their least significant bytes first, and
/// the mapping, behind which stand, but for mapping 0, the streams, the coupled
/// streams and the table.
pub proof fn identification_header_bytes(layout: OpusLayout)
    ensures
        ({
            let p = ogg::head_packet(layout);
            &&& p.len() >= 19
            &&& p[0] == 0x4F && p[1] == 0x70 && p[2] == 0x75 && p[3] == 0x73 && p[4] == 0x48 && p[5]
                == 0x65 && p[6] == 0x61 && p[7] == 0x64
            &&& p[8] == 1
            &&& p[9] == layout.output_channel_count
            &&& p[10] + 256 * p[11] == layout.pre_skip
            &&& p[12] + 256 * (p[13] + 256 * (p[14] + 256 * p[15])) == layout.input_sample_rate
            &&& p[16] + 256 * p[17] == layout.output_gain as u16
            &&& p[18] == layout.channel_mapping_family
            &&& layout.channel_mapping_family == 0 ==> p.len() == 19
            &&& layout.channel_mapping_family > 0 ==> {
                &&& layout.stream_count is Some ==> p[19] == layout.stream_count->0
                &&& layout.coupled_count is Some ==> p[20] == layout.coupled_count->0
                &&& layout.channel_mapping is Some ==> p.skip(21) == layout.channel_mapping->0
                &&& layout.stream_count is None ==> p[19] == 1
                &&& layout.coupled_count is None ==> p[20] == 0
                &&& layout.channel_mapping is None ==> p.len() == 21 + layout.output_channel_count
                    && forall|i: int| 21 <= i < p.len() ==> #[trigger] p[i] == i - 21
            }
        }),
{
    wire::little_endian_bytes(layout.pre_skip, layout.input_sample_rate, 0);
    wire::little_endian_bytes(layout.output_gain as u16, 0, 0);
    let p = ogg::head_packet(layout);
    if layout.channel_mapping_family > 0 {
        if layout.channel_mapping is Some {
            assert(p.skip(21) =~= layout.channel_mapping->0);
        } else {
            assert forall|i: int| 21 <= i < p.len() implies #[trigger] p[i] == i - 21 by {
                assert(p[i] == ogg::identity_mapping(layout.output_channel_count)[i - 21]);
            }
        }
    }
}

/// The tags: `OpusTags`, the length of the vendor and the vendor, the number of
/// comments, and, with a title, the length of the comment, `TITLE=` and the
/// title.
pub proof fn tags_bytes(title: Option<Seq<char>>)
    requires
        title matches Some(text) ==> vstd::utf8::encode_utf8(text).len() + 6 <= u32::MAX,
    ensures
        ({
            let p = ogg::tags_packet(title);
            &&& p[0] == 0x4F && p[1] == 0x70 && p[2] == 0x75 && p[3] == 0x73 && p[4] == 0x54 && p[5]
                == 0x61 && p[6] == 0x67 && p[7] == 0x73
            &&& p[8] + 256 * (p[9] + 256 * (p[10] + 256 * p[11])) == 6
            &&& p[12] == 0x6D && p[13] == 0x75 && p[14] == 0x78 && p[15] == 0x66 && p[16] == 0x69
                && p[17] == 0x6E
            &&& title is None || title->0.len() == 0 ==> p.len() == 22 && p[18] + 256 * (p[19] + 256
                * (p[20] + 256 * p[21])) == 0
            &&& title matches Some(text) ==> text.len() > 0 ==> {
                let bytes = vstd::utf8::encode_utf8(text);
                &&& p[18] + 256 * (p[19] + 256 * (p[20] + 256 * p[21])) == 1
                &&& p[22] + 256 * (p[23] + 256 * (p[24] + 256 * p[25])) == bytes.len() + 6
                &&& p[26] == 0x54 && p[27] == 0x49 && p[28] == 0x54 && p[29] == 0x4C && p[30]
                    == 0x45 && p[31] == 0x3D
                &&& p.skip(32) == bytes
            }
        }),
{
    let p = ogg::tags_packet(title);
    wire::little_endian_bytes(0, 6, 0);
    wire::little_endian_bytes(0, 0, 0);
    wire::little_endian_bytes(0, 1, 0);
    if title is Some && title->0.len() > 0 {
        let bytes = vstd::utf8::encode_utf8(title->0);
        wire::little_endian_bytes(0, (bytes.len() + 6) as u32, 0);
        assert(p.skip(32) =~= bytes);
    }
}

/// The length of a packet in segments: 255 as often as it goes, and the rest,
/// which is below 255 and may be 0.
pub proof fn lengths_are_laced(len: nat)
    ensures
        ogg::lacing(len).len() == len / 255 + 1,
        forall|i: int| 0 <= i < len / 255 ==> #[trigger] ogg::lacing(len)[i] == 255,
        ogg::lacing(len)[(len / 255) as int] == len % 255,
        pages::lacing_sum(ogg::lacing(len)) == len,
    decreases len,
{
    let table = ogg::lacing(len);
    if len >= 255 {
        let less = (len - 255) as nat;
        lengths_are_laced(less);
        assert(table.drop_first() =~= ogg::lacing(less));
        assert forall|i: int| 0 <= i < len / 255 implies #[trigger] table[i] == 255 by {
            if i > 0 {
                assert(table[i] == ogg::lacing(less)[i - 1]);
            }
        }
        assert(table[(len / 255) as int] == ogg::lacing(less)[(less / 255) as int]);
    } else {
        assert(table.drop_first() =~= Seq::empty());
        assert(pages::lacing_sum(Seq::empty()) == 0);
    }
}

/// The table of a page adds up to the bytes of its packets.
pub proof fn tables_add_up_to_the_packets(packets: Seq<Seq<u8>>)
    ensures
        pages::lacing_sum(ogg::segment_table(packets)) == wire::joined(packets).len(),
    decreases packets.len(),
{
    if packets.len() > 0 {
        let less = packets.drop_last();
        tables_add_up_to_the_packets(less);
        lengths_are_laced(packets.last().len());
        ogg_laws::lengths_of_segments_add_up(
            ogg::segment_table(less),
            ogg::lacing(packets.last().len()),
        );
    }
}

/// A page, byte by byte: `OggS`, a version of 0, the flags, the granule
/// position, the serial number, the page number and the checksum with their
/// least significant bytes first, the number of segments, their lengths and the
/// payload. The checksum is that of the page with zeros in its place.
pub proof fn page_bytes(page: OggPage)
    requires
        page.segments.len() <= 255,
    ensures
        ({
            let b = ogg::page_image(page);
            let n = page.segments.len() as int;
            &&& b.len() == 27 + n + page.payload.len()
            &&& b[0] == 0x4F && b[1] == 0x67 && b[2] == 0x67 && b[3] == 0x53
            &&& b[4] == 0
            &&& b[5] == page.header_type
            &&& b[6] + 256 * (b[7] + 256 * (b[8] + 256 * (b[9] + 256 * (b[10] + 256 * (b[11] + 256
                * (b[12] + 256 * b[13])))))) == page.granule
            &&& b[14] + 256 * (b[15] + 256 * (b[16] + 256 * b[17])) == page.serial
            &&& b[18] + 256 * (b[19] + 256 * (b[20] + 256 * b[21])) == page.seq
            &&& b[26] == n
            &&& b.subrange(27, 27 + n) == page.segments
            &&& b.skip(27 + n) == page.payload
            &&& b[22] + 256 * (b[23] + 256 * (b[24] + 256 * b[25])) == crc::crc32_of(
                b.take(22) + seq![0u8, 0, 0, 0] + b.skip(26),
            )
        }),
{
    let b = ogg::page_image(page);
    let n = page.segments.len() as int;
    let sum = ogg::page_checksum(page);
    wire::little_endian_bytes(0, page.serial, page.granule);
    wire::little_endian_bytes(0, page.seq, 0);
    wire::little_endian_bytes(0, sum, 0);
    wire::little_endian_bytes(0, 0, 0);
    let front = ogg::page_front(page);
    assert(front.len() == 22);
    assert(b.take(22) =~= front);
    assert(b.skip(26) =~= ogg::page_back(page));
    assert(wire::le32(0) =~= seq![0u8, 0, 0, 0]);
    assert(forall|i: int| 0 <= i < 22 ==> b[i] == front[i]);
    assert(b[22] == wire::le32(sum)[0] && b[23] == wire::le32(sum)[1] && b[24] == wire::le32(sum)[2]
        && b[25] == wire::le32(sum)[3]);
    assert(b[26] == ogg::page_back(page)[0]);
    assert(b.subrange(27, 27 + n) =~= page.segments);
    assert(b.skip(27 + n) =~= page.payload);
}

/// Pages of the file carry the one serial number and what they are given.
pub proof fn pages_carry_their_packets(
    header_type: u8,
    granule: u64,
    seq: u32,
    packets: Seq<Seq<u8>>,
)
    ensures
        ({
            let page = ogg::page_of(header_type, granule, seq, packets);
            &&& page.header_type == header_type
            &&& page.granule == granule
            &&& page.seq == seq
            &&& page.serial == 0x4D55_5846
            &&& page.payload == wire::joined(packets)
            &&& page.payload.len() == pages::lacing_sum(page.segments)
        }),
{
    tables_add_up_to_the_packets(packets);
}

/// The segments that some packets take.
pub open spec fn segments_for(packets: Seq<Seq<u8>>) -> int
    decreases packets.len(),
{
    if packets.len() == 0 {
        0
    } else {
        segments_for(packets.drop_last()) + packets.last().len() / 255 + 1
    }
}

proof fn lemma_batch(packets: Seq<Seq<u8>>, start: int, i: int)
    requires
        0 <= start <= i <= packets.len(),
        i - start <= 50,
        segments_for(packets.subrange(start, i)) <= 255,
    ensures
        ({
            let end = ogg::batch_end(packets, start, i, segments_for(packets.subrange(start, i)));
            &&& i <= end <= packets.len()
            &&& end - start <= 50
            &&& segments_for(packets.subrange(start, end)) <= 255
            &&& end < packets.len() ==> end - start == 50 || segments_for(
                packets.subrange(start, end + 1),
            ) > 255
        }),
    decreases packets.len() - i,
{
    let segs = segments_for(packets.subrange(start, i));
    if i < packets.len() {
        let more = packets.subrange(start, i + 1);
        assert(more.drop_last() =~= packets.subrange(start, i));
        assert(more.last() == packets[i]);
        if i - start < 50 && segs + packets[i].len() / 255 + 1 <= 255 {
            lemma_batch(packets, start, i + 1);
        }
    }
}

/// A page takes as many packets as fit: no more than 50, in no more than 255
/// segments; and one more would not fit.
pub proof fn pages_are_filled(packets: Seq<Seq<u8>>, start: int)
    requires
        0 <= start <= packets.len(),
    ensures
        ({
            let end = ogg::batch_end(packets, start, start, 0);
            &&& start <= end <= packets.len()
            &&& end - start <= 50
            &&& segments_for(packets.subrange(start, end)) <= 255
            &&& end < packets.len() ==> end - start == 50 || segments_for(
                packets.subrange(start, end + 1),
            ) > 255
        }),
{
    assert(packets.subrange(start, start) =~= Seq::empty());
    lemma_batch(packets, start, start);
}

/// A page of audio has the packets from `i` on that fit it, its number, the
/// delay and the samples of all packets up to its end as its granule position,
/// and the flag for the end on the last page alone. The next page goes on behind
/// it.
pub proof fn audio_pages_follow_each_other(
    packets: Seq<Seq<u8>>,
    pre_skip: u16,
    i: int,
    seq: int,
)
    requires
        0 <= i < packets.len(),
        packets[i].len() <= 65024,
        0 <= seq < 0x1_0000_0000,
        ogg::samples_up_to(packets, packets.len() as int) <= 0x7FFF_FFFF_FFFF_FFFF,
    ensures
        ({
            let end = ogg::batch_end(packets, i, i, 0);
            let all = ogg::audio_pages(packets, pre_skip, i, seq);
            &&& i < end <= packets.len()
            &&& all.len() > 0
            &&& all.drop_first() == ogg::audio_pages(packets, pre_skip, end, seq + 1)
            &&& all[0].payload == wire::joined(packets.subrange(i, end))
            &&& all[0].seq == seq
            &&& all[0].granule == pre_skip + ogg::samples_up_to(packets, end)
            &&& end == packets.len() ==> all[0].header_type == 4 && all.len() == 1
            &&& end < packets.len() ==> all[0].header_type == 0
            &&& all[0].serial == 0x4D55_5846
        }),
{
    let end = ogg::batch_end(packets, i, i, 0);
    ogg::lemma_batch_end(packets, i, i, 0);
    let all = ogg::audio_pages(packets, pre_skip, i, seq);
    assert(all.drop_first() =~= ogg::audio_pages(packets, pre_skip, end, seq + 1));
    lemma_samples_grow(packets, end, packets.len() as int);
    lemma_samples_grow(packets, 0, end);
    if end == packets.len() {
        ogg::lemma_batch_end(packets, end, end, 0);
        assert(ogg::audio_pages(packets, pre_skip, end, seq + 1) =~= Seq::empty());
    }
}

proof fn lemma_samples_grow(packets: Seq<Seq<u8>>, m: int, n: int)
    requires
        0 <= m <= n,
    ensures
        0 <= ogg::samples_up_to(packets, m) <= ogg::samples_up_to(packets, n),
    decreases n,
{
    if m < n {
        lemma_samples_grow(packets, m, n - 1);
    } else if m > 0 {
        lemma_samples_grow(packets, m - 1, n - 1);
    }
}

/// The file begins with a page for the identification header, which begins the
/// stream, and one for the tags, which ends it where there is no audio; both at
/// granule position 0.
pub proof fn files_begin_with_the_headers(
    layout: OpusLayout,
    title: Option<Seq<char>>,
    packets: Seq<Seq<u8>>,
)
    ensures
        ({
            let all = ogg::file_pages(layout, title, packets);
            &&& all.len() >= 2
            &&& all[0].header_type == 2 && all[0].granule == 0 && all[0].seq == 0
            &&& all[0].payload == ogg::head_packet(layout)
            &&& all[1].granule == 0 && all[1].seq == 1
            &&& all[1].header_type == (if packets.len() == 0 {
                4int
            } else {
                0int
            })
            &&& all[1].payload == ogg::tags_packet(title)
            &&& all.skip(2) == ogg::audio_pages(packets, layout.pre_skip, 0, 2)
        }),
{
    ogg::lemma_single_packet_table(ogg::head_packet(layout));
    ogg::lemma_single_packet_table(ogg::tags_packet(title));
    let all = ogg::file_pages(layout, title, packets);
    assert(all.skip(2) =~= ogg::audio_pages(packets, layout.pre_skip, 0, 2));
}

/// Samples add up packet by packet.
pub proof fn samples_add_up(packets: Seq<Seq<u8>>, k: int)
    requires
        0 <= k < packets.len(),
        opus::packet_samples(packets[k]) is Some,
    ensures
        ogg::samples_up_to(packets, k + 1) == ogg::samples_up_to(packets, k) + opus::packet_samples(
            packets[k],
        )->0,
        ogg::samples_up_to(packets, 0) == 0,
{
}

/// The layout of a track: the one that is given, else the usual one for its
/// channels, with the delay that is given or 312 samples.
pub proof fn layouts_follow_the_track(track: Mp4AudioTrack)
    ensures
        ({
            let layout = ogg::effective_layout(track);
            &&& track.opus_config_override is Some ==> layout == track.opus_config_override->0@
            &&& track.opus_config_override is None ==> {
                &&& layout.output_channel_count == (if track.channels < 255 {
                    track.channels as int
                } else {
                    255int
                })
                &&& track.opus_preskip is Some ==> layout.pre_skip == track.opus_preskip->0
                &&& track.opus_preskip is None ==> layout.pre_skip == 312
                &&& layout.input_sample_rate == 48000 && layout.version == 0 && layout.output_gain
                    == 0
                &&& layout.channel_mapping_family == (if track.channels <= 2 {
                    0int
                } else {
                    1int
                })
            }
        }),
{
}

/// A packet is taken if and only if the file is not written yet, the track is
/// there and is Opus, the packet is one, and its time does not go back.
pub proof fn packets_are_taken_unless_they_go_back(queue: OggQueue, pts: u64, data: Seq<u8>)
    ensures
        queue.packet_fault(pts, data) is None <==> !queue.finalized && queue.track is Some
            && queue.track->0.codec == AudioCodec::Opus && opus::packet_samples(data) is Some && (
        queue.last_pts matches Some(last) ==> pts >= last),
        queue.finalized ==> queue.packet_fault(pts, data) == Some(
            OggWriterError::AlreadyFinalized,
        ),
        queue.file_fault() is None <==> !queue.finalized && queue.track is Some
            && queue.track->0.codec == AudioCodec::Opus && ogg::effective_layout(
            queue.track->0,
        ).defect() is None,
        queue.finalized ==> queue.file_fault() == Some(OggWriterError::FinalizedTwice),
{
}

} // verus!
