//! What the pages of an Ogg file hold, and how its packets are made of them.

use vstd::prelude::*;
use crate::crc;
use crate::demux::ogg::{self, BosCodec, OggFault, OggOpusTrack, OggPage, OggStream, PlacedPacket};
use crate::seconds::Seconds;
use crate::wire;

verus! {

/// A page is read from its bytes: the letters of the capture pattern, a version
/// of 0, the flags, the granule position, the serial number, the page number
/// and the checksum with their least significant bytes first, the number of
/// segments, their lengths, and as many bytes as these add up to.
pub proof fn pages_are_read_from_their_bytes(data: Seq<u8>, o: int)
    requires
        0 <= o,
        ogg::page_at(data, o) is Ok,
    ensures
        ({
            let page = ogg::page_at(data, o)->Ok_0;
            let n = data[o + 26] as int;
            &&& data[o] == 0x4F && data[o + 1] == 0x67 && data[o + 2] == 0x67 && data[o + 3] == 0x53
            &&& data[o + 4] == 0
            &&& page.header_type == data[o + 5]
            &&& page.granule == data[o + 6] + 256 * (data[o + 7] + 256 * (data[o + 8] + 256 * (
            data[o + 9] + 256 * (data[o + 10] + 256 * (data[o + 11] + 256 * (data[o + 12] + 256
                * data[o + 13]))))))
            &&& page.serial == data[o + 14] + 256 * (data[o + 15] + 256 * (data[o + 16] + 256
                * data[o + 17]))
            &&& page.seq == data[o + 18] + 256 * (data[o + 19] + 256 * (data[o + 20] + 256 * data[o
                + 21]))
            &&& page.segments.len() == n
            &&& page.segments == data.subrange(o + 27, o + 27 + n)
            &&& page.payload.len() == ogg::lacing_sum(page.segments)
            &&& page.payload == data.subrange(o + 27 + n, o + 27 + n + page.payload.len())
            &&& page.total_len() == 27 + n + page.payload.len()
            &&& page.bos() <==> data[o + 5] / 2 % 2 == 1
            &&& page.eos() <==> data[o + 5] / 4 % 2 == 1
        }),
{
    let head = data.subrange(o, o + 4);
    assert(head[0] == data[o] && head[1] == data[o + 1] && head[2] == data[o + 2] && head[3]
        == data[o + 3]);
    ogg::lemma_lacing_sum_nonnegative(ogg::page_at(data, o)->Ok_0.segments);
}

/// What is no page is told: too few bytes for the header, another capture
/// pattern, another version, too few bytes for the segments, a checksum that is
/// not that of the page with zeros in its place.
pub proof fn faulty_pages_are_told(data: Seq<u8>, o: int)
    requires
        0 <= o,
    ensures
        data.len() - o < 27 ==> ogg::page_at(data, o) == Err::<OggPage, OggFault>(
            OggFault::Truncated { offset: o },
        ),
        data.len() - o >= 27 && !(data[o] == 0x4F && data[o + 1] == 0x67 && data[o + 2] == 0x67
            && data[o + 3] == 0x53) ==> ogg::page_at(data, o) == Err::<OggPage, OggFault>(
            OggFault::BadCapture { offset: o },
        ),
        data.len() - o >= 27 && data[o] == 0x4F && data[o + 1] == 0x67 && data[o + 2] == 0x67
            && data[o + 3] == 0x53 && data[o + 4] != 0 ==> ogg::page_at(data, o) == Err::<
            OggPage,
            OggFault,
        >(OggFault::BadVersion { version: data[o + 4] }),
        data.len() - o >= 27 && data[o] == 0x4F && data[o + 1] == 0x67 && data[o + 2] == 0x67
            && data[o + 3] == 0x53 && data[o + 4] == 0 && data.len() - o < 27 + data[o + 26]
            ==> ogg::page_at(data, o) == Err::<OggPage, OggFault>(
            OggFault::Truncated { offset: o },
        ),
        ogg::page_at(data, o) matches Ok(page) ==> {
            let end = o + page.total_len();
            crc::crc32_of(
                data.subrange(o, o + 22) + seq![0u8, 0, 0, 0] + data.subrange(o + 26, end),
            ) == data[o + 22] + 256 * (data[o + 23] + 256 * (data[o + 24] + 256 * data[o + 25]))
        },
{
    if data.len() - o >= 27 {
        let head = data.subrange(o, o + 4);
        assert(head[0] == data[o] && head[1] == data[o + 1] && head[2] == data[o + 2] && head[3]
            == data[o + 3]);
        if data[o] == 0x4F && data[o + 1] == 0x67 && data[o + 2] == 0x67 && data[o + 3] == 0x53 {
            assert(head =~= ogg::capture_pattern());
        }
    }
    if ogg::page_at(data, o) is Ok {
        let page = ogg::page_at(data, o)->Ok_0;
        ogg::lemma_lacing_sum_nonnegative(page.segments);
        let end = o + page.total_len();
        let all = data.subrange(o, end);
        assert(all.take(22) =~= data.subrange(o, o + 22));
        assert(all.skip(26) =~= data.subrange(o + 26, end));
    }
}

/// The lengths of segments add up, one behind the other.
pub proof fn lengths_of_segments_add_up(a: Seq<u8>, b: Seq<u8>)
    ensures
        ogg::lacing_sum(a + b) == ogg::lacing_sum(a) + ogg::lacing_sum(b),
        a.len() == 1 ==> ogg::lacing_sum(a) == a[0],
        a.len() == 0 ==> ogg::lacing_sum(a) == 0,
    decreases a.len(),
{
    if a.len() == 0 {
        assert(a + b =~= b);
    } else {
        lengths_of_segments_add_up(a.drop_first(), b);
        assert((a + b).drop_first() =~= a.drop_first() + b);
        if a.len() == 1 {
            assert(a.drop_first() =~= Seq::empty());
        }
    }
}

/// The bytes of some packets.
pub open spec fn bytes_of(packets: Seq<PlacedPacket>) -> Seq<u8>
    decreases packets.len(),
{
    if packets.len() == 0 {
        Seq::empty()
    } else {
        bytes_of(packets.drop_last()) + packets.last().data
    }
}

/// How many of some segments end a packet: those below 255.
pub open spec fn ends_in(segments: Seq<u8>) -> int
    decreases segments.len(),
{
    if segments.len() == 0 {
        0
    } else {
        (if segments[0] < 255 {
            1int
        } else {
            0int
        }) + ends_in(segments.drop_first())
    }
}

/// Packets are made of segments without loss: what was pending, with the bytes
/// of the page behind it, is what the new packets and the new rest hold. A
/// packet ends with each segment below 255, on the page of that segment, and
/// something is pending only behind a segment of 255.
pub proof fn packets_hold_every_byte(
    packets: Seq<PlacedPacket>,
    pending: Seq<u8>,
    segments: Seq<u8>,
    payload: Seq<u8>,
    page: int,
)
    requires
        payload.len() == ogg::lacing_sum(segments),
    ensures
        ({
            let (now, rest) = ogg::deliver(packets, pending, segments, payload, page);
            &&& bytes_of(now) + rest == bytes_of(packets) + pending + payload
            &&& now.len() == packets.len() + ends_in(segments)
            &&& ends_in(segments) >= 0
            &&& now.take(packets.len() as int) == packets
            &&& forall|k: int|
                packets.len() <= k < now.len() ==> (#[trigger] now[k]).page == page
            &&& segments.len() > 0 && segments.last() < 255 ==> rest.len() == 0
        }),
    decreases segments.len(),
{
    let (now, rest) = ogg::deliver(packets, pending, segments, payload, page);
    if segments.len() == 0 {
        assert(now.take(packets.len() as int) =~= packets);
        assert(payload =~= Seq::empty());
        assert(bytes_of(packets) + pending + payload =~= bytes_of(packets) + pending);
    } else {
        let len = segments[0] as int;
        let less = segments.drop_first();
        ogg::lemma_lacing_sum_nonnegative(less);
        let joined = pending + payload.take(len);
        let tail = payload.skip(len);
        assert(payload =~= payload.take(len) + tail);
        if len < 255 {
            let more = packets.push(PlacedPacket { data: joined, page });
            packets_hold_every_byte(more, Seq::empty(), less, tail, page);
            assert(more.drop_last() =~= packets);
            assert(bytes_of(more) == bytes_of(packets) + joined);
            assert(bytes_of(more) + Seq::<u8>::empty() + tail =~= bytes_of(packets) + pending
                + payload);
            assert(now.take(packets.len() as int) =~= now.take(more.len() as int).take(
                packets.len() as int,
            ));
            assert(more.take(packets.len() as int) =~= packets);
            assert forall|k: int| packets.len() <= k < now.len() implies (
            #[trigger] now[k]).page == page by {
                if k == packets.len() {
                    assert(now.take(more.len() as int)[k] == more[k]);
                }
            }
            if less.len() == 0 {
                assert(rest.len() == 0);
            } else {
                assert(less.last() == segments.last());
            }
        } else {
            packets_hold_every_byte(packets, joined, less, tail, page);
            assert(bytes_of(packets) + joined + tail =~= bytes_of(packets) + pending + payload);
            if less.len() > 0 {
                assert(less.last() == segments.last());
            }
        }
    }
}

/// Pages of a stream are taken in order: each has the next number, the first
/// begins the stream, and none comes behind the end.
pub proof fn pages_are_taken_in_order(stream: OggStream, page: OggPage, index: int)
    ensures
        ogg::absorb(stream, page, index) is Ok <==> !stream.eos && !(stream.bos_seen && page.bos())
            && page.seq == stream.expected_seq,
        stream.eos || (page.bos() && stream.bos_seen) ==> ogg::absorb(stream, page, index) == Err::<
            OggStream,
            OggFault,
        >(OggFault::Chained),
        !stream.eos && !(page.bos() && stream.bos_seen) && page.seq != stream.expected_seq
            ==> ogg::absorb(stream, page, index) == Err::<OggStream, OggFault>(
            OggFault::BrokenSequence { serial: page.serial },
        ),
        ogg::absorb(stream, page, index) matches Ok(next) ==> {
            &&& next.serial == stream.serial
            &&& next.expected_seq as int == (stream.expected_seq + 1) % 0x1_0000_0000
            &&& next.eos == page.eos()
            &&& next.bos_seen == (stream.bos_seen || page.bos())
        },
{
}

/// A new stream begins with the number of its first page.
pub proof fn streams_begin_with_their_first_page(page: OggPage)
    ensures
        ogg::new_stream(page).serial == page.serial,
        ogg::new_stream(page).expected_seq == page.seq,
        ogg::new_stream(page).packets.len() == 0,
        ogg::new_stream(page).pending.len() == 0,
        !ogg::new_stream(page).eos && !ogg::new_stream(page).bos_seen,
{
}

/// A page belongs to the first stream with its serial number.
pub proof fn pages_belong_to_their_serial(streams: Seq<OggStream>, serial: u32)
    ensures
        0 <= ogg::stream_position(streams, serial) <= streams.len(),
        ogg::stream_position(streams, serial) < streams.len()
            ==> streams[ogg::stream_position(streams, serial)].serial == serial,
        forall|k: int|
            0 <= k < ogg::stream_position(streams, serial) ==> (#[trigger] streams[k]).serial
                != serial,
    decreases streams.len(),
{
    if streams.len() > 0 && streams[0].serial != serial {
        let rest = streams.drop_first();
        pages_belong_to_their_serial(rest, serial);
        assert forall|k: int| 0 <= k < ogg::stream_position(streams, serial) implies (
        #[trigger] streams[k]).serial != serial by {
            if k > 0 {
                assert(rest[k - 1] == streams[k]);
            }
        }
    }
}

/// Streams are whole if and only if nothing is pending in any and each has
/// begun.
pub proof fn whole_streams_have_begun_and_ended(streams: Seq<OggStream>, i: int, data_len: int)
    requires
        0 <= i <= streams.len(),
    ensures
        ogg::unfinished(streams, i, data_len) is None <==> forall|k: int|
            i <= k < streams.len() ==> (#[trigger] streams[k]).pending.len() == 0
                && streams[k].bos_seen,
        ogg::unfinished(streams, i, data_len) matches Some(fault) ==> fault == (
        OggFault::Truncated { offset: data_len }) || exists|k: int|
            i <= k < streams.len() && fault == (OggFault::BrokenSequence {
                serial: (#[trigger] streams[k]).serial,
            }),
    decreases streams.len() - i,
{
    if i < streams.len() {
        whole_streams_have_begun_and_ended(streams, i + 1, data_len);
        if ogg::unfinished(streams, i, data_len) is None {
            assert(streams[i].pending.len() == 0 && streams[i].bos_seen);
        } else if ogg::unfinished(streams, i, data_len) != Some(
            OggFault::Truncated { offset: data_len },
        ) && !streams[i].bos_seen && streams[i].pending.len() == 0 {
            assert(ogg::unfinished(streams, i, data_len) == Some(
                OggFault::BrokenSequence { serial: streams[i].serial },
            ));
        }
    }
}

/// The codec of a stream is told by the first bytes of its first packet:
/// `OpusHead`, a one and `vorbis`, `fLaC` or 0x7F and `FLAC`, and 0x01 or 0x80
/// and `theora`.
pub proof fn first_packets_tell_the_codec(p: Seq<u8>)
    ensures
        ogg::bos_codec(p) == BosCodec::Opus <==> p.len() >= 8 && p[0] == 0x4F && p[1] == 0x70
            && p[2] == 0x75 && p[3] == 0x73 && p[4] == 0x48 && p[5] == 0x65 && p[6] == 0x61 && p[7]
            == 0x64,
        ogg::bos_codec(p) == BosCodec::Vorbis <==> p.len() >= 7 && p[0] == 0x01 && p[1] == 0x76
            && p[2] == 0x6F && p[3] == 0x72 && p[4] == 0x62 && p[5] == 0x69 && p[6] == 0x73,
        ogg::bos_codec(p) == BosCodec::Flac <==> (p.len() >= 4 && p[0] == 0x66 && p[1] == 0x4C
            && p[2] == 0x61 && p[3] == 0x43) || (p.len() >= 5 && p[0] == 0x7F && p[1] == 0x46
            && p[2] == 0x4C && p[3] == 0x41 && p[4] == 0x43),
        ogg::bos_codec(p) == BosCodec::Theora <==> p.len() >= 7 && (p[0] == 0x01 || p[0] == 0x80)
            && p[1] == 0x74 && p[2] == 0x68 && p[3] == 0x65 && p[4] == 0x6F && p[5] == 0x72 && p[6]
            == 0x61,
{
    lemma_begins(p, ogg::opus_head_magic());
    lemma_begins(p, seq![0x01u8, 0x76, 0x6F, 0x72, 0x62, 0x69, 0x73]);
    lemma_begins(p, seq![0x66u8, 0x4C, 0x61, 0x43]);
    lemma_begins(p, seq![0x7Fu8, 0x46, 0x4C, 0x41, 0x43]);
    lemma_begins(p, seq![0x01u8, 0x74, 0x68, 0x65, 0x6F, 0x72, 0x61]);
    lemma_begins(p, seq![0x80u8, 0x74, 0x68, 0x65, 0x6F, 0x72, 0x61]);
    lemma_each(p, ogg::opus_head_magic());
    lemma_each(p, seq![0x01u8, 0x76, 0x6F, 0x72, 0x62, 0x69, 0x73]);
    lemma_each(p, seq![0x66u8, 0x4C, 0x61, 0x43]);
    lemma_each(p, seq![0x7Fu8, 0x46, 0x4C, 0x41, 0x43]);
    lemma_each(p, seq![0x01u8, 0x74, 0x68, 0x65, 0x6F, 0x72, 0x61]);
    lemma_each(p, seq![0x80u8, 0x74, 0x68, 0x65, 0x6F, 0x72, 0x61]);
}

proof fn lemma_begins(p: Seq<u8>, prefix: Seq<u8>)
    ensures
        wire::begins_with(p, prefix) <==> p.len() >= prefix.len() && forall|i: int|
            0 <= i < prefix.len() ==> p[i] == #[trigger] prefix[i],
{
    if p.len() >= prefix.len() {
        let front = p.subrange(0, prefix.len() as int);
        if front == prefix {
            assert(forall|i: int| 0 <= i < prefix.len() ==> p[i] == front[i]);
        } else if forall|i: int| 0 <= i < prefix.len() ==> p[i] == #[trigger] prefix[i] {
            assert(front =~= prefix);
        }
    }
}

/// A prefix of at least four and at most eight bytes, byte by byte.
proof fn lemma_each(p: Seq<u8>, prefix: Seq<u8>)
    requires
        4 <= prefix.len() <= 8,
    ensures
        (forall|i: int| 0 <= i < prefix.len() ==> p[i] == #[trigger] prefix[i]) <==> p[0]
            == prefix[0] && p[1] == prefix[1] && p[2] == prefix[2] && p[3] == prefix[3] && (
        prefix.len() > 4 ==> p[4] == prefix[4]) && (prefix.len() > 5 ==> p[5] == prefix[5]) && (
        prefix.len() > 6 ==> p[6] == prefix[6]) && (prefix.len() > 7 ==> p[7] == prefix[7]),
{
}

proof fn lemma_no_second(streams: Seq<OggStream>, i: int, first: int)
    requires
        0 <= i <= streams.len(),
    ensures
        ogg::opus_among(streams, i, Some(first)) == Ok::<Option<int>, OggFault>(Some(first))
            <==> forall|k: int|
            i <= k < streams.len() ==> !ogg::carries(#[trigger] streams[k], BosCodec::Opus),
        ogg::opus_among(streams, i, Some(first)) == Ok::<Option<int>, OggFault>(Some(first))
            || ogg::opus_among(streams, i, Some(first)) == Err::<Option<int>, OggFault>(
            OggFault::Multiplexed,
        ),
    decreases streams.len() - i,
{
    if i < streams.len() {
        lemma_no_second(streams, i + 1, first);
        if !ogg::carries(streams[i], BosCodec::Opus) {
            assert(ogg::opus_among(streams, i, Some(first)) == ogg::opus_among(
                streams,
                i + 1,
                Some(first),
            ));
        } else {
            assert(ogg::carries(streams[i], BosCodec::Opus));
        }
    }
}

/// The Opus stream is the one that begins as one; with none there is none, and
/// with two there is no telling which.
pub proof fn there_is_one_opus_stream(streams: Seq<OggStream>, i: int)
    requires
        0 <= i <= streams.len(),
    ensures
        ogg::opus_among(streams, i, None) == Ok::<Option<int>, OggFault>(None) <==> forall|k: int|
            i <= k < streams.len() ==> !ogg::carries(#[trigger] streams[k], BosCodec::Opus),
        ogg::opus_among(streams, i, None) matches Ok(Some(at)) ==> {
            &&& i <= at < streams.len()
            &&& ogg::carries(streams[at], BosCodec::Opus)
            &&& forall|k: int|
                i <= k < streams.len() && k != at ==> !ogg::carries(
                    #[trigger] streams[k],
                    BosCodec::Opus,
                )
        },
        ogg::opus_among(streams, i, None) matches Err(fault) ==> fault == OggFault::Multiplexed
            && exists|j: int, k: int|
            i <= j < k < streams.len() && ogg::carries(#[trigger] streams[j], BosCodec::Opus)
                && ogg::carries(#[trigger] streams[k], BosCodec::Opus),
    decreases streams.len() - i,
{
    if i < streams.len() {
        if !ogg::carries(streams[i], BosCodec::Opus) {
            there_is_one_opus_stream(streams, i + 1);
            assert(ogg::opus_among(streams, i, None) == ogg::opus_among(streams, i + 1, None));
        } else {
            lemma_no_second(streams, i + 1, i);
            assert(ogg::carries(streams[i], BosCodec::Opus));
            if ogg::opus_among(streams, i, None) is Err {
                let k = choose|k: int|
                    i + 1 <= k < streams.len() && ogg::carries(
                        #[trigger] streams[k],
                        BosCodec::Opus,
                    );
                assert(ogg::carries(streams[k], BosCodec::Opus));
            }
        }
    }
}

/// The identification header: behind eight letters a version of 1, the
/// channels, the delay and the rate with their least significant bytes first,
/// two bytes of gain, and a mapping of 0.
pub proof fn identification_headers_are_read_from_their_bytes(p: Seq<u8>)
    ensures
        ogg::opus_head_in(p) is Ok <==> p.len() == 19 && p[8] == 1 && p[9] > 0 && p[18] == 0,
        ogg::opus_head_in(p) matches Ok(head) ==> {
            &&& head.channels == p[9]
            &&& head.pre_skip == p[10] + 256 * p[11]
            &&& head.input_sample_rate == p[12] + 256 * (p[13] + 256 * (p[14] + 256 * p[15]))
        },
        p.len() >= 19 && p[8] == 1 && p[9] > 0 && p[18] > 0 ==> ogg::opus_head_in(p) == Err::<
            ogg::OpusHeadFields,
            OggFault,
        >(OggFault::UnsupportedMapping { family: p[18] }),
{
}

/// The audio begins behind the identification header, and behind the tags
/// where the second packet begins with `OpusTags`.
pub proof fn audio_begins_behind_the_headers(raw: Seq<PlacedPacket>)
    ensures
        ogg::audio_start(raw) == 2 <==> raw.len() > 1 && raw[1].data.len() >= 8 && raw[1].data[0]
            == 0x4F && raw[1].data[1] == 0x70 && raw[1].data[2] == 0x75 && raw[1].data[3] == 0x73
            && raw[1].data[4] == 0x54 && raw[1].data[5] == 0x61 && raw[1].data[6] == 0x67
            && raw[1].data[7] == 0x73,
        ogg::audio_start(raw) == 1 || ogg::audio_start(raw) == 2,
{
    if raw.len() > 1 {
        lemma_begins(raw[1].data, ogg::opus_tags_magic());
        lemma_each(raw[1].data, ogg::opus_tags_magic());
    }
}

/// Whether the packets in front of `k` end with those of a page.
pub open spec fn ends_page(audio: Seq<PlacedPacket>, k: int) -> bool {
    0 < k <= audio.len() && (k == audio.len() || audio[k].page != audio[k - 1].page)
}

proof fn lemma_granules(
    pages: Seq<OggPage>,
    audio: Seq<PlacedPacket>,
    pre_skip: int,
    i: int,
    anchor: Option<(int, int)>,
    b: int,
)
    requires
        0 <= i < b <= audio.len(),
        ends_page(audio, b),
        ogg::granule_fault(pages, audio, pre_skip, i, anchor) is None,
        pages[audio[b - 1].page].granule != 0xFFFF_FFFF_FFFF_FFFF,
    ensures
        anchor matches Some((last_end, last_granule)) ==> pages[audio[b - 1].page].granule
            - last_granule == ogg::samples_before(audio, b) - ogg::samples_before(audio, last_end),
        pages[audio[b - 1].page].eos() ==> pages[audio[b - 1].page].granule <= pre_skip
            + ogg::samples_before(audio, b),
    decreases audio.len() - i,
{
    let e = ogg::run_end(audio, i, audio[i].page);
    ogg::lemma_run_end(audio, i, audio[i].page);
    assert(e > i) by {
        if e == i {
            assert(audio[e].page != audio[i].page);
        }
    }
    let page = pages[audio[i].page];
    assert(audio[e - 1].page == audio[i].page);
    if b < e {
        assert(audio[b].page == audio[i].page);
        assert(audio[b - 1].page == audio[i].page);
    }
    if b > e {
        if page.granule == 0xFFFF_FFFF_FFFF_FFFF {
            lemma_granules(pages, audio, pre_skip, e, anchor, b);
        } else {
            lemma_granules(
                pages,
                audio,
                pre_skip,
                e,
                Some((e, page.granule as int)),
                b,
            );
        }
    }
}

proof fn lemma_granules_from(
    pages: Seq<OggPage>,
    audio: Seq<PlacedPacket>,
    pre_skip: int,
    i: int,
    anchor: Option<(int, int)>,
    a: int,
    b: int,
)
    requires
        0 <= i < a < b <= audio.len(),
        ends_page(audio, a),
        ends_page(audio, b),
        ogg::granule_fault(pages, audio, pre_skip, i, anchor) is None,
        pages[audio[a - 1].page].granule != 0xFFFF_FFFF_FFFF_FFFF,
        pages[audio[b - 1].page].granule != 0xFFFF_FFFF_FFFF_FFFF,
    ensures
        pages[audio[b - 1].page].granule - pages[audio[a - 1].page].granule == ogg::samples_before(
            audio,
            b,
        ) - ogg::samples_before(audio, a),
    decreases audio.len() - i,
{
    let e = ogg::run_end(audio, i, audio[i].page);
    ogg::lemma_run_end(audio, i, audio[i].page);
    assert(e > i) by {
        if e == i {
            assert(audio[e].page != audio[i].page);
        }
    }
    let page = pages[audio[i].page];
    assert(audio[e - 1].page == audio[i].page);
    if a < e {
        assert(audio[a].page == audio[i].page);
        assert(audio[a - 1].page == audio[i].page);
    }
    if a == e {
        lemma_granules(pages, audio, pre_skip, e, Some((e, page.granule as int)), b);
    } else if page.granule == 0xFFFF_FFFF_FFFF_FFFF {
        lemma_granules_from(pages, audio, pre_skip, e, anchor, a, b);
    } else {
        lemma_granules_from(
            pages,
            audio,
            pre_skip,
            e,
            Some((e, page.granule as int)),
            a,
            b,
        );
    }
}

/// Granule positions agree with the packets: between the ends of any two pages
/// that have one, it grows by the samples of the packets between them; and that
/// of the last page is no further than the delay and all samples.
pub proof fn granules_agree_with_the_packets(
    pages: Seq<OggPage>,
    audio: Seq<PlacedPacket>,
    pre_skip: int,
    a: int,
    b: int,
)
    requires
        ogg::granule_fault(pages, audio, pre_skip, 0, None) is None,
        ends_page(audio, a),
        ends_page(audio, b),
        pages[audio[a - 1].page].granule != 0xFFFF_FFFF_FFFF_FFFF,
        pages[audio[b - 1].page].granule != 0xFFFF_FFFF_FFFF_FFFF,
    ensures
        a < b ==> pages[audio[b - 1].page].granule - pages[audio[a - 1].page].granule
            == ogg::samples_before(audio, b) - ogg::samples_before(audio, a),
        pages[audio[b - 1].page].eos() ==> pages[audio[b - 1].page].granule <= pre_skip
            + ogg::samples_before(audio, b),
{
    lemma_granules(pages, audio, pre_skip, 0, None, b);
    if a < b {
        lemma_granules_from(pages, audio, pre_skip, 0, None, a, b);
    }
}

/// Pages are taken one by one, each by the stream with its serial number, which
/// the page begins where there is none. Other streams stay as they are.
pub proof fn pages_are_taken_one_by_one(
    streams: Seq<OggStream>,
    pages: Seq<OggPage>,
    index: int,
    at: int,
)
    requires
        0 <= index < pages.len(),
        0 <= at < streams.len(),
        streams[at].serial == pages[index].serial,
        forall|k: int| 0 <= k < at ==> (#[trigger] streams[k]).serial != pages[index].serial,
    ensures
        ogg::absorb(streams[at], pages[index], index) matches Ok(next) ==> ogg::absorb_all(
            streams,
            pages,
            index,
        ) == ogg::absorb_all(streams.update(at, next), pages, index + 1),
        ogg::absorb(streams[at], pages[index], index) matches Err(fault) ==> ogg::absorb_all(
            streams,
            pages,
            index,
        ) == Err::<Seq<OggStream>, OggFault>(fault),
{
    let serial = pages[index].serial;
    pages_belong_to_their_serial(streams, serial);
    let found = ogg::stream_position(streams, serial);
    if found < at {
        assert(streams[found].serial != serial);
    }
    if at < found {
        assert(streams[at].serial != serial);
    }
}

/// A page of a stream that is not known yet begins it.
pub proof fn unknown_serials_begin_streams(
    streams: Seq<OggStream>,
    pages: Seq<OggPage>,
    index: int,
)
    requires
        0 <= index < pages.len(),
        forall|k: int| 0 <= k < streams.len() ==> (#[trigger] streams[k]).serial
            != pages[index].serial,
    ensures
        ogg::absorb(ogg::new_stream(pages[index]), pages[index], index) matches Ok(next)
            ==> ogg::absorb_all(streams, pages, index) == ogg::absorb_all(
            streams.push(next),
            pages,
            index + 1,
        ),
        ogg::absorb_all(streams, pages, pages.len() as int) == Ok::<Seq<OggStream>, OggFault>(
            streams,
        ),
{
    let page = pages[index];
    pages_belong_to_their_serial(streams, page.serial);
    let at = ogg::stream_position(streams, page.serial);
    if at < streams.len() {
        assert(streams[at].serial != page.serial);
    }
    if ogg::absorb(ogg::new_stream(page), page, index) is Ok {
        let next = ogg::absorb(ogg::new_stream(page), page, index)->Ok_0;
        let opened = streams.push(ogg::new_stream(page));
        assert(opened.update(at, next) =~= streams.push(next));
    }
}

/// A track has the channels, the delay and the rate of its identification
/// header, and all packets behind the headers, each at the end of those before
/// it.
pub proof fn tracks_hold_their_packets(pages: Seq<OggPage>, raw: Seq<PlacedPacket>, k: int)
    requires
        ogg::track_of(pages, raw) is Ok,
    ensures
        ({
            let track = ogg::track_of(pages, raw)->Ok_0;
            let head = raw[0].data;
            let from = ogg::audio_start(raw);
            &&& track.channels == head[9]
            &&& track.pre_skip == head[10] + 256 * head[11]
            &&& track.input_sample_rate == head[12] + 256 * (head[13] + 256 * (head[14] + 256
                * head[15]))
            &&& track.packets.len() == raw.len() - from
            &&& track.packets.len() > 0
            &&& 0 <= k < track.packets.len() ==> track.packets[k].data == raw[from + k].data
            &&& track.packets[0].pts == 0
            &&& 0 <= k < track.packets.len() - 1 ==> track.packets[k + 1].pts
                == track.packets[k].pts + ogg::samples_of(raw[from + k].data)
            &&& track.duration == track.packets.last().pts + ogg::samples_of(raw.last().data)
        }),
{
    let track = ogg::track_of(pages, raw)->Ok_0;
    let from = ogg::audio_start(raw);
    let audio = raw.skip(from);
    identification_headers_are_read_from_their_bytes(raw[0].data);
    audio_begins_behind_the_headers(raw);
    let n = audio.len() as int;
    assert(audio[n - 1] == raw.last());
    assert(track.packets.last().pts == ogg::samples_before(audio, n - 1));
    assert(ogg::samples_before(audio, n) == ogg::samples_before(audio, n - 1) + ogg::samples_of(
        audio[n - 1].data,
    ));
    if 0 <= k < n {
        assert(audio[k] == raw[from + k]);
    }
    if 0 <= k < n - 1 {
        assert(ogg::samples_before(audio, k + 1) == ogg::samples_before(audio, k)
            + ogg::samples_of(audio[k].data));
    }
}

/// Which streams make a file: exactly one of Opus. One of Vorbis alone is told by
/// its name.
pub proof fn files_hold_one_opus_stream(
    pages: Seq<OggPage>,
    data_len: int,
    streams: Seq<OggStream>,
)
    requires
        ogg::absorb_all(Seq::empty(), pages, 0) == Ok::<Seq<OggStream>, OggFault>(streams),
        ogg::unfinished(streams, 0, data_len) is None,
    ensures
        ogg::opus_among(streams, 0, None) matches Ok(Some(i)) ==> ogg::track_in_pages(
            pages,
            data_len,
        ) == ogg::track_of(pages, streams[i].packets),
        ogg::opus_among(streams, 0, None) matches Err(fault) ==> ogg::track_in_pages(
            pages,
            data_len,
        ) == Err::<ogg::TrackModel, OggFault>(fault),
        ogg::opus_among(streams, 0, None) == Ok::<Option<int>, OggFault>(None) ==> ({
            let vorbis = exists|i: int|
                0 <= i < streams.len() && ogg::carries(#[trigger] streams[i], BosCodec::Vorbis);
            &&& !vorbis ==> ogg::track_in_pages(pages, data_len) == Err::<
                ogg::TrackModel,
                OggFault,
            >(OggFault::NoOpusStream)
            &&& vorbis ==> ogg::track_in_pages(pages, data_len) == Err::<ogg::TrackModel, OggFault>(
                OggFault::UnsupportedCodec { name: seq!['v', 'o', 'r', 'b', 'i', 's'] },
            )
        }),
{
    reveal_strlit("vorbis");
    assert("vorbis"@ =~= seq!['v', 'o', 'r', 'b', 'i', 's']);
}

/// The length of a track: its last packet starts at its time in 1/48000 s, and
/// what is left of the duration follows. Without packets it is zero.
pub proof fn tracks_are_as_long_as_their_packets(track: OggOpusTrack)
    ensures
        track.packets@.len() == 0 ==> track.length().bits == 0,
        track.packets@.len() > 0 ==> ({
            let start = track.packets@[track.packets@.len() - 1].pts as int;
            track.length() == Seconds::of_ratio(start, 48_000).plus(
                Seconds::of_ratio(track.duration - start, 48_000),
            )
        }),
{
}

} // verus!
