//! Ogg demuxer for a single Opus stream.
//!
//! An Ogg file is a sequence of pages. Each page belongs to a logical stream
//! (its serial number), carries a checksum, and cuts packets into lacing
//! segments of up to 255 bytes; a segment shorter than 255 ends a packet.
//! The demuxer checks every page, reassembles the packets of every stream,
//! picks the one Opus stream, and times its packets on the 48 kHz clock from
//! their own headers. Granule positions are held against those durations by
//! differences, and the one at the end of the stream as a bound.

use vstd::prelude::*;
use vstd::string::StringExecFns;
use crate::codec::opus::{self, opus_packet_samples};
use crate::crc::{self, crc32_table, crc32_with_table};
use crate::text::{self, push_decimal, push_hex};
use crate::wire::{self, get_le16, get_le32, get_le64, put_slice, starts_with};
use crate::seconds::Seconds;

verus! {

/// Granule position of a page on which no packet ends.
pub const GRANULE_NONE: u64 = 0xFFFF_FFFF_FFFF_FFFF;

/// Longest input that is demuxed, in bytes; it keeps sample counts in 64 bits.
pub const MAX_OGG_LEN: u64 = 0x4000_0000_0000;

/// A demuxed Opus packet.
#[derive(Clone, Debug, PartialEq, Eq)]
pub struct OggOpusPacket {
    /// Presentation time in 48 kHz samples, without the encoder delay.
    pub pts: u64,
    /// The Opus packet.
    pub data: Vec<u8>,
}

/// A demuxed Ogg Opus stream.
#[derive(Clone, Debug, PartialEq, Eq)]
pub struct OggOpusTrack {
    /// Channel count.
    pub channels: u8,
    /// Encoder delay in 48 kHz samples.
    pub pre_skip: u16,
    /// Sample rate of the original input, for information only.
    pub input_sample_rate: u32,
    /// Audio packets in decode order.
    pub packets: Vec<OggOpusPacket>,
    /// End of the last packet in 48 kHz samples, without the encoder delay.
    pub duration: u64,
}

impl OggOpusPacket {
    /// When the packet is presented.
    pub fn seconds(&self) -> (time: Seconds)
        ensures
            time == Seconds::of_ratio(self.pts as int, 48_000),
    {
        Seconds::from_count(self.pts, 48_000)
    }
}

impl OggOpusTrack {
    /// The duration of the stream: the time of the last packet and, on top of
    /// it, its own duration.
    pub open spec fn length(self) -> Seconds {
        if self.packets@.len() == 0 {
            Seconds { bits: 0 }
        } else {
            let last = self.packets@.last().pts;
            Seconds::of_ratio(last as int, 48_000).plus(
                Seconds::of_ratio(self.duration - last, 48_000),
            )
        }
    }

    /// The duration of the stream.
    pub fn duration_seconds(&self) -> (time: Seconds)
        requires
            self.packets@.len() > 0 ==> self.packets@.last().pts <= self.duration,
        ensures
            time == self.length(),
    {
        if self.packets.len() == 0 {
            return Seconds { bits: 0 };
        }
        let last: u64 = self.packets[self.packets.len() - 1].pts;
        let start: Seconds = Seconds::from_count(last, 48_000);
        let rest: Seconds = Seconds::from_count(self.duration - last, 48_000);
        start.later_by(&rest)
    }
}

/// Errors of Ogg demuxing.
#[derive(Debug, Clone, PartialEq, Eq)]
pub enum OggError {
    /// The input is empty.
    Empty,
    /// A page or packet is cut off.
    Truncated { offset: usize },
    /// A page does not start with the capture pattern.
    BadCapture { offset: usize },
    /// Unknown stream structure version.
    BadVersion { version: u8 },
    /// A page checksum does not match.
    BadChecksum { page: u32 },
    /// A stream does not start with its first page, or pages are missing.
    BrokenSequence { serial: u32 },
    /// There is no Opus stream.
    NoOpusStream,
    /// The codec cannot be carried.
    UnsupportedCodec { name: String },
    /// The channel mapping is neither mono nor stereo.
    UnsupportedMapping { family: u8 },
    /// There is more than one Opus stream.
    Multiplexed,
    /// A stream goes on after its end or starts twice.
    Chained,
    /// The identification header is malformed.
    InvalidOpusHead(String),
    /// An audio packet has no decodable header.
    InvalidPacket { page: u32 },
    /// A granule position disagrees with the packet durations.
    GranuleMismatch { page: u32 },
    /// The stream has no audio packets.
    NoAudioPackets,
}

/// The contents of an [`OggError`].
pub enum OggFault {
    Empty,
    Truncated { offset: int },
    BadCapture { offset: int },
    BadVersion { version: u8 },
    BadChecksum { page: u32 },
    BrokenSequence { serial: u32 },
    NoOpusStream,
    UnsupportedCodec { name: Seq<char> },
    UnsupportedMapping { family: u8 },
    Multiplexed,
    Chained,
    InvalidOpusHead(Seq<char>),
    InvalidPacket { page: u32 },
    GranuleMismatch { page: u32 },
    NoAudioPackets,
}

impl View for OggError {
    type V = OggFault;

    open spec fn view(&self) -> OggFault {
        match *self {
            OggError::Empty => OggFault::Empty,
            OggError::Truncated { offset } => OggFault::Truncated { offset: offset as int },
            OggError::BadCapture { offset } => OggFault::BadCapture { offset: offset as int },
            OggError::BadVersion { version } => OggFault::BadVersion { version },
            OggError::BadChecksum { page } => OggFault::BadChecksum { page },
            OggError::BrokenSequence { serial } => OggFault::BrokenSequence { serial },
            OggError::NoOpusStream => OggFault::NoOpusStream,
            OggError::UnsupportedCodec { name } => OggFault::UnsupportedCodec { name: name@ },
            OggError::UnsupportedMapping { family } => OggFault::UnsupportedMapping { family },
            OggError::Multiplexed => OggFault::Multiplexed,
            OggError::Chained => OggFault::Chained,
            OggError::InvalidOpusHead(reason) => OggFault::InvalidOpusHead(reason@),
            OggError::InvalidPacket { page } => OggFault::InvalidPacket { page },
            OggError::GranuleMismatch { page } => OggFault::GranuleMismatch { page },
            OggError::NoAudioPackets => OggFault::NoAudioPackets,
        }
    }
}

impl OggFault {
    /// The message text of the error.
    pub open spec fn text(self) -> Seq<char> {
        match self {
            OggFault::Empty => "Ogg input is empty"@,
            OggFault::Truncated { offset } => "truncated Ogg data at offset "@ + text::decimal(offset),
            OggFault::BadCapture { offset } => "bad Ogg capture pattern at offset "@ + text::decimal(
                offset,
            ),
            OggFault::BadVersion { version } => "unsupported Ogg stream version "@ + text::decimal(
                version as int,
            ),
            OggFault::BadChecksum { page } => "Ogg page "@ + text::decimal(page as int)
                + " CRC mismatch"@,
            OggFault::BrokenSequence { serial } => "broken Ogg page sequence for serial 0x"@
                + text::digits(serial as nat, 16),
            OggFault::NoOpusStream => "no Opus logical stream found in Ogg container"@,
            OggFault::UnsupportedCodec { name } => "Ogg "@ + name
                + " stream cannot be muxed into MP4 (no ISO BMFF binding); use Opus"@,
            OggFault::UnsupportedMapping { family } => "Opus mapping family "@ + text::decimal(
                family as int,
            ) + " is not supported (only family 0 mono/stereo)"@,
            OggFault::Multiplexed => "multiplexed Ogg (multiple Opus streams) is not supported"@,
            OggFault::Chained => "chained Ogg streams are not supported"@,
            OggFault::InvalidOpusHead(reason) => "invalid OpusHead: "@ + reason,
            OggFault::InvalidPacket { page } => "invalid Opus packet on Ogg page "@ + text::decimal(
                page as int,
            ),
            OggFault::GranuleMismatch { page } => "Ogg page "@ + text::decimal(page as int)
                + " granule disagrees with Opus packet durations"@,
            OggFault::NoAudioPackets => "Ogg Opus stream contains no audio packets"@,
        }
    }
}

impl OggError {
    /// The error as a message.
    pub fn message(&self) -> (text: String)
        ensures
            text@ == self@.text(),
    {
        match self {
            OggError::Empty => String::from_str("Ogg input is empty"),
            OggError::Truncated { offset } => {
                let mut text = String::from_str("truncated Ogg data at offset ");
                push_decimal(&mut text, *offset as u64);
                text
            },
            OggError::BadCapture { offset } => {
                let mut text = String::from_str("bad Ogg capture pattern at offset ");
                push_decimal(&mut text, *offset as u64);
                text
            },
            OggError::BadVersion { version } => {
                let mut text = String::from_str("unsupported Ogg stream version ");
                push_decimal(&mut text, *version as u64);
                text
            },
            OggError::BadChecksum { page } => {
                let mut text = String::from_str("Ogg page ");
                push_decimal(&mut text, *page as u64);
                text.append(" CRC mismatch");
                text
            },
            OggError::BrokenSequence { serial } => {
                let mut text = String::from_str("broken Ogg page sequence for serial 0x");
                push_hex(&mut text, *serial as u64);
                text
            },
            OggError::NoOpusStream => String::from_str(
                "no Opus logical stream found in Ogg container",
            ),
            OggError::UnsupportedCodec { name } => {
                let mut text = String::from_str("Ogg ");
                text.append(name.as_str());
                text.append(" stream cannot be muxed into MP4 (no ISO BMFF binding); use Opus");
                text
            },
            OggError::UnsupportedMapping { family } => {
                let mut text = String::from_str("Opus mapping family ");
                push_decimal(&mut text, *family as u64);
                text.append(" is not supported (only family 0 mono/stereo)");
                text
            },
            OggError::Multiplexed => String::from_str(
                "multiplexed Ogg (multiple Opus streams) is not supported",
            ),
            OggError::Chained => String::from_str("chained Ogg streams are not supported"),
            OggError::InvalidOpusHead(reason) => {
                let mut text = String::from_str("invalid OpusHead: ");
                text.append(reason.as_str());
                text
            },
            OggError::InvalidPacket { page } => {
                let mut text = String::from_str("invalid Opus packet on Ogg page ");
                push_decimal(&mut text, *page as u64);
                text
            },
            OggError::GranuleMismatch { page } => {
                let mut text = String::from_str("Ogg page ");
                push_decimal(&mut text, *page as u64);
                text.append(" granule disagrees with Opus packet durations");
                text
            },
            OggError::NoAudioPackets => String::from_str(
                "Ogg Opus stream contains no audio packets",
            ),
        }
    }
}

/// The capture pattern `OggS`.
pub open spec fn capture_pattern() -> Seq<u8> {
    seq![0x4Fu8, 0x67, 0x67, 0x53]
}

/// The magic `OpusHead`.
pub open spec fn opus_head_magic() -> Seq<u8> {
    seq![0x4Fu8, 0x70, 0x75, 0x73, 0x48, 0x65, 0x61, 0x64]
}

/// The magic `OpusTags`.
pub open spec fn opus_tags_magic() -> Seq<u8> {
    seq![0x4Fu8, 0x70, 0x75, 0x73, 0x54, 0x61, 0x67, 0x73]
}

/// The contents of a page.
#[verifier::ext_equal]
pub struct OggPage {
    pub header_type: u8,
    pub granule: u64,
    pub serial: u32,
    pub seq: u32,
    pub segments: Seq<u8>,
    pub payload: Seq<u8>,
}

impl OggPage {
    /// Whether this is the first page of its stream.
    pub open spec fn bos(self) -> bool {
        self.header_type as int / 2 % 2 == 1
    }

    /// Whether this is the last page of its stream.
    pub open spec fn eos(self) -> bool {
        self.header_type as int / 4 % 2 == 1
    }

    /// The length of the page in bytes.
    pub open spec fn total_len(self) -> int {
        (27 + self.segments.len() + self.payload.len()) as int
    }
}

/// The number of payload bytes that a segment table announces.
pub open spec fn lacing_sum(segments: Seq<u8>) -> int
    decreases segments.len(),
{
    if segments.len() == 0 {
        0
    } else {
        segments[0] + lacing_sum(segments.drop_first())
    }
}

/// A page with its checksum field cleared.
pub open spec fn cleared(page: Seq<u8>) -> Seq<u8> {
    page.take(22) + seq![0u8, 0, 0, 0] + page.skip(26)
}

/// The page of `data` that starts at `offset`, or what is wrong with it.
pub open spec fn page_at(data: Seq<u8>, offset: int) -> Result<OggPage, OggFault> {
    let left = data.len() - offset;
    if left < 27 {
        Err(OggFault::Truncated { offset })
    } else if data.subrange(offset, offset + 4) != capture_pattern() {
        Err(OggFault::BadCapture { offset })
    } else if data[offset + 4] != 0 {
        Err(OggFault::BadVersion { version: data[offset + 4] })
    } else {
        let count = data[offset + 26] as int;
        if left < 27 + count {
            Err(OggFault::Truncated { offset })
        } else {
            let segments = data.subrange(offset + 27, offset + 27 + count);
            let total = 27 + count + lacing_sum(segments);
            let seq = wire::le32_at(data, offset + 18) as u32;
            if left < total {
                Err(OggFault::Truncated { offset })
            } else if crc::crc32_of(cleared(data.subrange(offset, offset + total))) != wire::le32_at(
                data,
                offset + 22,
            ) {
                Err(OggFault::BadChecksum { page: seq })
            } else {
                Ok(
                    OggPage {
                        header_type: data[offset + 5],
                        granule: wire::le64_at(data, offset + 6) as u64,
                        serial: wire::le32_at(data, offset + 14) as u32,
                        seq,
                        segments,
                        payload: data.subrange(offset + 27 + count, offset + total),
                    },
                )
            }
        }
    }
}

/// The pages of `data` from `offset` on, after those already in `done`, or
/// the first thing wrong with them.
pub open spec fn pages_from(data: Seq<u8>, offset: int, done: Seq<OggPage>) -> Result<
    Seq<OggPage>,
    OggFault,
>
    decreases data.len() - offset,
{
    if !(0 <= offset < data.len()) {
        Ok(done)
    } else {
        match page_at(data, offset) {
            Ok(page) => {
                proof {
                    lemma_lacing_sum_nonnegative(page.segments);
                }
                pages_from(data, offset + page.total_len(), done.push(page))
            },
            Err(fault) => Err(fault),
        }
    }
}

/// A packet and the index of the page on which it ends.
pub struct PlacedPacket {
    pub data: Seq<u8>,
    pub page: int,
}

/// The reassembly state of a logical stream.
#[verifier::ext_equal]
pub struct OggStream {
    pub serial: u32,
    pub packets: Seq<PlacedPacket>,
    pub pending: Seq<u8>,
    pub expected_seq: u32,
    pub eos: bool,
    pub bos_seen: bool,
}

/// The packets and the unfinished packet after the segments of page number
/// `page` have been appended.
pub open spec fn deliver(
    packets: Seq<PlacedPacket>,
    pending: Seq<u8>,
    segments: Seq<u8>,
    payload: Seq<u8>,
    page: int,
) -> (Seq<PlacedPacket>, Seq<u8>)
    decreases segments.len(),
{
    if segments.len() == 0 {
        (packets, pending)
    } else {
        let len = segments[0] as int;
        let joined = pending + payload.take(len);
        if len < 255 {
            deliver(
                packets.push(PlacedPacket { data: joined, page }),
                Seq::empty(),
                segments.drop_first(),
                payload.skip(len),
                page,
            )
        } else {
            deliver(packets, joined, segments.drop_first(), payload.skip(len), page)
        }
    }
}

/// A stream before its first page.
pub open spec fn new_stream(page: OggPage) -> OggStream {
    OggStream {
        serial: page.serial,
        packets: Seq::empty(),
        pending: Seq::empty(),
        expected_seq: page.seq,
        eos: false,
        bos_seen: false,
    }
}

/// The stream after the page with index `index`.
pub open spec fn absorb(stream: OggStream, page: OggPage, index: int) -> Result<
    OggStream,
    OggFault,
> {
    if stream.eos || (page.bos() && stream.bos_seen) {
        Err(OggFault::Chained)
    } else if page.seq != stream.expected_seq {
        Err(OggFault::BrokenSequence { serial: page.serial })
    } else {
        let (packets, pending) = deliver(
            stream.packets,
            stream.pending,
            page.segments,
            page.payload,
            index,
        );
        Ok(
            OggStream {
                serial: stream.serial,
                packets,
                pending,
                expected_seq: next_seq(stream.expected_seq),
                eos: page.eos(),
                bos_seen: stream.bos_seen || page.bos(),
            },
        )
    }
}

/// The page sequence number after `seq`; it wraps around.
pub open spec fn next_seq(seq: u32) -> u32 {
    if seq == u32::MAX {
        0
    } else {
        (seq + 1) as u32
    }
}

/// The position of the stream with this serial number, or the number of
/// streams where there is none.
pub open spec fn stream_position(streams: Seq<OggStream>, serial: u32) -> int
    decreases streams.len(),
{
    if streams.len() == 0 {
        0
    } else if streams[0].serial == serial {
        0
    } else {
        1 + stream_position(streams.drop_first(), serial)
    }
}

/// The streams, in order of appearance, after the pages from `index` on.
pub open spec fn absorb_all(
    streams: Seq<OggStream>,
    pages: Seq<OggPage>,
    index: int,
) -> Result<Seq<OggStream>, OggFault>
    decreases pages.len() - index,
{
    if index >= pages.len() {
        Ok(streams)
    } else {
        let page = pages[index];
        let at = stream_position(streams, page.serial);
        let opened = if at < streams.len() {
            streams
        } else {
            streams.push(new_stream(page))
        };
        match absorb(opened[at], page, index) {
            Ok(stream) => absorb_all(opened.update(at, stream), pages, index + 1),
            Err(fault) => Err(fault),
        }
    }
}

/// The first stream, from `i` on, that is unfinished or has no beginning.
pub open spec fn unfinished(streams: Seq<OggStream>, i: int, data_len: int) -> Option<OggFault>
    decreases streams.len() - i,
{
    if i >= streams.len() {
        None
    } else if streams[i].pending.len() > 0 {
        Some(OggFault::Truncated { offset: data_len })
    } else if !streams[i].bos_seen {
        Some(OggFault::BrokenSequence { serial: streams[i].serial })
    } else {
        unfinished(streams, i + 1, data_len)
    }
}

/// The codec of a logical stream, told from its first packet.
#[derive(Clone, Copy, PartialEq, Eq, Debug, Structural)]
pub enum BosCodec {
    Opus,
    Vorbis,
    Flac,
    Theora,
    Unknown,
}

/// The codec whose magic a first packet begins with.
pub open spec fn bos_codec(packet: Seq<u8>) -> BosCodec {
    if wire::begins_with(packet, opus_head_magic()) {
        BosCodec::Opus
    } else if wire::begins_with(packet, seq![0x01u8, 0x76, 0x6F, 0x72, 0x62, 0x69, 0x73]) {
        BosCodec::Vorbis
    } else if wire::begins_with(packet, seq![0x66u8, 0x4C, 0x61, 0x43]) || wire::begins_with(
        packet,
        seq![0x7Fu8, 0x46, 0x4C, 0x41, 0x43],
    ) {
        BosCodec::Flac
    } else if wire::begins_with(packet, seq![0x01u8, 0x74, 0x68, 0x65, 0x6F, 0x72, 0x61])
        || wire::begins_with(packet, seq![0x80u8, 0x74, 0x68, 0x65, 0x6F, 0x72, 0x61]) {
        BosCodec::Theora
    } else {
        BosCodec::Unknown
    }
}

/// Whether a stream has a first packet of this codec.
pub open spec fn carries(stream: OggStream, codec: BosCodec) -> bool {
    stream.packets.len() > 0 && bos_codec(stream.packets[0].data) == codec
}

/// The Opus stream among those from `i` on, given the one already found.
pub open spec fn opus_among(streams: Seq<OggStream>, i: int, found: Option<int>) -> Result<
    Option<int>,
    OggFault,
>
    decreases streams.len() - i,
{
    if i >= streams.len() {
        Ok(found)
    } else if !carries(streams[i], BosCodec::Opus) {
        opus_among(streams, i + 1, found)
    } else if found is Some {
        Err(OggFault::Multiplexed)
    } else {
        opus_among(streams, i + 1, Some(i))
    }
}

/// The fields of an identification header.
pub struct OpusHeadFields {
    pub channels: u8,
    pub pre_skip: u16,
    pub input_sample_rate: u32,
}

/// The identification header in `packet`, or what is wrong with it.
pub open spec fn opus_head_in(packet: Seq<u8>) -> Result<OpusHeadFields, OggFault> {
    if packet.len() < 19 {
        Err(OggFault::InvalidOpusHead("packet shorter than 19 bytes"@))
    } else if packet[8] != 1 {
        Err(
            OggFault::InvalidOpusHead(
                "unsupported OpusHead version "@ + text::decimal(packet[8] as int) + " (expected 1)"@,
            ),
        )
    } else if packet[9] == 0 {
        Err(OggFault::InvalidOpusHead("channel count is zero"@))
    } else if packet[18] != 0 {
        Err(OggFault::UnsupportedMapping { family: packet[18] })
    } else if packet.len() != 19 {
        Err(OggFault::InvalidOpusHead("unexpected trailing bytes for mapping family 0"@))
    } else {
        Ok(
            OpusHeadFields {
                channels: packet[9],
                pre_skip: wire::le16_at(packet, 10) as u16,
                input_sample_rate: wire::le32_at(packet, 12) as u32,
            },
        )
    }
}

/// The duration of a packet, 0 where its header cannot be decoded.
pub open spec fn samples_of(packet: Seq<u8>) -> int {
    match opus::packet_samples(packet) {
        Some(samples) => samples as int,
        None => 0,
    }
}

/// The duration of the first `k` audio packets.
pub open spec fn samples_before(audio: Seq<PlacedPacket>, k: int) -> int
    decreases k,
{
    if k <= 0 {
        0
    } else {
        samples_before(audio, k - 1) + samples_of(audio[k - 1].data)
    }
}

/// The end of the run of packets from `i` on that end on page `page`.
pub open spec fn run_end(audio: Seq<PlacedPacket>, i: int, page: int) -> int
    decreases audio.len() - i,
{
    if 0 <= i < audio.len() && audio[i].page == page {
        run_end(audio, i + 1, page)
    } else {
        i
    }
}

/// The first granule position, among the pages on which the packets from `i`
/// on end, that contradicts the packet durations. `anchor` is the number of
/// packets up to the last page with a granule position, and that position.
pub open spec fn granule_fault(
    pages: Seq<OggPage>,
    audio: Seq<PlacedPacket>,
    pre_skip: int,
    i: int,
    anchor: Option<(int, int)>,
) -> Option<OggFault>
    decreases audio.len() - i,
    when 0 <= i
    via granule_fault_advances
{
    if i >= audio.len() {
        None
    } else {
        let end = run_end(audio, i, audio[i].page);
        let page = pages[audio[i].page];
        let total = samples_before(audio, end);
        if page.granule == GRANULE_NONE {
            granule_fault(pages, audio, pre_skip, end, anchor)
        } else if anchor matches Some((last_end, last_granule)) && page.granule - last_granule
            != total - samples_before(audio, last_end) {
            Some(OggFault::GranuleMismatch { page: page.seq })
        } else if page.eos() && pre_skip + total < page.granule {
            Some(OggFault::GranuleMismatch { page: page.seq })
        } else {
            granule_fault(pages, audio, pre_skip, end, Some((end, page.granule as int)))
        }
    }
}

#[via_fn]
proof fn granule_fault_advances(
    pages: Seq<OggPage>,
    audio: Seq<PlacedPacket>,
    pre_skip: int,
    i: int,
    anchor: Option<(int, int)>,
) {
    if 0 <= i < audio.len() {
        lemma_run_end(audio, i + 1, audio[i].page);
    }
}

/// A run never ends before it starts nor after the last packet.
pub proof fn lemma_run_end(audio: Seq<PlacedPacket>, i: int, page: int)
    requires
        0 <= i <= audio.len(),
    ensures
        i <= run_end(audio, i, page) <= audio.len(),
        forall|k: int| i <= k < run_end(audio, i, page) ==> (#[trigger] audio[k]).page == page,
        run_end(audio, i, page) < audio.len() ==> audio[run_end(audio, i, page)].page != page,
    decreases audio.len() - i,
{
    if i < audio.len() && audio[i].page == page {
        lemma_run_end(audio, i + 1, page);
    }
}

/// The contents of a demuxed packet.
pub struct PacketModel {
    pub pts: int,
    pub data: Seq<u8>,
}

/// The contents of a demuxed stream.
#[verifier::ext_equal]
pub struct TrackModel {
    pub channels: u8,
    pub pre_skip: u16,
    pub input_sample_rate: u32,
    pub packets: Seq<PacketModel>,
    pub duration: int,
}

impl View for OggOpusPacket {
    type V = PacketModel;

    open spec fn view(&self) -> PacketModel {
        PacketModel { pts: self.pts as int, data: self.data@ }
    }
}

impl View for OggOpusTrack {
    type V = TrackModel;

    open spec fn view(&self) -> TrackModel {
        TrackModel {
            channels: self.channels,
            pre_skip: self.pre_skip,
            input_sample_rate: self.input_sample_rate,
            packets: self.packets@.map_values(|p: OggOpusPacket| p@),
            duration: self.duration as int,
        }
    }
}

/// The position of the first audio packet of an Opus stream: after the
/// identification header and, where the second packet is one, the tags.
pub open spec fn audio_start(raw: Seq<PlacedPacket>) -> int {
    if raw.len() > 1 && wire::begins_with(raw[1].data, opus_tags_magic()) {
        2
    } else {
        1
    }
}

/// The track that the packets of an Opus stream make up.
pub open spec fn track_of(pages: Seq<OggPage>, raw: Seq<PlacedPacket>) -> Result<
    TrackModel,
    OggFault,
> {
    match opus_head_in(raw[0].data) {
        Err(fault) => Err(fault),
        Ok(head) => {
            let audio = raw.skip(audio_start(raw));
            if raw.len() <= audio_start(raw) {
                Err(OggFault::NoAudioPackets)
            } else if exists|k: int|
                0 <= k < audio.len() && opus::packet_samples((#[trigger] audio[k]).data) is None {
                Err(OggFault::InvalidPacket { page: 0 })
            } else {
                match granule_fault(pages, audio, head.pre_skip as int, 0, None) {
                    Some(fault) => Err(fault),
                    None => Ok(
                        TrackModel {
                            channels: head.channels,
                            pre_skip: head.pre_skip,
                            input_sample_rate: head.input_sample_rate,
                            packets: Seq::new(
                                audio.len(),
                                |k: int|
                                    PacketModel {
                                        pts: samples_before(audio, k),
                                        data: audio[k].data,
                                    },
                            ),
                            duration: samples_before(audio, audio.len() as int),
                        },
                    ),
                }
            }
        },
    }
}

/// The track that a sequence of pages makes up.
pub open spec fn track_in_pages(pages: Seq<OggPage>, data_len: int) -> Result<
    TrackModel,
    OggFault,
> {
    match absorb_all(Seq::empty(), pages, 0) {
        Err(fault) => Err(fault),
        Ok(streams) => match unfinished(streams, 0, data_len) {
            Some(fault) => Err(fault),
            None => match opus_among(streams, 0, None) {
                Err(fault) => Err(fault),
                Ok(Some(i)) => track_of(pages, streams[i].packets),
                Ok(None) => if exists|i: int|
                    0 <= i < streams.len() && carries(#[trigger] streams[i], BosCodec::Vorbis) {
                    Err(OggFault::UnsupportedCodec { name: "vorbis"@ })
                } else {
                    Err(OggFault::NoOpusStream)
                },
            },
        },
    }
}

/// What demuxing `data` gives. Of several streams that are unfinished or have
/// no beginning, the one that appears first is reported.
pub open spec fn demuxed(data: Seq<u8>) -> Result<TrackModel, OggFault> {
    if data.len() == 0 {
        Err(OggFault::Empty)
    } else {
        match pages_from(data, 0, Seq::empty()) {
            Err(fault) => Err(fault),
            Ok(pages) => track_in_pages(pages, data.len() as int),
        }
    }
}

/// A page of the input.
struct Page<'a> {
    header_type: u8,
    granule: u64,
    serial: u32,
    seq: u32,
    payload: &'a [u8],
    segments: &'a [u8],
}

impl<'a> View for Page<'a> {
    type V = OggPage;

    closed spec fn view(&self) -> OggPage {
        OggPage {
            header_type: self.header_type,
            granule: self.granule,
            serial: self.serial,
            seq: self.seq,
            segments: self.segments@,
            payload: self.payload@,
        }
    }
}

/// The Ogg checksum of `data`.
pub fn ogg_crc(data: &[u8]) -> (crc: u32)
    ensures
        crc == crc::crc32_of(data@),
{
    let table = crc32_table();
    crc32_with_table(&table, data)
}

/// The first four bytes of `data` as a little-endian integer.
fn le_u32(data: &[u8]) -> (value: u32)
    requires
        data@.len() >= 4,
    ensures
        value == wire::le32_at(data@, 0),
{
    get_le32(data, 0)
}

/// The first eight bytes of `data` as a little-endian integer.
fn le_u64(data: &[u8]) -> (value: u64)
    requires
        data@.len() >= 8,
    ensures
        value == wire::le64_at(data@, 0),
{
    get_le64(data, 0)
}

/// The number of payload bytes that a segment table announces.
fn payload_len(segments: &[u8]) -> (len: usize)
    requires
        segments@.len() <= 255,
    ensures
        len == lacing_sum(segments@),
        len <= 255 * segments@.len(),
{
    let mut len: usize = 0;
    let mut i: usize = 0;
    assert(segments@.skip(0) =~= segments@);
    while i < segments.len()
        invariant
            i <= segments@.len() <= 255,
            len <= 255 * i,
            len + lacing_sum(segments@.skip(i as int)) == lacing_sum(segments@),
        decreases segments@.len() - i,
    {
        assert(segments@.skip(i as int).drop_first() =~= segments@.skip(i + 1));
        len = len + segments[i] as usize;
        i += 1;
    }
    len
}

/// The page of `data` that starts at `offset`.
fn parse_page<'a>(table: &Vec<u32>, data: &'a [u8], offset: usize) -> (result: Result<
    Page<'a>,
    OggError,
>)
    requires
        offset <= data@.len(),
        table@.len() == 256,
        forall|i: int|
            0 <= i < 256 ==> #[trigger] table@[i] == crc::crc32_shift8((i as u32) << 24u32),
    ensures
        match result {
            Ok(page) => page_at(data@, offset as int) == Ok::<OggPage, OggFault>(page@)
                && page@.total_len() <= data@.len() - offset && page@.payload.len() == lacing_sum(
                page@.segments,
            ),
            Err(error) => page_at(data@, offset as int) == Err::<OggPage, OggFault>(error@),
        },
{
    let left: usize = data.len() - offset;
    if left < 27 {
        return Err(OggError::Truncated { offset });
    }
    let hdr = vstd::slice::slice_subrange(data, offset, offset + 27);
    let capture: [u8; 4] = [0x4F, 0x67, 0x67, 0x53];
    let found = vstd::slice::slice_subrange(hdr, 0, 4);
    assert(found@ =~= data@.subrange(offset as int, offset + 4));
    assert(capture@ =~= capture_pattern());
    if !starts_with(hdr, &capture) {
        assert(hdr@.subrange(0, 4) =~= found@);
        return Err(OggError::BadCapture { offset });
    }
    assert(hdr@.subrange(0, 4) =~= found@);
    if hdr[4] != 0 {
        return Err(OggError::BadVersion { version: hdr[4] });
    }
    let header_type: u8 = hdr[5];
    let granule: u64 = le_u64(vstd::slice::slice_subrange(hdr, 6, 14));
    let serial: u32 = le_u32(vstd::slice::slice_subrange(hdr, 14, 18));
    let seq: u32 = le_u32(vstd::slice::slice_subrange(hdr, 18, 22));
    let stored: u32 = le_u32(vstd::slice::slice_subrange(hdr, 22, 26));
    let count: usize = hdr[26] as usize;
    if left < 27 + count {
        return Err(OggError::Truncated { offset });
    }
    let segments = vstd::slice::slice_subrange(data, offset + 27, offset + 27 + count);
    let payload_bytes: usize = payload_len(segments);
    let total_len: usize = 27 + count + payload_bytes;
    if left < total_len {
        return Err(OggError::Truncated { offset });
    }
    let whole = vstd::slice::slice_subrange(data, offset, offset + total_len);
    let mut check: Vec<u8> = Vec::with_capacity(total_len);
    put_slice(&mut check, vstd::slice::slice_subrange(whole, 0, 22));
    check.push(0);
    check.push(0);
    check.push(0);
    check.push(0);
    put_slice(&mut check, vstd::slice::slice_subrange(whole, 26, total_len));
    assert(check@ =~= cleared(whole@));
    if crc32_with_table(table, check.as_slice()) != stored {
        return Err(OggError::BadChecksum { page: seq });
    }
    Ok(
        Page {
            header_type,
            granule,
            serial,
            seq,
            payload: vstd::slice::slice_subrange(data, offset + 27 + count, offset + total_len),
            segments,
        },
    )
}

/// The codec of a logical stream, told from its first packet.
fn identify_bos(packet: &[u8]) -> (codec: BosCodec)
    ensures
        codec == bos_codec(packet@),
{
    let opus: [u8; 8] = [0x4F, 0x70, 0x75, 0x73, 0x48, 0x65, 0x61, 0x64];
    let vorbis: [u8; 7] = [0x01, 0x76, 0x6F, 0x72, 0x62, 0x69, 0x73];
    let flac: [u8; 4] = [0x66, 0x4C, 0x61, 0x43];
    let mapped_flac: [u8; 5] = [0x7F, 0x46, 0x4C, 0x41, 0x43];
    let theora: [u8; 7] = [0x01, 0x74, 0x68, 0x65, 0x6F, 0x72, 0x61];
    let theora_header: [u8; 7] = [0x80, 0x74, 0x68, 0x65, 0x6F, 0x72, 0x61];
    assert(opus@ =~= opus_head_magic());
    assert(vorbis@ =~= seq![0x01u8, 0x76, 0x6F, 0x72, 0x62, 0x69, 0x73]);
    assert(flac@ =~= seq![0x66u8, 0x4C, 0x61, 0x43]);
    assert(mapped_flac@ =~= seq![0x7Fu8, 0x46, 0x4C, 0x41, 0x43]);
    assert(theora@ =~= seq![0x01u8, 0x74, 0x68, 0x65, 0x6F, 0x72, 0x61]);
    assert(theora_header@ =~= seq![0x80u8, 0x74, 0x68, 0x65, 0x6F, 0x72, 0x61]);
    if starts_with(packet, &opus) {
        BosCodec::Opus
    } else if starts_with(packet, &vorbis) {
        BosCodec::Vorbis
    } else if starts_with(packet, &flac) || starts_with(packet, &mapped_flac) {
        BosCodec::Flac
    } else if starts_with(packet, &theora) || starts_with(packet, &theora_header) {
        BosCodec::Theora
    } else {
        BosCodec::Unknown
    }
}

/// The fields of an identification header.
struct OpusHead {
    channels: u8,
    pre_skip: u16,
    input_sample_rate: u32,
}

/// The identification header in `packet`.
fn parse_opus_head(packet: &[u8]) -> (result: Result<OpusHead, OggError>)
    ensures
        match result {
            Ok(head) => opus_head_in(packet@) == Ok::<OpusHeadFields, OggFault>(
                OpusHeadFields {
                    channels: head.channels,
                    pre_skip: head.pre_skip,
                    input_sample_rate: head.input_sample_rate,
                },
            ),
            Err(error) => opus_head_in(packet@) == Err::<OpusHeadFields, OggFault>(error@),
        },
{
    if packet.len() < 19 {
        return Err(OggError::InvalidOpusHead(String::from_str("packet shorter than 19 bytes")));
    }
    if packet[8] != 1 {
        let mut reason = String::from_str("unsupported OpusHead version ");
        push_decimal(&mut reason, packet[8] as u64);
        reason.append(" (expected 1)");
        return Err(OggError::InvalidOpusHead(reason));
    }
    let channels: u8 = packet[9];
    if channels == 0 {
        return Err(OggError::InvalidOpusHead(String::from_str("channel count is zero")));
    }
    let family: u8 = packet[18];
    if family != 0 {
        return Err(OggError::UnsupportedMapping { family });
    }
    if packet.len() != 19 {
        return Err(
            OggError::InvalidOpusHead(
                String::from_str("unexpected trailing bytes for mapping family 0"),
            ),
        );
    }
    Ok(
        OpusHead {
            channels,
            pre_skip: get_le16(packet, 10),
            input_sample_rate: get_le32(packet, 12),
        },
    )
}

/// A reassembled packet and the index of the page on which it ends.
struct RawPacket {
    data: Vec<u8>,
    page: usize,
}

spec fn placed(packets: Seq<RawPacket>) -> Seq<PlacedPacket> {
    packets.map_values(|p: RawPacket| PlacedPacket { data: p.data@, page: p.page as int })
}

/// The reassembly state of a logical stream.
struct StreamState {
    serial: u32,
    packets: Vec<RawPacket>,
    pending: Vec<u8>,
    expected_seq: u32,
    eos: bool,
    bos_seen: bool,
}

impl View for StreamState {
    type V = OggStream;

    closed spec fn view(&self) -> OggStream {
        OggStream {
            serial: self.serial,
            packets: placed(self.packets@),
            pending: self.pending@,
            expected_seq: self.expected_seq,
            eos: self.eos,
            bos_seen: self.bos_seen,
        }
    }
}

spec fn all_streams(streams: Seq<StreamState>) -> Seq<OggStream> {
    streams.map_values(|s: StreamState| s@)
}

spec fn all_pages(pages: Seq<Page>) -> Seq<OggPage> {
    pages.map_values(|p: Page| p@)
}

/// The number of segments on the first `n` pages.
spec fn segment_count(pages: Seq<OggPage>, n: int) -> int
    decreases n,
{
    if n <= 0 {
        0
    } else {
        segment_count(pages, n - 1) + pages[n - 1].segments.len()
    }
}

proof fn lemma_segment_count_prefix(a: Seq<OggPage>, b: Seq<OggPage>, n: int)
    requires
        n <= a.len(),
        n <= b.len(),
        forall|i: int| 0 <= i < n ==> a[i] == b[i],
    ensures
        segment_count(a, n) == segment_count(b, n),
    decreases n,
{
    if n > 0 {
        lemma_segment_count_prefix(a, b, n - 1);
    }
}

proof fn lemma_segment_count_monotone(pages: Seq<OggPage>, m: int, n: int)
    requires
        m <= n,
    ensures
        segment_count(pages, m) <= segment_count(pages, n),
    decreases n - m,
{
    if m < n {
        lemma_segment_count_monotone(pages, m, n - 1);
    }
}

/// Every segment ends at most one packet.
proof fn lemma_deliver_bounded(
    packets: Seq<PlacedPacket>,
    pending: Seq<u8>,
    segments: Seq<u8>,
    payload: Seq<u8>,
    page: int,
)
    ensures
        deliver(packets, pending, segments, payload, page).0.len() <= packets.len()
            + segments.len(),
    decreases segments.len(),
{
    if segments.len() > 0 {
        let len = segments[0] as int;
        let joined = pending + payload.take(len);
        lemma_deliver_bounded(
            packets.push(PlacedPacket { data: joined, page }),
            Seq::empty(),
            segments.drop_first(),
            payload.skip(len),
            page,
        );
        lemma_deliver_bounded(packets, joined, segments.drop_first(), payload.skip(len), page);
    }
}

/// Every packet that a page ends carries the index of that page.
proof fn lemma_deliver_pages(
    packets: Seq<PlacedPacket>,
    pending: Seq<u8>,
    segments: Seq<u8>,
    payload: Seq<u8>,
    page: int,
)
    requires
        forall|i: int| 0 <= i < packets.len() ==> 0 <= (#[trigger] packets[i]).page <= page,
        0 <= page,
    ensures
        forall|i: int|
            0 <= i < deliver(packets, pending, segments, payload, page).0.len() ==> 0 <= (
            #[trigger] deliver(packets, pending, segments, payload, page).0[i]).page <= page,
    decreases segments.len(),
{
    if segments.len() > 0 {
        let len = segments[0] as int;
        let joined = pending + payload.take(len);
        if len < 255 {
            lemma_deliver_pages(
                packets.push(PlacedPacket { data: joined, page }),
                Seq::empty(),
                segments.drop_first(),
                payload.skip(len),
                page,
            );
            assert(deliver(packets, pending, segments, payload, page) == deliver(
                packets.push(PlacedPacket { data: joined, page }),
                Seq::empty(),
                segments.drop_first(),
                payload.skip(len),
                page,
            ));
        } else {
            lemma_deliver_pages(
                packets,
                joined,
                segments.drop_first(),
                payload.skip(len),
                page,
            );
            assert(deliver(packets, pending, segments, payload, page) == deliver(
                packets,
                joined,
                segments.drop_first(),
                payload.skip(len),
                page,
            ));
        }
    }
}

/// Appends the page with index `index` to its stream.
fn absorb_page(state: &mut StreamState, page: &Page, index: usize) -> (result: Result<
    (),
    OggError,
>)
    requires
        page@.payload.len() == lacing_sum(page@.segments),
    ensures
        match result {
            Ok(_) => absorb(old(state)@, page@, index as int) == Ok::<OggStream, OggFault>(
                final(state)@,
            ),
            Err(error) => absorb(old(state)@, page@, index as int) == Err::<OggStream, OggFault>(
                error@,
            ),
        },
{
    let bos = page.header_type / 2 % 2 == 1;
    if state.eos || (bos && state.bos_seen) {
        return Err(OggError::Chained);
    }
    if page.seq != state.expected_seq {
        return Err(OggError::BrokenSequence { serial: page.serial });
    }
    let ghost start = *state;
    state.expected_seq = if state.expected_seq == u32::MAX {
        0
    } else {
        state.expected_seq + 1
    };
    let mut pos: usize = 0;
    let mut i: usize = 0;
    let ghost segments = page.segments@;
    let ghost payload = page.payload@;
    assert(segments.skip(0) =~= segments);
    assert(payload.skip(0) =~= payload);
    while i < page.segments.len()
        invariant
            segments == page.segments@,
            payload == page.payload@,
            i <= segments.len(),
            pos <= payload.len(),
            lacing_sum(segments.skip(i as int)) == payload.len() - pos,
            deliver(
                placed(start.packets@),
                start.pending@,
                segments,
                payload,
                index as int,
            ) == deliver(
                placed(state.packets@),
                state.pending@,
                segments.skip(i as int),
                payload.skip(pos as int),
                index as int,
            ),
            state.serial == start.serial,
            state.expected_seq == next_seq(start.expected_seq),
            state.eos == start.eos,
            state.bos_seen == start.bos_seen,
        decreases segments.len() - i,
    {
        let seg: u8 = page.segments[i];
        let len: usize = seg as usize;
        proof {
            assert(segments.skip(i as int).drop_first() =~= segments.skip(i + 1));
            lemma_lacing_sum_nonnegative(segments.skip(i + 1));
            assert(page.payload.len() == payload.len());
            assert(payload.skip(pos as int).skip(len as int) =~= payload.skip(pos + len));
            assert(payload.skip(pos as int).take(len as int) =~= payload.subrange(
                pos as int,
                pos + len,
            ));
        }
        let ghost before = *state;
        put_slice(
            &mut state.pending,
            vstd::slice::slice_subrange(page.payload, pos, pos + len),
        );
        pos = pos + len;
        if seg < 255 {
            let mut data: Vec<u8> = Vec::new();
            std::mem::swap(&mut data, &mut state.pending);
            let ghost joined = data@;
            state.packets.push(RawPacket { data, page: index });
            assert(placed(state.packets@) =~= placed(before.packets@).push(
                PlacedPacket { data: joined, page: index as int },
            ));
            assert(state.pending@ =~= Seq::<u8>::empty());
        }
        i += 1;
    }
    assert(segments.skip(i as int) =~= Seq::<u8>::empty());
    if bos {
        state.bos_seen = true;
    }
    if page.header_type / 4 % 2 == 1 {
        state.eos = true;
    }
    Ok(())
}

/// A segment table announces no negative length.
pub proof fn lemma_lacing_sum_nonnegative(segments: Seq<u8>)
    ensures
        lacing_sum(segments) >= 0,
    decreases segments.len(),
{
    if segments.len() > 0 {
        lemma_lacing_sum_nonnegative(segments.drop_first());
    }
}

/// The position of the stream with this serial number.
fn find_stream(streams: &Vec<StreamState>, serial: u32) -> (at: usize)
    ensures
        at == stream_position(all_streams(streams@), serial),
        at <= streams@.len(),
{
    let mut i: usize = 0;
    assert(all_streams(streams@).skip(0) =~= all_streams(streams@));
    while i < streams.len()
        invariant
            i <= streams@.len(),
            stream_position(all_streams(streams@), serial) == i + stream_position(
                all_streams(streams@).skip(i as int),
                serial,
            ),
        decreases streams@.len() - i,
    {
        if streams[i].serial == serial {
            return i;
        }
        assert(all_streams(streams@).skip(i as int).drop_first() =~= all_streams(streams@).skip(
            i + 1,
        ));
        i += 1;
    }
    i
}

/// The pages of the input.
fn parse_pages<'a>(data: &'a [u8]) -> (result: Result<Vec<Page<'a>>, OggError>)
    ensures
        match result {
            Ok(pages) => pages_from(data@, 0, Seq::empty()) == Ok::<Seq<OggPage>, OggFault>(
                all_pages(pages@),
            ) && (forall|i: int|
                0 <= i < pages@.len() ==> (#[trigger] pages@[i])@.payload.len() == lacing_sum(
                    pages@[i]@.segments,
                )) && segment_count(all_pages(pages@), pages@.len() as int) <= data@.len(),
            Err(error) => pages_from(data@, 0, Seq::empty()) == Err::<Seq<OggPage>, OggFault>(
                error@,
            ),
        },
{
    let table = crc32_table();
    let mut pages: Vec<Page<'a>> = Vec::new();
    let mut offset: usize = 0;
    assert(all_pages(pages@) =~= Seq::<OggPage>::empty());
    while offset < data.len()
        invariant
            offset <= data@.len(),
            table@.len() == 256,
            forall|i: int|
                0 <= i < 256 ==> #[trigger] table@[i] == crc::crc32_shift8((i as u32) << 24u32),
            pages_from(data@, 0, Seq::empty()) == pages_from(
                data@,
                offset as int,
                all_pages(pages@),
            ),
            forall|i: int|
                0 <= i < pages@.len() ==> (#[trigger] pages@[i])@.payload.len() == lacing_sum(
                    pages@[i]@.segments,
                ),
            segment_count(all_pages(pages@), pages@.len() as int) <= offset,
        decreases data@.len() - offset,
    {
        match parse_page(&table, data, offset) {
            Ok(page) => {
                let ghost before = pages@;
                offset = offset + (27 + page.segments.len() + page.payload.len());
                pages.push(page);
                assert(all_pages(pages@) =~= all_pages(before).push(page@));
                proof {
                    lemma_segment_count_prefix(
                        all_pages(before),
                        all_pages(pages@),
                        before.len() as int,
                    );
                }
            },
            Err(error) => return Err(error),
        }
    }
    Ok(pages)
}

/// The logical streams that the pages make up, in order of appearance.
fn collect_streams<'a>(pages: &Vec<Page<'a>>) -> (result: Result<Vec<StreamState>, OggError>)
    requires
        forall|i: int|
            0 <= i < pages@.len() ==> (#[trigger] pages@[i])@.payload.len() == lacing_sum(
                pages@[i]@.segments,
            ),
    ensures
        match result {
            Ok(streams) => absorb_all(Seq::empty(), all_pages(pages@), 0) == Ok::<
                Seq<OggStream>,
                OggFault,
            >(all_streams(streams@)) && forall|i: int|
                0 <= i < streams@.len() ==> stream_bounded(
                    (#[trigger] streams@[i])@,
                    all_pages(pages@),
                    pages@.len() as int,
                ),
            Err(error) => absorb_all(Seq::empty(), all_pages(pages@), 0) == Err::<
                Seq<OggStream>,
                OggFault,
            >(error@),
        },
{
    let mut streams: Vec<StreamState> = Vec::new();
    let mut index: usize = 0;
    let ghost model = all_pages(pages@);
    assert(all_streams(streams@) =~= Seq::<OggStream>::empty());
    while index < pages.len()
        invariant
            model == all_pages(pages@),
            index <= pages@.len(),
            forall|i: int|
                0 <= i < pages@.len() ==> (#[trigger] pages@[i])@.payload.len() == lacing_sum(
                    pages@[i]@.segments,
                ),
            absorb_all(Seq::empty(), model, 0) == absorb_all(
                all_streams(streams@),
                model,
                index as int,
            ),
            forall|i: int|
                0 <= i < streams@.len() ==> stream_bounded(
                    (#[trigger] streams@[i])@,
                    model,
                    index as int,
                ),
        decreases pages@.len() - index,
    {
        let page = &pages[index];
        let ghost start = all_streams(streams@);
        assert(model[index as int] == page@);
        let at: usize = find_stream(&streams, page.serial);
        if at == streams.len() {
            let ghost before = streams@;
            streams.push(
                StreamState {
                    serial: page.serial,
                    packets: Vec::new(),
                    pending: Vec::new(),
                    expected_seq: page.seq,
                    eos: false,
                    bos_seen: false,
                },
            );
            proof {
                let fresh = streams@.last()@;
                assert(fresh.packets =~= Seq::<PlacedPacket>::empty());
                assert(fresh =~= new_stream(page@));
                assert(all_streams(streams@) =~= start.push(new_stream(page@)));
                lemma_segment_count_monotone(model, 0, index as int);
            }
        }
        let ghost opened = streams@;
        assert(forall|i: int|
            0 <= i < opened.len() ==> stream_bounded(
                (#[trigger] opened[i])@,
                model,
                index as int,
            ));
        match absorb_page(&mut streams[at], page, index) {
            Ok(_) => {
                proof {
                    let stream = opened[at as int]@;
                    lemma_deliver_bounded(
                        stream.packets,
                        stream.pending,
                        page@.segments,
                        page@.payload,
                        index as int,
                    );
                    lemma_deliver_pages(
                        stream.packets,
                        stream.pending,
                        page@.segments,
                        page@.payload,
                        index as int,
                    );
                    assert(all_streams(streams@) =~= all_streams(opened).update(
                        at as int,
                        streams@[at as int]@,
                    ));
                    assert forall|i: int| 0 <= i < streams@.len() implies stream_bounded(
                        (#[trigger] streams@[i])@,
                        model,
                        index + 1,
                    ) by {
                        if i != at {
                            assert(streams@[i] == opened[i]);
                        }
                    }
                }
            },
            Err(error) => return Err(error),
        }
        index += 1;
    }
    Ok(streams)
}

/// A stream has no more packets than the first `n` pages have segments, and
/// each of its packets ends on one of those pages.
spec fn stream_bounded(stream: OggStream, pages: Seq<OggPage>, n: int) -> bool {
    &&& stream.packets.len() <= segment_count(pages, n)
    &&& forall|i: int|
        0 <= i < stream.packets.len() ==> 0 <= (#[trigger] stream.packets[i]).page < n
}

/// Checks that every stream has a beginning and no unfinished packet.
fn check_finished(streams: &Vec<StreamState>, data_len: usize) -> (result: Result<(), OggError>)
    ensures
        match result {
            Ok(_) => unfinished(all_streams(streams@), 0, data_len as int) is None,
            Err(error) => unfinished(all_streams(streams@), 0, data_len as int) == Some(error@),
        },
{
    let mut i: usize = 0;
    while i < streams.len()
        invariant
            i <= streams@.len(),
            unfinished(all_streams(streams@), 0, data_len as int) == unfinished(
                all_streams(streams@),
                i as int,
                data_len as int,
            ),
        decreases streams@.len() - i,
    {
        assert(all_streams(streams@)[i as int] == streams@[i as int]@);
        if streams[i].pending.len() > 0 {
            return Err(OggError::Truncated { offset: data_len });
        }
        if !streams[i].bos_seen {
            return Err(OggError::BrokenSequence { serial: streams[i].serial });
        }
        i += 1;
    }
    Ok(())
}

/// The position of the one Opus stream.
fn pick_opus(streams: &Vec<StreamState>) -> (result: Result<usize, OggError>)
    ensures
        match result {
            Ok(i) => i < streams@.len() && opus_among(all_streams(streams@), 0, None) == Ok::<
                Option<int>,
                OggFault,
            >(Some(i as int)) && streams@[i as int]@.packets.len() > 0,
            Err(error) => match opus_among(all_streams(streams@), 0, None) {
                Err(fault) => error@ == fault,
                Ok(Some(_)) => false,
                Ok(None) => error@ == if exists|i: int|
                    0 <= i < streams@.len() && carries(
                        #[trigger] all_streams(streams@)[i],
                        BosCodec::Vorbis,
                    ) {
                    OggFault::UnsupportedCodec { name: "vorbis"@ }
                } else {
                    OggFault::NoOpusStream
                },
            },
        },
{
    let ghost model = all_streams(streams@);
    let mut found: Option<usize> = None;
    let mut seen_vorbis: bool = false;
    let mut i: usize = 0;
    while i < streams.len()
        invariant
            model == all_streams(streams@),
            i <= streams@.len(),
            found matches Some(at) ==> at < i && streams@[at as int]@.packets.len() > 0,
            opus_among(model, 0, None) == opus_among(
                model,
                i as int,
                match found {
                    Some(at) => Some(at as int),
                    None => None,
                },
            ),
            seen_vorbis <==> exists|k: int|
                0 <= k < i && carries(#[trigger] model[k], BosCodec::Vorbis),
        decreases streams@.len() - i,
    {
        assert(model[i as int] == streams@[i as int]@);
        if streams[i].packets.len() > 0 {
            assert(model[i as int].packets[0].data == streams@[i as int].packets@[0].data@);
            match identify_bos(streams[i].packets[0].data.as_slice()) {
                BosCodec::Opus => {
                    if found.is_some() {
                        return Err(OggError::Multiplexed);
                    }
                    found = Some(i);
                },
                BosCodec::Vorbis => {
                    seen_vorbis = true;
                },
                _ => {},
            }
        }
        i += 1;
    }
    match found {
        Some(at) => Ok(at),
        None => {
            if seen_vorbis {
                Err(OggError::UnsupportedCodec { name: String::from_str("vorbis") })
            } else {
                Err(OggError::NoOpusStream)
            }
        },
    }
}

/// The durations of the audio packets, summed up: entry `k` is the duration
/// of the first `k` packets.
fn run_sums(raw: &Vec<RawPacket>, start: usize) -> (result: Result<Vec<u64>, OggError>)
    requires
        start <= raw@.len() <= MAX_OGG_LEN,
    ensures
        match result {
            Ok(sums) => {
                let audio = placed(raw@).skip(start as int);
                &&& sums@.len() == audio.len() + 1
                &&& forall|k: int|
                    0 <= k <= audio.len() ==> #[trigger] sums@[k] == samples_before(audio, k)
                &&& forall|k: int|
                    0 <= k < audio.len() ==> opus::packet_samples((#[trigger] audio[k]).data) is Some
                &&& forall|k: int|
                    0 <= k <= audio.len() ==> #[trigger] sums@[k] <= 181440 * MAX_OGG_LEN
            },
            Err(error) => {
                let audio = placed(raw@).skip(start as int);
                &&& error@ == OggFault::InvalidPacket { page: 0 }
                &&& exists|k: int|
                    0 <= k < audio.len() && opus::packet_samples((#[trigger] audio[k]).data) is None
            },
        },
{
    let ghost audio = placed(raw@).skip(start as int);
    let mut sums: Vec<u64> = Vec::new();
    let mut total: u64 = 0;
    sums.push(0);
    let mut i: usize = start;
    while i < raw.len()
        invariant
            audio == placed(raw@).skip(start as int),
            start <= i <= raw@.len() <= MAX_OGG_LEN,
            sums@.len() == i - start + 1,
            total == samples_before(audio, i - start),
            total <= 181440 * (i - start),
            forall|k: int| 0 <= k <= i - start ==> #[trigger] sums@[k] == samples_before(audio, k),
            forall|k: int| 0 <= k <= i - start ==> #[trigger] sums@[k] <= 181440 * MAX_OGG_LEN,
            forall|k: int|
                0 <= k < i - start ==> opus::packet_samples((#[trigger] audio[k]).data) is Some,
        decreases raw@.len() - i,
    {
        assert(audio[i - start].data == raw@[i as int].data@);
        match opus_packet_samples(raw[i].data.as_slice()) {
            Some(samples) => {
                proof {
                    opus::packet_samples_bounds(raw@[i as int].data@);
                }
                total = total + samples as u64;
                sums.push(total);
            },
            None => {
                return Err(OggError::InvalidPacket { page: 0 });
            },
        }
        i += 1;
    }
    Ok(sums)
}

/// Holds the granule positions of the pages against the packet durations.
fn verify_granules<'a>(
    pages: &Vec<Page<'a>>,
    raw: &Vec<RawPacket>,
    start: usize,
    sums: &Vec<u64>,
    pre_skip: u16,
) -> (result: Result<(), OggError>)
    requires
        start <= raw@.len(),
        sums@.len() == raw@.len() - start + 1,
        forall|k: int|
            0 <= k < sums@.len() ==> #[trigger] sums@[k] == samples_before(
                placed(raw@).skip(start as int),
                k,
            ),
        forall|k: int| 0 <= k < sums@.len() ==> #[trigger] sums@[k] <= 181440 * MAX_OGG_LEN,
        forall|k: int| 0 <= k < raw@.len() ==> (#[trigger] raw@[k]).page < pages@.len(),
    ensures
        match result {
            Ok(_) => granule_fault(
                all_pages(pages@),
                placed(raw@).skip(start as int),
                pre_skip as int,
                0,
                None,
            ) is None,
            Err(error) => granule_fault(
                all_pages(pages@),
                placed(raw@).skip(start as int),
                pre_skip as int,
                0,
                None,
            ) == Some(error@),
        },
{
    let ghost model = all_pages(pages@);
    let ghost audio = placed(raw@).skip(start as int);
    let count: usize = raw.len() - start;
    let mut anchor: Option<(usize, u64)> = None;
    let mut i: usize = 0;
    while i < count
        invariant
            model == all_pages(pages@),
            audio == placed(raw@).skip(start as int),
            start <= raw@.len(),
            count == raw@.len() - start,
            raw@.len() <= usize::MAX,
            sums@.len() == count + 1,
            i <= count,
            forall|k: int|
                0 <= k < sums@.len() ==> #[trigger] sums@[k] == samples_before(audio, k),
            forall|k: int| 0 <= k < sums@.len() ==> #[trigger] sums@[k] <= 181440 * MAX_OGG_LEN,
            forall|k: int| 0 <= k < raw@.len() ==> (#[trigger] raw@[k]).page < pages@.len(),
            anchor matches Some((end, _)) ==> end <= i,
            granule_fault(model, audio, pre_skip as int, 0, None) == granule_fault(
                model,
                audio,
                pre_skip as int,
                i as int,
                match anchor {
                    Some((end, granule)) => Some((end as int, granule as int)),
                    None => None,
                },
            ),
        decreases count - i,
    {
        let page: usize = raw[start + i].page;
        assert(audio[i as int].page == page);
        let mut j: usize = i;
        while j < count && raw[start + j].page == page
            invariant
                audio == placed(raw@).skip(start as int),
                count == raw@.len() - start,
                raw@.len() <= usize::MAX,
                i <= j <= count,
                run_end(audio, i as int, page as int) == run_end(audio, j as int, page as int),
            decreases count - j,
        {
            assert(audio[j as int].page == raw@[start + j].page);
            j += 1;
        }
        proof {
            if j < count {
                assert(audio[j as int].page == raw@[start + j].page);
            }
            lemma_run_end(audio, i + 1, page as int);
            assert(j == run_end(audio, i as int, page as int));
            assert(model[page as int] == pages@[page as int]@);
        }
        let granule: u64 = pages[page].granule;
        if granule != GRANULE_NONE {
            let total: u64 = sums[j];
            if let Some((last_end, last_granule)) = anchor {
                let last: u64 = sums[last_end];
                proof {
                    lemma_samples_before_monotone(audio, last_end as int, j as int);
                }
                if granule < last_granule || granule - last_granule != total - last {
                    return Err(OggError::GranuleMismatch { page: pages[page].seq });
                }
            }
            let end: u64 = pre_skip as u64 + total;
            if pages[page].header_type / 4 % 2 == 1 && end < granule {
                return Err(OggError::GranuleMismatch { page: pages[page].seq });
            }
            anchor = Some((j, granule));
        }
        i = j;
    }
    Ok(())
}

/// More packets last no less long.
pub proof fn lemma_samples_before_monotone(audio: Seq<PlacedPacket>, m: int, n: int)
    requires
        m <= n,
    ensures
        samples_before(audio, m) <= samples_before(audio, n),
    decreases n - m,
{
    if m < n {
        lemma_samples_before_monotone(audio, m, n - 1);
    }
}

/// The track that the packets of the Opus stream make up.
fn interpret<'a>(pages: &Vec<Page<'a>>, raw: &Vec<RawPacket>) -> (result: Result<
    OggOpusTrack,
    OggError,
>)
    requires
        0 < raw@.len() <= MAX_OGG_LEN,
        forall|k: int| 0 <= k < raw@.len() ==> (#[trigger] raw@[k]).page < pages@.len(),
    ensures
        match result {
            Ok(track) => track_of(all_pages(pages@), placed(raw@)) == Ok::<TrackModel, OggFault>(
                track@,
            ),
            Err(error) => track_of(all_pages(pages@), placed(raw@)) == Err::<TrackModel, OggFault>(
                error@,
            ),
        },
{
    assert(placed(raw@)[0].data == raw@[0].data@);
    let head = match parse_opus_head(raw[0].data.as_slice()) {
        Ok(head) => head,
        Err(error) => return Err(error),
    };
    let mut start: usize = 1;
    let tags: [u8; 8] = [0x4F, 0x70, 0x75, 0x73, 0x54, 0x61, 0x67, 0x73];
    assert(tags@ =~= opus_tags_magic());
    if raw.len() > 1 {
        assert(placed(raw@)[1].data == raw@[1].data@);
        if starts_with(raw[1].data.as_slice(), &tags) {
            start = 2;
        }
    }
    if raw.len() <= start {
        return Err(OggError::NoAudioPackets);
    }
    let sums = match run_sums(raw, start) {
        Ok(sums) => sums,
        Err(error) => return Err(error),
    };
    match verify_granules(pages, raw, start, &sums, head.pre_skip) {
        Ok(_) => {},
        Err(error) => return Err(error),
    }
    let ghost audio = placed(raw@).skip(start as int);
    let mut packets: Vec<OggOpusPacket> = Vec::new();
    let mut i: usize = start;
    while i < raw.len()
        invariant
            audio == placed(raw@).skip(start as int),
            start <= i <= raw@.len(),
            sums@.len() == audio.len() + 1,
            forall|k: int|
                0 <= k <= audio.len() ==> #[trigger] sums@[k] == samples_before(audio, k),
            packets@.len() == i - start,
            forall|k: int|
                0 <= k < packets@.len() ==> (#[trigger] packets@[k])@ == (PacketModel {
                    pts: samples_before(audio, k),
                    data: audio[k].data,
                }),
        decreases raw@.len() - i,
    {
        assert(audio[i - start].data == raw@[i as int].data@);
        packets.push(
            OggOpusPacket {
                pts: sums[i - start],
                data: vstd::slice::slice_to_vec(raw[i].data.as_slice()),
            },
        );
        i += 1;
    }
    let track = OggOpusTrack {
        channels: head.channels,
        pre_skip: head.pre_skip,
        input_sample_rate: head.input_sample_rate,
        packets,
        duration: sums[raw.len() - start],
    };
    assert(track@.packets =~= Seq::new(
        audio.len(),
        |k: int| PacketModel { pts: samples_before(audio, k), data: audio[k].data },
    ));
    Ok(track)
}

/// Demuxes an Ogg Opus file.
pub fn demux_ogg_opus(data: &[u8]) -> (result: Result<OggOpusTrack, OggError>)
    requires
        data@.len() <= MAX_OGG_LEN,
    ensures
        match result {
            Ok(track) => demuxed(data@) == Ok::<TrackModel, OggFault>(track@),
            Err(error) => demuxed(data@) == Err::<TrackModel, OggFault>(error@),
        },
{
    if data.len() == 0 {
        return Err(OggError::Empty);
    }
    let pages = match parse_pages(data) {
        Ok(pages) => pages,
        Err(error) => return Err(error),
    };
    let streams = match collect_streams(&pages) {
        Ok(streams) => streams,
        Err(error) => return Err(error),
    };
    match check_finished(&streams, data.len()) {
        Ok(_) => {},
        Err(error) => return Err(error),
    }
    let at: usize = match pick_opus(&streams) {
        Ok(at) => at,
        Err(error) => return Err(error),
    };
    let raw = &streams[at].packets;
    proof {
        assert(all_streams(streams@)[at as int] == streams@[at as int]@);
        assert(stream_bounded(streams@[at as int]@, all_pages(pages@), pages@.len() as int));
        assert forall|k: int| 0 <= k < raw@.len() implies (#[trigger] raw@[k]).page
            < pages@.len() by {
            assert(placed(raw@)[k].page == raw@[k].page);
        }
    }
    interpret(&pages, raw)
}

/// The packets of a demuxed track follow one another without gaps: the first
/// starts at 0, each starts where the one before it ends, and the last ends
/// at the duration of the track.
pub proof fn demuxed_packets_are_contiguous(data: Seq<u8>, k: int)
    requires
        demuxed(data) is Ok,
        0 <= k < demuxed(data)->Ok_0.packets.len(),
    ensures
        demuxed(data)->Ok_0.packets[0].pts == 0,
        opus::packet_samples(demuxed(data)->Ok_0.packets[k].data) is Some,
        ({
            let track = demuxed(data)->Ok_0;
            track.packets[k].pts + opus::packet_samples(track.packets[k].data)->0 == if k + 1
                < track.packets.len() {
                track.packets[k + 1].pts
            } else {
                track.duration
            }
        }),
{
    let pages = pages_from(data, 0, Seq::empty())->Ok_0;
    let streams = absorb_all(Seq::empty(), pages, 0)->Ok_0;
    let raw = streams[opus_among(streams, 0, None)->Ok_0->0].packets;
    let audio = raw.skip(audio_start(raw));
    assert(opus::packet_samples(audio[k].data) is Some);
    assert(samples_before(audio, k + 1) == samples_before(audio, k) + samples_of(audio[k].data));
}

} // verus!
