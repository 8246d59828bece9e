//! Ogg Opus writer.
//!
//! Queues Opus packets and lays them out as one logical stream: a page with
//! the identification header, a page with the tags, and pages of audio whose
//! granule positions are the encoder delay plus the exact duration of all
//! packets so far.

use vstd::prelude::*;
use vstd::string::StringExecFns;
use crate::api::{AudioCodec, Metadata};
use crate::codec::opus::{self, opus_packet_samples, OpusConfig, OpusConfigError, OpusLayout};
use crate::crc::{self, crc32_bytes};
use crate::demux::ogg::{self, OggPage};
use crate::muxer::mp4::Mp4AudioTrack;
use crate::text;
use crate::wire::{self, put_le16, put_le32, put_le64, put_slice};

verus! {

/// Encoder delay where none is given.
pub const DEFAULT_PRE_SKIP: u16 = 312;

/// Serial number of the stream. It is fixed, so that the same input always
/// gives the same file.
pub const STREAM_SERIAL: u32 = 0x4D55_5846;

/// Most audio packets on a page.
pub const MAX_PACKETS_PER_PAGE: usize = 50;

/// Most segments on a page.
pub const MAX_SEGMENTS_PER_PAGE: usize = 255;

/// Most bytes of a packet that fits a page.
pub const MAX_PACKET_LEN: usize = 65024;

/// Most packets whose duration is counted with 64 bits, however long each of
/// them lasts.
pub const MAX_PACKETS: u64 = 0x4000_0000_0000;

/// Errors of the Ogg writer.
#[derive(Debug, Clone, Copy, PartialEq, Eq)]
pub enum OggWriterError {
    /// The audio sample is not an Opus packet.
    InvalidOpusPacket,
    /// The Opus configuration is malformed.
    InvalidOpusConfig { reason: OpusConfigError },
    /// Times must not go backwards.
    NonIncreasingTimestamp,
    /// There is no audio track.
    AudioNotEnabled,
    /// The codec is not Opus.
    UnsupportedCodec { codec: AudioCodec },
    /// The file has been written.
    AlreadyFinalized,
    /// The file has been written, and was to be written again.
    FinalizedTwice,
}

impl OggWriterError {
    /// The message text.
    pub open spec fn text(self) -> Seq<char> {
        match self {
            OggWriterError::InvalidOpusPacket => "invalid Opus packet"@,
            OggWriterError::InvalidOpusConfig { reason } => "invalid Opus head config: "@
                + reason.text(),
            OggWriterError::NonIncreasingTimestamp => "timestamps must grow"@,
            OggWriterError::AudioNotEnabled => "audio track not enabled"@,
            OggWriterError::UnsupportedCodec { codec } => "codec "@ + codec.name_text()
                + " cannot be carried in Ogg: Ogg carries Opus audio only"@,
            OggWriterError::AlreadyFinalized => "writer already finalised"@,
            OggWriterError::FinalizedTwice => "ogg writer already finalised"@,
        }
    }

    /// The error as a message.
    pub fn message(&self) -> (text: String)
        ensures
            text@ == self.text(),
    {
        match *self {
            OggWriterError::InvalidOpusPacket => String::from_str("invalid Opus packet"),
            OggWriterError::InvalidOpusConfig { reason } => {
                let mut text = String::from_str("invalid Opus head config: ");
                text.append(reason.message().as_str());
                text
            },
            OggWriterError::NonIncreasingTimestamp => String::from_str("timestamps must grow"),
            OggWriterError::AudioNotEnabled => String::from_str("audio track not enabled"),
            OggWriterError::UnsupportedCodec { codec } => {
                let mut text = String::from_str("codec ");
                text.append(codec.name());
                text.append(" cannot be carried in Ogg: Ogg carries Opus audio only");
                text
            },
            OggWriterError::AlreadyFinalized => String::from_str("writer already finalised"),
            OggWriterError::FinalizedTwice => String::from_str("ogg writer already finalised"),
        }
    }
}

/// The Opus configuration that a track stands for: the complete one where
/// the caller gives it, otherwise that of the channel count and the encoder
/// delay.
pub open spec fn effective_layout(track: Mp4AudioTrack) -> OpusLayout {
    match track.opus_config_override {
        Some(config) => config@,
        None => {
            let channels = if track.channels > 255 {
                255u8
            } else {
                track.channels as u8
            };
            let pre_skip = match track.opus_preskip {
                Some(pre_skip) => pre_skip,
                None => DEFAULT_PRE_SKIP,
            };
            match opus::predefined_layout(channels) {
                Some(full) => OpusLayout { pre_skip, ..full },
                None => OpusLayout {
                    output_channel_count: channels,
                    channel_mapping_family: if channels > 2 {
                        1
                    } else {
                        0
                    },
                    pre_skip,
                    ..opus::default_layout()
                },
            }
        },
    }
}

/// The Opus configuration that a track stands for, if it is well-formed.
pub fn resolve_opus_config(track: &Mp4AudioTrack) -> (result: Result<OpusConfig, OpusConfigError>)
    ensures
        match result {
            Ok(config) => config@ == effective_layout(*track) && config@.defect() is None,
            Err(error) => effective_layout(*track).defect() == Some(error),
        },
{
    let config = match &track.opus_config_override {
        Some(config) => config.clone(),
        None => {
            let channels: u8 = if track.channels > 255 {
                255
            } else {
                track.channels as u8
            };
            let pre_skip: u16 = match track.opus_preskip {
                Some(pre_skip) => pre_skip,
                None => DEFAULT_PRE_SKIP,
            };
            OpusConfig::default().with_channels(channels).with_pre_skip(pre_skip)
        },
    };
    match config.validate() {
        Ok(_) => Ok(config),
        Err(error) => Err(error),
    }
}

/// The channel numbers from 0 up.
pub open spec fn identity_mapping(channels: u8) -> Seq<u8> {
    Seq::new(channels as nat, |i: int| i as u8)
}

/// The identification header for a configuration.
pub open spec fn head_packet(layout: OpusLayout) -> Seq<u8> {
    let fixed = ogg::opus_head_magic() + seq![1u8, layout.output_channel_count] + wire::le16(
        layout.pre_skip,
    ) + wire::le32(layout.input_sample_rate) + wire::le16(layout.output_gain as u16) + seq![
        layout.channel_mapping_family,
    ];
    if layout.channel_mapping_family == 0 {
        fixed
    } else {
        let streams = match layout.stream_count {
            Some(count) => count,
            None => 1,
        };
        let coupled = match layout.coupled_count {
            Some(count) => count,
            None => 0,
        };
        let table = match layout.channel_mapping {
            Some(table) => table,
            None => identity_mapping(layout.output_channel_count),
        };
        fixed + seq![streams, coupled] + table
    }
}

/// The identification header for a configuration.
pub fn opus_head_packet(config: &OpusConfig) -> (head: Vec<u8>)
    ensures
        head@ == head_packet(config@),
{
    let magic: [u8; 8] = [0x4F, 0x70, 0x75, 0x73, 0x48, 0x65, 0x61, 0x64];
    assert(magic@ =~= ogg::opus_head_magic());
    let mut head: Vec<u8> = Vec::with_capacity(19);
    put_slice(&mut head, &magic);
    head.push(1);
    head.push(config.output_channel_count);
    put_le16(&mut head, config.pre_skip);
    put_le32(&mut head, config.input_sample_rate);
    put_le16(&mut head, config.output_gain as u16);
    head.push(config.channel_mapping_family);
    let ghost fixed = head@;
    assert(fixed =~= ogg::opus_head_magic() + seq![1u8, config.output_channel_count] + wire::le16(
        config.pre_skip,
    ) + wire::le32(config.input_sample_rate) + wire::le16(config.output_gain as u16) + seq![
        config.channel_mapping_family,
    ]);
    if config.channel_mapping_family != 0 {
        let streams: u8 = match config.stream_count {
            Some(count) => count,
            None => 1,
        };
        let coupled: u8 = match config.coupled_count {
            Some(count) => count,
            None => 0,
        };
        head.push(streams);
        head.push(coupled);
        assert(head@ =~= fixed + seq![streams, coupled]);
        match &config.channel_mapping {
            Some(table) => {
                put_slice(&mut head, table.as_slice());
            },
            None => {
                let ghost before = head@;
                let mut i: u8 = 0;
                while i < config.output_channel_count
                    invariant
                        i <= config.output_channel_count,
                        head@ == before + identity_mapping(i),
                    decreases config.output_channel_count - i,
                {
                    head.push(i);
                    assert(head@ =~= before + identity_mapping((i + 1) as u8));
                    i += 1;
                }
            },
        }
    }
    head
}

/// The vendor text `muxfin`.
pub open spec fn vendor() -> Seq<u8> {
    seq![0x6Du8, 0x75, 0x78, 0x66, 0x69, 0x6E]
}

/// The comment key `TITLE=`.
pub open spec fn title_key() -> Seq<u8> {
    seq![0x54u8, 0x49, 0x54, 0x4C, 0x45, 0x3D]
}

/// The tags packet with an optional title; an empty title is left out.
pub open spec fn tags_packet(title: Option<Seq<char>>) -> Seq<u8> {
    let fixed = ogg::opus_tags_magic() + wire::le32(6) + vendor();
    match title {
        Some(title) => if title.len() == 0 {
            fixed + wire::le32(0)
        } else {
            let comment = title_key() + vstd::utf8::encode_utf8(title);
            fixed + wire::le32(1) + wire::le32(comment.len() as u32) + comment
        },
        None => fixed + wire::le32(0),
    }
}

/// The tags packet with an optional title.
pub fn opus_tags_packet(title: Option<&str>) -> (tags: Vec<u8>)
    requires
        title matches Some(title) ==> vstd::utf8::encode_utf8(title@).len() + 6 <= u32::MAX,
    ensures
        tags@ == tags_packet(
            match title {
                Some(title) => Some(title@),
                None => None,
            },
        ),
{
    let magic: [u8; 8] = [0x4F, 0x70, 0x75, 0x73, 0x54, 0x61, 0x67, 0x73];
    let name: [u8; 6] = [0x6D, 0x75, 0x78, 0x66, 0x69, 0x6E];
    let key: [u8; 6] = [0x54, 0x49, 0x54, 0x4C, 0x45, 0x3D];
    assert(magic@ =~= ogg::opus_tags_magic());
    assert(name@ =~= vendor());
    assert(key@ =~= title_key());
    let mut tags: Vec<u8> = Vec::new();
    put_slice(&mut tags, &magic);
    put_le32(&mut tags, 6);
    put_slice(&mut tags, &name);
    let ghost fixed = tags@;
    assert(fixed =~= ogg::opus_tags_magic() + wire::le32(6) + vendor());
    match title {
        Some(title) => {
            if title.is_empty() {
                put_le32(&mut tags, 0);
            } else {
                let bytes = title.as_bytes();
                put_le32(&mut tags, 1);
                put_le32(&mut tags, 6 + bytes.len() as u32);
                put_slice(&mut tags, &key);
                put_slice(&mut tags, bytes);
                assert(tags@ =~= fixed + wire::le32(1) + wire::le32((6 + bytes@.len()) as u32) + (
                title_key() + bytes@));
            }
        },
        None => {
            put_le32(&mut tags, 0);
        },
    }
    tags
}

/// The Ogg checksum of `data`.
pub fn ogg_crc(data: &[u8]) -> (crc: u32)
    ensures
        crc == crc::crc32_of(data@),
{
    crc32_bytes(data)
}

/// The segment lengths of a packet of `len` bytes: as many of 255 as it has,
/// and a shorter one, of 0 if need be, to end it.
pub open spec fn lacing(len: nat) -> Seq<u8>
    decreases len,
{
    if len < 255 {
        seq![len as u8]
    } else {
        seq![255u8] + lacing((len - 255) as nat)
    }
}

/// The segment table of a sequence of packets.
pub open spec fn segment_table(packets: Seq<Seq<u8>>) -> Seq<u8>
    decreases packets.len(),
{
    if packets.len() == 0 {
        Seq::empty()
    } else {
        segment_table(packets.drop_last()) + lacing(packets.last().len())
    }
}

/// The page that carries `packets`.
pub open spec fn page_of(
    header_type: u8,
    granule: u64,
    seq: u32,
    packets: Seq<Seq<u8>>,
) -> OggPage {
    OggPage {
        header_type,
        granule,
        serial: STREAM_SERIAL,
        seq,
        segments: segment_table(packets),
        payload: wire::joined(packets),
    }
}

/// The bytes of a page up to its checksum.
pub open spec fn page_front(page: OggPage) -> Seq<u8> {
    ogg::capture_pattern() + seq![0u8, page.header_type] + wire::le64(page.granule) + wire::le32(
        page.serial,
    ) + wire::le32(page.seq)
}

/// The bytes of a page after its checksum.
pub open spec fn page_back(page: OggPage) -> Seq<u8> {
    seq![page.segments.len() as u8] + page.segments + page.payload
}

/// The bytes of a page with the given checksum.
pub open spec fn page_with_checksum(page: OggPage, checksum: u32) -> Seq<u8> {
    page_front(page) + wire::le32(checksum) + page_back(page)
}

/// The checksum of a page: that of its bytes with a checksum of zero.
pub open spec fn page_checksum(page: OggPage) -> u32 {
    crc::crc32_of(page_with_checksum(page, 0))
}

/// The bytes of a page.
pub open spec fn page_image(page: OggPage) -> Seq<u8> {
    page_with_checksum(page, page_checksum(page))
}

/// The contents of a list of slices.
pub open spec fn contents(packets: Seq<&[u8]>) -> Seq<Seq<u8>> {
    packets.map_values(|p: &[u8]| p@)
}

/// A packet takes one segment for each full 255 bytes and one more.
pub proof fn lemma_lacing_len(len: nat)
    ensures
        lacing(len).len() == len / 255 + 1,
    decreases len,
{
    if len >= 255 {
        lemma_lacing_len((len - 255) as nat);
    }
}

/// Appends the segment lengths of a packet of `len` bytes.
fn put_lacing(segments: &mut Vec<u8>, len: usize)
    ensures
        final(segments)@ == old(segments)@ + lacing(len as nat),
{
    let mut rest: usize = len;
    let ghost start = segments@;
    while rest >= 255
        invariant
            start + lacing(len as nat) == segments@ + lacing(rest as nat),
        decreases rest,
    {
        let ghost before = segments@;
        segments.push(255);
        assert(segments@ + lacing((rest - 255) as nat) =~= before + lacing(rest as nat));
        rest = rest - 255;
    }
    segments.push(rest as u8);
    assert(segments@ =~= start + lacing(len as nat));
}

/// Appends a page that carries `packets`.
pub fn write_page(
    out: &mut Vec<u8>,
    header_type: u8,
    granule: u64,
    seq: u32,
    packets: &[&[u8]],
)
    requires
        segment_table(contents(packets@)).len() <= MAX_SEGMENTS_PER_PAGE,
    ensures
        final(out)@ == old(out)@ + page_image(
            page_of(header_type, granule, seq, contents(packets@)),
        ),
{
    let ghost page = page_of(header_type, granule, seq, contents(packets@));
    let ghost all = contents(packets@);
    let mut segments: Vec<u8> = Vec::new();
    let mut payload: Vec<u8> = Vec::new();
    let mut i: usize = 0;
    while i < packets.len()
        invariant
            all == contents(packets@),
            i <= packets@.len(),
            segments@ == segment_table(all.take(i as int)),
            payload@ == wire::joined(all.take(i as int)),
        decreases packets@.len() - i,
    {
        assert(all.take(i + 1).drop_last() =~= all.take(i as int));
        assert(all.take(i + 1).last() == packets@[i as int]@);
        put_lacing(&mut segments, packets[i].len());
        put_slice(&mut payload, packets[i]);
        i += 1;
    }
    assert(all.take(i as int) =~= all);
    let capture: [u8; 4] = [0x4F, 0x67, 0x67, 0x53];
    assert(capture@ =~= ogg::capture_pattern());
    let mut front: Vec<u8> = Vec::with_capacity(22);
    put_slice(&mut front, &capture);
    front.push(0);
    front.push(header_type);
    put_le64(&mut front, granule);
    put_le32(&mut front, STREAM_SERIAL);
    put_le32(&mut front, seq);
    assert(front@ =~= page_front(page));
    let mut back: Vec<u8> = Vec::new();
    back.push(segments.len() as u8);
    put_slice(&mut back, segments.as_slice());
    put_slice(&mut back, payload.as_slice());
    assert(back@ =~= page_back(page));
    let mut unchecked: Vec<u8> = Vec::new();
    put_slice(&mut unchecked, front.as_slice());
    put_le32(&mut unchecked, 0);
    put_slice(&mut unchecked, back.as_slice());
    assert(unchecked@ =~= page_with_checksum(page, 0));
    let checksum: u32 = ogg_crc(unchecked.as_slice());
    let ghost before = out@;
    put_slice(out, front.as_slice());
    put_le32(out, checksum);
    put_slice(out, back.as_slice());
    assert(out@ =~= before + page_with_checksum(page, checksum));
}

/// The end of the run of packets from `i` on that go on the page that starts
/// with packet `start` and has `segs` segments so far.
pub open spec fn batch_end(packets: Seq<Seq<u8>>, start: int, i: int, segs: int) -> int
    decreases packets.len() - i,
{
    if 0 <= i < packets.len() && i - start < MAX_PACKETS_PER_PAGE && segs + packets[i].len() / 255
        + 1 <= MAX_SEGMENTS_PER_PAGE {
        batch_end(packets, start, i + 1, segs + packets[i].len() / 255 + 1)
    } else {
        i
    }
}

/// The duration of the first `k` packets.
pub open spec fn samples_up_to(packets: Seq<Seq<u8>>, k: int) -> int
    decreases k,
{
    if k <= 0 {
        0
    } else {
        samples_up_to(packets, k - 1) + ogg::samples_of(packets[k - 1])
    }
}

/// Every packet is short enough for a page.
pub open spec fn all_fit(packets: Seq<Seq<u8>>) -> bool {
    forall|i: int| 0 <= i < packets.len() ==> (#[trigger] packets[i]).len() <= MAX_PACKET_LEN
}

/// Every packet is a valid Opus packet.
pub open spec fn all_valid(packets: Seq<Seq<u8>>) -> bool {
    forall|i: int|
        0 <= i < packets.len() ==> opus::packet_samples(#[trigger] packets[i]) is Some
}

/// The number that a page carries. Numbers have 32 bits and start over.
pub open spec fn page_number(seq: int) -> u32 {
    (seq % 0x1_0000_0000) as u32
}

proof fn lemma_next_page_number(seq: int)
    requires
        seq >= 0,
    ensures
        page_number(seq + 1) == ogg::next_seq(page_number(seq)),
{
}

/// The page that carries the packets from `i` to `end`.
pub open spec fn audio_page(
    packets: Seq<Seq<u8>>,
    pre_skip: u16,
    i: int,
    end: int,
    seq: int,
) -> OggPage {
    page_of(
        if end >= packets.len() {
            4
        } else {
            0
        },
        (samples_up_to(packets, end) + pre_skip) as u64,
        page_number(seq),
        packets.subrange(i, end),
    )
}

/// The audio pages from packet `i` on, the first of which has number `seq`.
pub open spec fn audio_pages(packets: Seq<Seq<u8>>, pre_skip: u16, i: int, seq: int) -> Seq<OggPage>
    decreases packets.len() - i,
{
    let end = batch_end(packets, i, i, 0);
    if 0 <= i < end <= packets.len() {
        seq![audio_page(packets, pre_skip, i, end, seq)] + audio_pages(
            packets,
            pre_skip,
            end,
            seq + 1,
        )
    } else {
        Seq::empty()
    }
}

/// The pages of a file.
pub open spec fn file_pages(
    layout: OpusLayout,
    title: Option<Seq<char>>,
    packets: Seq<Seq<u8>>,
) -> Seq<OggPage> {
    seq![
        page_of(2, 0, 0, seq![head_packet(layout)]),
        page_of(
            if packets.len() == 0 {
                4
            } else {
                0
            },
            0,
            1,
            seq![tags_packet(title)],
        ),
    ] + audio_pages(packets, layout.pre_skip, 0, 2)
}

/// The bytes of a sequence of pages.
pub open spec fn pages_image(pages: Seq<OggPage>) -> Seq<u8>
    decreases pages.len(),
{
    if pages.len() == 0 {
        Seq::empty()
    } else {
        pages_image(pages.drop_last()) + page_image(pages.last())
    }
}

/// The bytes of a file.
pub open spec fn file_image(
    layout: OpusLayout,
    title: Option<Seq<char>>,
    packets: Seq<Seq<u8>>,
) -> Seq<u8> {
    pages_image(file_pages(layout, title, packets))
}

/// A batch is not empty where every packet fits a page.
pub proof fn lemma_batch_end(packets: Seq<Seq<u8>>, start: int, i: int, segs: int)
    requires
        0 <= start <= i <= packets.len(),
        i - start <= MAX_PACKETS_PER_PAGE,
        0 <= segs <= MAX_SEGMENTS_PER_PAGE,
    ensures
        i <= batch_end(packets, start, i, segs) <= packets.len(),
        i < packets.len() && i == start && segs == 0 && packets[i].len() <= MAX_PACKET_LEN
            ==> batch_end(packets, start, i, segs) > i,
    decreases packets.len() - i,
{
    if i < packets.len() && i - start < MAX_PACKETS_PER_PAGE && segs + packets[i].len() / 255 + 1
        <= MAX_SEGMENTS_PER_PAGE {
        lemma_batch_end(packets, start, i + 1, segs + packets[i].len() / 255 + 1);
    }
}

/// A queued packet and its duration in 48 kHz samples.
struct QueuedPacket {
    samples: u32,
    data: Vec<u8>,
}

/// The contents of an [`OggWriter`].
#[verifier::ext_equal]
pub struct OggQueue {
    /// The parameters of the audio track.
    pub track: Option<Mp4AudioTrack>,
    /// The packets so far.
    pub packets: Seq<Seq<u8>>,
    /// The time of the last packet.
    pub last_pts: Option<u64>,
    /// Whether the file has been written.
    pub finalized: bool,
    /// The length of the written file.
    pub bytes_written: u64,
}

/// Ogg Opus writer.
pub struct OggWriter {
    audio_track: Option<Mp4AudioTrack>,
    samples: Vec<QueuedPacket>,
    prev_pts: Option<u64>,
    finalized: bool,
    bytes_written: u64,
}

spec fn queued_data(samples: Seq<QueuedPacket>) -> Seq<Seq<u8>> {
    samples.map_values(|p: QueuedPacket| p.data@)
}

impl View for OggWriter {
    type V = OggQueue;

    closed spec fn view(&self) -> OggQueue {
        OggQueue {
            track: self.audio_track,
            packets: queued_data(self.samples@),
            last_pts: self.prev_pts,
            finalized: self.finalized,
            bytes_written: self.bytes_written,
        }
    }
}

impl OggQueue {
    /// What stands in the way of a packet, if anything.
    pub open spec fn packet_fault(self, pts: u64, data: Seq<u8>) -> Option<OggWriterError> {
        if self.finalized {
            Some(OggWriterError::AlreadyFinalized)
        } else if self.track is None {
            Some(OggWriterError::AudioNotEnabled)
        } else if self.track->0.codec != AudioCodec::Opus {
            Some(OggWriterError::UnsupportedCodec { codec: self.track->0.codec })
        } else if self.last_pts matches Some(last) && pts < last {
            Some(OggWriterError::NonIncreasingTimestamp)
        } else if opus::packet_samples(data) is None {
            Some(OggWriterError::InvalidOpusPacket)
        } else {
            None
        }
    }

    /// What stands in the way of writing the file, if anything.
    pub open spec fn file_fault(self) -> Option<OggWriterError> {
        if self.finalized {
            Some(OggWriterError::FinalizedTwice)
        } else if self.track is None {
            Some(OggWriterError::AudioNotEnabled)
        } else if self.track->0.codec != AudioCodec::Opus {
            Some(OggWriterError::UnsupportedCodec { codec: self.track->0.codec })
        } else {
            match effective_layout(self.track->0).defect() {
                Some(reason) => Some(OggWriterError::InvalidOpusConfig { reason }),
                None => None,
            }
        }
    }
}

/// The title of optional metadata.
pub open spec fn title_of(metadata: Option<&Metadata>) -> Option<Seq<char>> {
    match metadata {
        Some(metadata) => metadata@.title,
        None => None,
    }
}

impl OggWriter {
    /// Every queued packet is valid and its recorded duration is its own.
    pub closed spec fn wf(&self) -> bool {
        &&& all_valid(self@.packets)
        &&& forall|i: int|
            0 <= i < self.samples@.len() ==> opus::packet_samples(
                (#[trigger] self.samples@[i]).data@,
            ) == Some(self.samples@[i].samples)
    }

    /// A sound writer holds valid packets alone.
    pub proof fn queued_packets_are_valid(&self)
        requires
            self.wf(),
        ensures
            all_valid(self@.packets),
    {
    }

    /// A writer with no track and no packets.
    pub fn new() -> (writer: Self)
        ensures
            writer.wf(),
            writer@ == (OggQueue {
                track: None,
                packets: Seq::empty(),
                last_pts: None,
                finalized: false,
                bytes_written: 0,
            }),
    {
        let writer = OggWriter {
            audio_track: None,
            samples: Vec::new(),
            prev_pts: None,
            finalized: false,
            bytes_written: 0,
        };
        assert(writer@.packets =~= Seq::<Seq<u8>>::empty());
        writer
    }

    /// The number of packets.
    pub fn audio_sample_count(&self) -> (count: u64)
        ensures
            count == self@.packets.len(),
    {
        self.samples.len() as u64
    }

    /// The length of the written file.
    pub fn bytes_written(&self) -> (bytes: u64)
        ensures
            bytes == self@.bytes_written,
    {
        self.bytes_written
    }

    /// The duration of all packets in 48 kHz samples, without the encoder
    /// delay.
    pub fn total_samples_48k(&self) -> (total: u64)
        requires
            self.wf(),
            self@.packets.len() <= MAX_PACKETS,
        ensures
            total == samples_up_to(self@.packets, self@.packets.len() as int),
    {
        let mut total: u64 = 0;
        let mut i: usize = 0;
        while i < self.samples.len()
            invariant
                self.wf(),
                i <= self.samples@.len() <= MAX_PACKETS,
                total == samples_up_to(self@.packets, i as int),
                total <= 181440 * i,
            decreases self.samples@.len() - i,
        {
            proof {
                opus::packet_samples_bounds(self.samples@[i as int].data@);
                assert(self@.packets[i as int] == self.samples@[i as int].data@);
            }
            total = total + self.samples[i].samples as u64;
            i += 1;
        }
        total
    }

    /// Sets the parameters of the audio track.
    pub fn enable_audio(&mut self, track: Mp4AudioTrack)
        ensures
            final(self)@ == (OggQueue { track: Some(track), ..old(self)@ }),
            old(self).wf() ==> final(self).wf(),
    {
        self.audio_track = Some(track);
    }

    /// Queues a packet; `pts` is in 48 kHz ticks.
    pub fn write_audio_sample(&mut self, pts: u64, data: &[u8]) -> (result: Result<
        (),
        OggWriterError,
    >)
        requires
            old(self).wf(),
        ensures
            final(self).wf(),
            match result {
                Ok(_) => old(self)@.packet_fault(pts, data@) is None && final(self)@ == (OggQueue {
                    packets: old(self)@.packets.push(data@),
                    last_pts: Some(pts),
                    ..old(self)@
                }),
                Err(error) => old(self)@.packet_fault(pts, data@) == Some(error) && final(self)@
                    == old(self)@,
            },
    {
        if self.finalized {
            return Err(OggWriterError::AlreadyFinalized);
        }
        match &self.audio_track {
            None => {
                return Err(OggWriterError::AudioNotEnabled);
            },
            Some(track) => {
                if track.codec != AudioCodec::Opus {
                    return Err(OggWriterError::UnsupportedCodec { codec: track.codec });
                }
            },
        }
        if let Some(last) = self.prev_pts {
            if pts < last {
                return Err(OggWriterError::NonIncreasingTimestamp);
            }
        }
        let samples: u32 = match opus_packet_samples(data) {
            Some(samples) => samples,
            None => return Err(OggWriterError::InvalidOpusPacket),
        };
        let ghost before = self.samples@;
        self.samples.push(QueuedPacket { samples, data: vstd::slice::slice_to_vec(data) });
        self.prev_pts = Some(pts);
        proof {
            assert(self@.packets =~= queued_data(before).push(data@));
            assert forall|i: int| 0 <= i < self@.packets.len() implies opus::packet_samples(
                #[trigger] self@.packets[i],
            ) is Some by {
                if i < before.len() {
                    assert(queued_data(before)[i] == self@.packets[i]);
                }
            }
        }
        Ok(())
    }

    /// Lays out the file. Whatever comes of it, no more packets are taken
    /// afterwards.
    pub fn finalize(&mut self, metadata: Option<&Metadata>) -> (result: Result<
        Vec<u8>,
        OggWriterError,
    >)
        requires
            old(self).wf(),
            old(self)@.packets.len() <= MAX_PACKETS,
            all_fit(old(self)@.packets),
            tags_packet(title_of(metadata)).len() <= MAX_PACKET_LEN,
        ensures
            final(self).wf(),
            match result {
                Ok(file) => {
                    &&& old(self)@.file_fault() is None
                    &&& file@ == file_image(
                        effective_layout(old(self)@.track->0),
                        title_of(metadata),
                        old(self)@.packets,
                    )
                    &&& final(self)@ == (OggQueue {
                        finalized: true,
                        bytes_written: if old(self)@.bytes_written + file@.len() > u64::MAX {
                            u64::MAX
                        } else {
                            (old(self)@.bytes_written + file@.len()) as u64
                        },
                        ..old(self)@
                    })
                },
                Err(error) => old(self)@.file_fault() == Some(error) && final(self)@ == (OggQueue {
                    finalized: true,
                    ..old(self)@
                }),
            },
    {
        if self.finalized {
            return Err(OggWriterError::FinalizedTwice);
        }
        self.finalized = true;
        match self.finalize_inner(metadata) {
            Ok(file) => {
                self.bytes_written = self.bytes_written.saturating_add(file.len() as u64);
                Ok(file)
            },
            Err(error) => Err(error),
        }
    }

    /// The bytes of the file.
    #[verifier::rlimit(50)]
    fn finalize_inner(&self, metadata: Option<&Metadata>) -> (result: Result<
        Vec<u8>,
        OggWriterError,
    >)
        requires
            self.wf(),
            self@.packets.len() <= MAX_PACKETS,
            all_fit(self@.packets),
            tags_packet(title_of(metadata)).len() <= MAX_PACKET_LEN,
        ensures
            match result {
                Ok(file) => (OggQueue { finalized: false, ..self@ }).file_fault() is None && file@
                    == file_image(
                    effective_layout(self@.track->0),
                    title_of(metadata),
                    self@.packets,
                ),
                Err(error) => (OggQueue { finalized: false, ..self@ }).file_fault() == Some(error),
            },
    {
        let track = match &self.audio_track {
            Some(track) => track,
            None => return Err(OggWriterError::AudioNotEnabled),
        };
        if track.codec != AudioCodec::Opus {
            return Err(OggWriterError::UnsupportedCodec { codec: track.codec });
        }
        let config = match resolve_opus_config(track) {
            Ok(config) => config,
            Err(reason) => return Err(OggWriterError::InvalidOpusConfig { reason }),
        };
        let ghost layout = config@;
        let ghost title = title_of(metadata);
        let ghost packets = self@.packets;
        let mut out: Vec<u8> = Vec::new();
        let head = opus_head_packet(&config);
        let title_text: Option<&str> = match metadata {
            Some(metadata) => match &metadata.title {
                Some(title) => Some(title.as_str()),
                None => None,
            },
            None => None,
        };
        proof {
            lemma_head_fits(layout);
            lemma_single_packet_table(head_packet(layout));
            lemma_single_packet_table(tags_packet(title));
        }
        let head_packets: [&[u8]; 1] = [head.as_slice()];
        assert(contents(head_packets@) =~= seq![head_packet(layout)]);
        write_page(&mut out, 2, 0, 0, &head_packets);
        let no_audio = self.samples.len() == 0;
        let tags = opus_tags_packet(title_text);
        let tag_packets: [&[u8]; 1] = [tags.as_slice()];
        assert(contents(tag_packets@) =~= seq![tags_packet(title)]);
        let tags_type: u8 = if no_audio {
            4
        } else {
            0
        };
        write_page(&mut out, tags_type, 0, 1, &tag_packets);
        let ghost mut done: Seq<OggPage> = seq![
            page_of(2, 0, 0, seq![head_packet(layout)]),
            page_of(tags_type, 0, 1, seq![tags_packet(title)]),
        ];
        proof {
            lemma_pages_image_two(done[0], done[1]);
            assert(out@ =~= pages_image(done));
        }
        let ghost front = out@;
        self.put_audio_pages(&mut out, config.pre_skip);
        proof {
            lemma_pages_image_concat(
                done,
                audio_pages(packets, layout.pre_skip, 0, 2),
            );
            assert(done + audio_pages(packets, layout.pre_skip, 0, 2) == file_pages(
                layout,
                title,
                packets,
            ));
        }
        Ok(out)
    }

    /// The packets that go on the page that starts with packet `start`.
    fn batch_from(&self, start: usize) -> (batch: Vec<&[u8]>)
        requires
            start < self@.packets.len(),
            self@.packets[start as int].len() <= MAX_PACKET_LEN,
        ensures
            start < batch_end(self@.packets, start as int, start as int, 0)
                <= self@.packets.len(),
            contents(batch@) == self@.packets.subrange(
                start as int,
                batch_end(self@.packets, start as int, start as int, 0),
            ),
            segment_table(contents(batch@)).len() <= MAX_SEGMENTS_PER_PAGE,
    {
        let ghost packets = self@.packets;
        let ghost first = start as int;
        let ghost end = batch_end(packets, first, first, 0);
        let mut batch: Vec<&[u8]> = Vec::new();
        let mut seg_count: usize = 0;
        let mut idx: usize = start;
        proof {
            lemma_batch_end(packets, first, first, 0);
            assert(contents(batch@) =~= packets.subrange(first, first));
            assert(segment_table(contents(batch@)).len() == 0);
        }
        while idx < self.samples.len() && batch.len() < MAX_PACKETS_PER_PAGE
            invariant_except_break
                end == batch_end(packets, first, idx as int, seg_count as int),
            invariant
                packets == self@.packets,
                first == start,
                first <= idx <= packets.len(),
                batch@.len() == idx - first,
                batch@.len() <= MAX_PACKETS_PER_PAGE,
                contents(batch@) == packets.subrange(first, idx as int),
                segment_table(contents(batch@)).len() == seg_count,
                seg_count <= MAX_SEGMENTS_PER_PAGE,
            ensures
                idx == end,
            decreases self.samples@.len() - idx,
        {
            let queued = &self.samples[idx];
            assert(packets[idx as int] == queued.data@);
            let segs: usize = queued.data.len() / 255 + 1;
            if seg_count + segs > MAX_SEGMENTS_PER_PAGE {
                break;
            }
            proof {
                lemma_lacing_len(queued.data@.len());
            }
            let ghost before = batch@;
            batch.push(queued.data.as_slice());
            proof {
                assert(contents(batch@) =~= contents(before).push(queued.data@));
                assert(contents(batch@).drop_last() =~= contents(before));
                assert(packets.subrange(first, idx + 1) =~= packets.subrange(
                    first,
                    idx as int,
                ).push(packets[idx as int]));
            }
            seg_count = seg_count + segs;
            idx += 1;
        }
        batch
    }

    /// Appends the audio pages.
    fn put_audio_pages(&self, out: &mut Vec<u8>, pre_skip: u16)
        requires
            self.wf(),
            self@.packets.len() <= MAX_PACKETS,
            all_fit(self@.packets),
        ensures
            final(out)@ == old(out)@ + pages_image(audio_pages(self@.packets, pre_skip, 0, 2)),
    {
        let ghost packets = self@.packets;
        let ghost start = out@;
        let ghost all = audio_pages(packets, pre_skip, 0, 2);
        let ghost mut done: Seq<OggPage> = Seq::empty();
        let mut idx: usize = 0;
        let mut seq: u32 = 2;
        let ghost mut pages: int = 2;
        let mut samples_done: u64 = 0;
        assert(done + all =~= all);
        assert(out@ =~= start + pages_image(done));
        while idx < self.samples.len()
            invariant
                self.wf(),
                packets == self@.packets,
                packets.len() <= MAX_PACKETS,
                all_fit(packets),
                idx <= packets.len(),
                pages >= 2 && seq == page_number(pages),
                samples_done == samples_up_to(packets, idx as int),
                samples_done <= 181440 * idx,
                out@ == start + pages_image(done),
                done + audio_pages(packets, pre_skip, idx as int, pages) == all,
            decreases self.samples@.len() - idx,
        {
            let ghost first = idx as int;
            let batch = self.batch_from(idx);
            let ghost end = batch_end(packets, first, first, 0);
            let count: usize = batch.len();
            assert(contents(batch@).len() == end - first);
            let mut k: usize = 0;
            while k < count
                invariant
                    self.wf(),
                    packets == self@.packets,
                    packets.len() <= MAX_PACKETS,
                    first + count == end <= packets.len() <= usize::MAX,
                    k <= count,
                    idx == first + k,
                    samples_done == samples_up_to(packets, idx as int),
                    samples_done <= 181440 * idx,
                decreases count - k,
            {
                proof {
                    opus::packet_samples_bounds(self.samples@[idx as int].data@);
                    assert(packets[idx as int] == self.samples@[idx as int].data@);
                }
                samples_done = samples_done + self.samples[idx].samples as u64;
                idx += 1;
                k += 1;
            }
            let granule: u64 = samples_done.saturating_add(pre_skip as u64);
            let page_type: u8 = if idx >= self.samples.len() {
                4
            } else {
                0
            };
            let ghost page = audio_page(packets, pre_skip, first, end, pages);
            let ghost before_out = out@;
            write_page(out, page_type, granule, seq, batch.as_slice());
            proof {
                let before = done;
                done = before.push(page);
                assert(done.drop_last() =~= before);
                assert(out@ =~= start + pages_image(done));
                assert(before + audio_pages(packets, pre_skip, first, pages) =~= done
                    + audio_pages(packets, pre_skip, end, pages + 1));
                lemma_next_page_number(pages);
                pages = pages + 1;
            }
            seq = seq.wrapping_add(1);
        }
        assert(audio_pages(packets, pre_skip, idx as int, pages) =~= Seq::<OggPage>::empty());
        assert(done =~= all);
    }
}

/// The bytes of two runs of pages.
pub proof fn lemma_pages_image_concat(a: Seq<OggPage>, b: Seq<OggPage>)
    ensures
        pages_image(a + b) == pages_image(a) + pages_image(b),
    decreases b.len(),
{
    if b.len() == 0 {
        assert(a + b =~= a);
        assert(pages_image(a) + pages_image(b) =~= pages_image(a));
    } else {
        lemma_pages_image_concat(a, b.drop_last());
        assert((a + b).drop_last() =~= a + b.drop_last());
        assert((a + b).last() == b.last());
        assert(pages_image(a + b) =~= pages_image(a) + pages_image(b));
    }
}

/// An identification header fits a page.
proof fn lemma_head_fits(layout: OpusLayout)
    requires
        layout.defect() is None,
    ensures
        head_packet(layout).len() <= 276,
{
    opus::valid_layout_maps_every_channel(layout);
}

/// The segment table of a single packet.
pub proof fn lemma_single_packet_table(packet: Seq<u8>)
    ensures
        segment_table(seq![packet]) == lacing(packet.len()),
        wire::joined(seq![packet]) == packet,
        segment_table(seq![packet]).len() == packet.len() / 255 + 1,
{
    let packets = seq![packet];
    assert(packets.drop_last() =~= Seq::<Seq<u8>>::empty());
    lemma_lacing_len(packet.len());
    reveal_with_fuel(segment_table, 2);
    reveal_with_fuel(wire::joined, 2);
    assert(segment_table(packets) =~= lacing(packet.len()));
    assert(wire::joined(packets) =~= packet);
}

proof fn lemma_pages_image_two(a: OggPage, b: OggPage)
    ensures
        pages_image(seq![a, b]) == page_image(a) + page_image(b),
{
    let pages = seq![a, b];
    assert(pages.drop_last() =~= seq![a]);
    assert(seq![a].drop_last() =~= Seq::<OggPage>::empty());
    reveal_with_fuel(pages_image, 2);
    assert(pages_image(seq![a]) =~= page_image(a));
}

} // verus!
