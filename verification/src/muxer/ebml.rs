//! Matroska elements, encoded by the `mkv_element` crate.
//!
//! Each function here makes one element and hands back its bytes.

use bytes::Bytes;
use mkv_element::io::blocking_impl::WriteTo;
use mkv_element::prelude::{
    Audio, Block, BlockDuration, BlockGroup, Channels, CodecDelay, CodecId, CodecPrivate,
    CueClusterPosition, CuePoint, CueTime, CueTrack, CueTrackPositions, DateUtc, DocType,
    DocTypeReadVersion, DocTypeVersion, Duration, Ebml, EbmlMaxIdLength, EbmlMaxSizeLength,
    FieldOrder, FlagLacing, Header, Info, Language, MuxingApp, PixelHeight, PixelWidth,
    ReferenceBlock, SamplingFrequency, SeekPreRoll, SimpleBlock, Timestamp, TimestampScale, Title,
    TrackEntry, TrackNumber, TrackType, TrackUid, VInt64, Video, WritingApp,
};
use vstd::prelude::*;
use crate::{seconds, wire};

verus! {

/// Identifier of the segment element.
pub const SEGMENT_ID: u64 = 0x1853_8067;

/// Identifier of the tracks element.
pub const TRACKS_ID: u64 = 0x1654_AE6B;

/// Identifier of the cluster element.
pub const CLUSTER_ID: u64 = 0x1F43_B675;

/// Identifier of the cues element.
pub const CUES_ID: u64 = 0x1C53_BB6B;

/// Identifier of the simple block element.
pub const SIMPLE_BLOCK_ID: u64 = 0xA3;

/// Largest element body that is written.
pub const MAX_BODY: u64 = 0x40_0000_0000_0000;

/// A number in as few bytes as hold it, the most significant first. Zero takes
/// one byte.
pub open spec fn big_endian(value: nat) -> Seq<u8>
    decreases value,
{
    if value < 0x100 {
        seq![value as u8]
    } else {
        big_endian(value / 0x100).push((value % 0x100) as u8)
    }
}

/// The length of an element, seven bits to a byte, under a marker bit whose
/// place tells the number of bytes. In one byte 127 would be an unknown
/// length, so it takes two.
pub open spec fn length_bytes(length: nat) -> Seq<u8> {
    if length < 0x7F {
        big_endian(0x80 + length)
    } else if length < 0x4000 {
        big_endian(0x4000 + length)
    } else if length < 0x20_0000 {
        big_endian(0x20_0000 + length)
    } else if length < 0x1000_0000 {
        big_endian(0x1000_0000 + length)
    } else if length < 0x8_0000_0000 {
        big_endian(0x8_0000_0000 + length)
    } else if length < 0x400_0000_0000 {
        big_endian(0x400_0000_0000 + length)
    } else if length < 0x2_0000_0000_0000 {
        big_endian(0x2_0000_0000_0000 + length)
    } else {
        big_endian(0x100_0000_0000_0000 + length)
    }
}

/// The header of an element: its identifier and the length of its body.
#[verifier::opaque]
pub open spec fn element_header(id: u64, length: nat) -> Seq<u8> {
    big_endian(id as nat) + length_bytes(length)
}

/// An element.
pub open spec fn element(id: u64, body: Seq<u8>) -> Seq<u8> {
    element_header(id, body.len()) + body
}

/// An element that holds a number.
pub open spec fn number_element(id: u64, value: u64) -> Seq<u8> {
    element(id, big_endian(value as nat))
}

/// An element that holds a text, with a zero byte behind it.
pub open spec fn text_element(id: u64, text: Seq<char>) -> Seq<u8> {
    element(id, vstd::utf8::encode_utf8(text).push(0))
}

/// An element for a value that may be missing: none, or the element of the
/// value.
pub open spec fn optional_number(id: u64, value: Option<u64>) -> Seq<u8> {
    match value {
        Some(value) => number_element(id, value),
        None => Seq::empty(),
    }
}

/// The bytes of a whole number as a floating-point number: single precision
/// where that is exact, double precision of the nearest number elsewhere. A
/// single-precision number has 29 bits less of the fraction, and 896 less in
/// its exponent.
pub open spec fn float_bytes(value: u64) -> Seq<u8> {
    let bits = seconds::nearest_scaled(value as nat, 0);
    if bits % 0x2000_0000 != 0 {
        wire::be64(bits as u64)
    } else if bits == 0 {
        wire::be32(0)
    } else {
        wire::be32(((bits - 0x3800_0000_0000_0000) / 0x2000_0000) as u32)
    }
}

/// The largest number with some bytes, and one.
spec fn byte_limit(count: nat) -> nat
    decreases count,
{
    if count == 0 {
        1
    } else {
        0x100 * byte_limit((count - 1) as nat)
    }
}

/// A number below a limit has no more bytes than the limit says.
proof fn lemma_big_endian_len(value: nat, count: nat)
    requires
        count >= 1,
        value < byte_limit(count),
    ensures
        1 <= big_endian(value).len() <= count,
    decreases value,
{
    reveal_with_fuel(byte_limit, 2);
    if value >= 0x100 {
        lemma_big_endian_len(value / 0x100, (count - 1) as nat);
    }
}

/// A 64-bit number has at most eight bytes.
proof fn lemma_number_len(value: u64)
    ensures
        1 <= big_endian(value as nat).len() <= 8,
{
    reveal_with_fuel(byte_limit, 9);
    lemma_big_endian_len(value as nat, 8);
}

/// An element is at most twelve bytes longer than its body.
pub proof fn element_overhead(id: u64, body: Seq<u8>)
    requires
        id < 0x1_0000_0000,
        body.len() < 0x100_0000_0000_0000,
    ensures
        element(id, body).len() <= 12 + body.len(),
{
    reveal(element_header);
    reveal_with_fuel(byte_limit, 9);
    lemma_big_endian_len(id as nat, 4);
    let length = body.len();
    if length < 0x7F {
        lemma_big_endian_len(0x80 + length, 8);
    } else if length < 0x4000 {
        lemma_big_endian_len(0x4000 + length, 8);
    } else if length < 0x20_0000 {
        lemma_big_endian_len(0x20_0000 + length, 8);
    } else if length < 0x1000_0000 {
        lemma_big_endian_len(0x1000_0000 + length, 8);
    } else if length < 0x8_0000_0000 {
        lemma_big_endian_len(0x8_0000_0000 + length, 8);
    } else if length < 0x400_0000_0000 {
        lemma_big_endian_len(0x400_0000_0000 + length, 8);
    } else if length < 0x2_0000_0000_0000 {
        lemma_big_endian_len(0x2_0000_0000_0000 + length, 8);
    } else {
        lemma_big_endian_len(0x100_0000_0000_0000 + length, 8);
    }
}

/// An element that holds a number has at most twenty bytes.
proof fn lemma_number_element_len(id: u64, value: u64)
    requires
        id < 0x1_0000_0000,
    ensures
        number_element(id, value).len() <= 20,
{
    lemma_number_len(value);
    element_overhead(id, big_endian(value as nat));
}

/// `Header::write_to` of `mkv_element`: the identifier and the length as
/// variable-length integers.
#[verifier::external_body]
pub(crate) fn encode_header(id: u64, length: u64) -> (bytes: Vec<u8>)
    requires
        id == SEGMENT_ID || id == TRACKS_ID || id == CLUSTER_ID || id == CUES_ID,
        length <= MAX_BODY,
    ensures
        bytes@ == element_header(id, length as nat),
{
    let header = Header { id: VInt64::from_encoded(id), size: VInt64::new(length) };
    let mut bytes = Vec::new();
    let _ = header.write_to(&mut bytes);
    bytes
}

/// `VInt64::as_encoded` of `mkv_element`: a number below 127 is the low bits
/// of one byte under a set high bit.
#[verifier::external_body]
pub(crate) fn encode_vint(value: u64) -> (encoded: u64)
    requires
        value < 127,
    ensures
        encoded == 0x80 + value,
{
    VInt64::new(value).as_encoded()
}

/// `SimpleBlock::write_to` of `mkv_element`: the header and the payload.
#[verifier::external_body]
pub(crate) fn encode_simple_block(payload: &[u8]) -> (bytes: Vec<u8>)
    requires
        payload@.len() <= MAX_BODY,
    ensures
        bytes@ == element(SIMPLE_BLOCK_ID, payload@),
{
    let mut bytes = Vec::new();
    let _ = SimpleBlock(Bytes::copy_from_slice(payload)).write_to(&mut bytes);
    bytes
}

/// A block group: a block, the priority 0, a duration where there is one, and
/// the relative time of a block that it refers to.
pub open spec fn block_group_element(
    payload: Seq<u8>,
    duration: Option<u64>,
    reference: Option<i64>,
) -> Seq<u8> {
    element(
        0xA0,
        element(0xA1, payload) + number_element(0xFA, 0) + optional_number(0x9B, duration) + (
        match reference {
            Some(time) => number_element(0xFB, time as u64),
            None => Seq::empty(),
        }),
    )
}

/// A block group is not much longer than its block.
pub proof fn block_group_overhead(payload: Seq<u8>, duration: Option<u64>, reference: Option<i64>)
    requires
        payload.len() <= MAX_BODY,
        reference matches Some(time) ==> time >= 0,
    ensures
        block_group_element(payload, duration, reference).len() <= 128 + payload.len(),
{
    element_overhead(0xA1, payload);
    lemma_number_element_len(0xFA, 0);
    if let Some(duration) = duration {
        lemma_number_element_len(0x9B, duration);
    }
    if let Some(time) = reference {
        lemma_number_element_len(0xFB, time as u64);
    }
    element_overhead(
        0xA0,
        element(0xA1, payload) + number_element(0xFA, 0) + optional_number(0x9B, duration) + (
        match reference {
            Some(time) => number_element(0xFB, time as u64),
            None => Seq::empty(),
        }),
    );
}

/// `BlockGroup::write_to` of `mkv_element`: the block, the priority, which is
/// 0 unless set, the duration and the reference, in this order.
#[verifier::external_body]
pub(crate) fn encode_block_group(
    payload: &[u8],
    duration: Option<u64>,
    reference: Option<i64>,
) -> (bytes: Vec<u8>)
    requires
        payload@.len() <= MAX_BODY / 2,
        reference matches Some(time) ==> time >= 0,
    ensures
        bytes@ == block_group_element(payload@, duration, reference),
{
    let group = BlockGroup {
        block: Block(Bytes::copy_from_slice(payload)),
        block_duration: duration.map(BlockDuration),
        reference_block: reference.map(ReferenceBlock).into_iter().collect(),
        ..BlockGroup::default()
    };
    let mut bytes = Vec::new();
    let _ = group.write_to(&mut bytes);
    bytes
}

/// The timestamp of a cluster.
pub open spec fn timestamp_element(time: u64) -> Seq<u8> {
    number_element(0xE7, time)
}

/// A timestamp is short.
pub proof fn timestamp_overhead(time: u64)
    ensures
        timestamp_element(time).len() <= 32,
{
    lemma_number_element_len(0xE7, time);
}

/// `Timestamp::write_to` of `mkv_element`.
#[verifier::external_body]
pub(crate) fn encode_timestamp(time: u64) -> (bytes: Vec<u8>)
    ensures
        bytes@ == timestamp_element(time),
{
    let mut bytes = Vec::new();
    let _ = Timestamp(time).write_to(&mut bytes);
    bytes
}

/// A seek point: a time, and the position of a cluster for a track.
pub open spec fn cue_point_element(time: u64, track: u64, position: u64) -> Seq<u8> {
    element(
        0xBB,
        number_element(0xB3, time) + element(
            0xB7,
            number_element(0xF7, track) + number_element(0xF1, position) + number_element(0xEA, 0),
        ),
    )
}

/// A seek point is short.
pub proof fn cue_point_overhead(time: u64, track: u64, position: u64)
    ensures
        cue_point_element(time, track, position).len() <= 128,
{
    lemma_number_element_len(0xB3, time);
    lemma_number_element_len(0xF7, track);
    lemma_number_element_len(0xF1, position);
    lemma_number_element_len(0xEA, 0);
    let place = number_element(0xF7, track) + number_element(0xF1, position) + number_element(
        0xEA,
        0,
    );
    element_overhead(0xB7, place);
    element_overhead(0xBB, number_element(0xB3, time) + element(0xB7, place));
}

/// `CuePoint::write_to` of `mkv_element`, with one position: the time, and in
/// an element of their own the track, the position and the codec state, which
/// is 0 unless set.
#[verifier::external_body]
pub(crate) fn encode_cue_point(time: u64, track: u64, position: u64) -> (bytes: Vec<u8>)
    ensures
        bytes@ == cue_point_element(time, track, position),
{
    let place = CueTrackPositions {
        cue_track: CueTrack(track),
        cue_cluster_position: CueClusterPosition(position),
        ..CueTrackPositions::default()
    };
    let point = CuePoint {
        cue_time: CueTime(time),
        cue_track_positions: vec![place],
        ..CuePoint::default()
    };
    let mut bytes = Vec::new();
    let _ = point.write_to(&mut bytes);
    bytes
}

/// The head of a file: the longest identifier and the longest length, in
/// bytes, the document type, its version and the version that a reader needs.
pub open spec fn ebml_element(
    max_id: u64,
    max_length: u64,
    doc_type: Seq<char>,
    version: u64,
    read_version: u64,
) -> Seq<u8> {
    element(
        0x1A45_DFA3,
        number_element(0x42F2, max_id) + number_element(0x42F3, max_length) + text_element(
            0x4282,
            doc_type,
        ) + number_element(0x4287, version) + number_element(0x4285, read_version),
    )
}

/// `Ebml::write_to` of `mkv_element`, without the versions of EBML itself.
#[verifier::external_body]
pub(crate) fn encode_ebml(
    max_id: u64,
    max_length: u64,
    doc_type: &str,
    version: u64,
    read_version: u64,
) -> (bytes: Vec<u8>)
    requires
        vstd::utf8::encode_utf8(doc_type@).len() <= MAX_BODY,
    ensures
        bytes@ == ebml_element(max_id, max_length, doc_type@, version, read_version),
{
    let ebml = Ebml {
        ebml_max_id_length: EbmlMaxIdLength(max_id),
        ebml_max_size_length: EbmlMaxSizeLength(max_length),
        doc_type: Some(DocType(doc_type.to_string())),
        doc_type_version: Some(DocTypeVersion(version)),
        doc_type_read_version: Some(DocTypeReadVersion(read_version)),
        ..Ebml::default()
    };
    let mut bytes = Vec::new();
    let _ = ebml.write_to(&mut bytes);
    bytes
}

/// The segment information: nanoseconds per tick, the muxing and the writing
/// application, the duration in ticks, the date in nanoseconds since 2001 and
/// the title.
pub open spec fn info_element(
    scale: u64,
    muxing_app: Seq<char>,
    writing_app: Seq<char>,
    duration: Option<u64>,
    date: Option<i64>,
    title: Option<Seq<char>>,
) -> Seq<u8> {
    element(
        0x1549_A966,
        number_element(0x2A_D7B1, scale) + text_element(0x4D80, muxing_app) + text_element(
            0x5741,
            writing_app,
        ) + (match duration {
            Some(ticks) => element(0x4489, float_bytes(ticks)),
            None => Seq::empty(),
        }) + (match date {
            Some(date) => element(
                0x4461,
                wire::be64((date as int % 0x1_0000_0000_0000_0000) as u64),
            ),
            None => Seq::empty(),
        }) + (match title {
            Some(title) => text_element(0x7BA9, title),
            None => Seq::empty(),
        }),
    )
}

/// The contents of an optional text.
pub open spec fn opt_text(text: Option<&str>) -> Option<Seq<char>> {
    match text {
        Some(text) => Some(text@),
        None => None,
    }
}

/// The encoded length of an optional text.
pub open spec fn opt_text_len(text: Option<Seq<char>>) -> int {
    match text {
        Some(text) => vstd::utf8::encode_utf8(text).len() as int,
        None => 0,
    }
}

/// The segment information is not much longer than its texts.
pub proof fn info_overhead(
    scale: u64,
    muxing_app: Seq<char>,
    writing_app: Seq<char>,
    duration: Option<u64>,
    date: Option<i64>,
    title: Option<Seq<char>>,
)
    requires
        opt_text_len(title) <= MAX_BODY / 4,
        vstd::utf8::encode_utf8(muxing_app).len() <= 1024,
        vstd::utf8::encode_utf8(writing_app).len() <= 1024,
    ensures
        info_element(scale, muxing_app, writing_app, duration, date, title).len() <= 4096
            + opt_text_len(title),
{
    lemma_number_element_len(0x2A_D7B1, scale);
    element_overhead(0x4D80, vstd::utf8::encode_utf8(muxing_app).push(0));
    element_overhead(0x5741, vstd::utf8::encode_utf8(writing_app).push(0));
    if let Some(ticks) = duration {
        element_overhead(0x4489, float_bytes(ticks));
    }
    if let Some(date) = date {
        element_overhead(0x4461, wire::be64((date as int % 0x1_0000_0000_0000_0000) as u64));
    }
    if let Some(title) = title {
        element_overhead(0x7BA9, vstd::utf8::encode_utf8(title).push(0));
    }
    element_overhead(
        0x1549_A966,
        number_element(0x2A_D7B1, scale) + text_element(0x4D80, muxing_app) + text_element(
            0x5741,
            writing_app,
        ) + (match duration {
            Some(ticks) => element(0x4489, float_bytes(ticks)),
            None => Seq::empty(),
        }) + (match date {
            Some(date) => element(
                0x4461,
                wire::be64((date as int % 0x1_0000_0000_0000_0000) as u64),
            ),
            None => Seq::empty(),
        }) + (match title {
            Some(title) => text_element(0x7BA9, title),
            None => Seq::empty(),
        }),
    );
}

/// `Info::write_to` of `mkv_element`: the scale and the applications, and
/// where there are any the duration, the date and the title. The date takes
/// eight bytes.
#[verifier::external_body]
pub(crate) fn encode_info(
    scale: u64,
    muxing_app: &str,
    writing_app: &str,
    duration: Option<u64>,
    date: Option<i64>,
    title: Option<&str>,
) -> (bytes: Vec<u8>)
    requires
        opt_text_len(opt_text(title)) <= MAX_BODY / 4,
        vstd::utf8::encode_utf8(muxing_app@).len() <= 1024,
        vstd::utf8::encode_utf8(writing_app@).len() <= 1024,
    ensures
        bytes@ == info_element(
            scale,
            muxing_app@,
            writing_app@,
            duration,
            date,
            opt_text(title),
        ),
{
    let info = Info {
        timestamp_scale: TimestampScale(scale),
        duration: duration.map(|ticks| Duration(ticks as _)),
        date_utc: date.map(DateUtc),
        title: title.map(|title| Title(title.to_string())),
        muxing_app: MuxingApp(muxing_app.to_string()),
        writing_app: WritingApp(writing_app.to_string()),
        ..Info::default()
    };
    let mut bytes = Vec::new();
    let _ = info.write_to(&mut bytes);
    bytes
}

/// What the entries of all tracks have.
#[derive(Debug, Clone, Copy)]
pub struct TrackFields<'a> {
    pub number: u64,
    /// A number that no other track has.
    pub uid: u64,
    pub kind: u64,
    /// Whether blocks hold several frames.
    pub lacing: u64,
    pub language: &'a str,
    pub codec_id: &'a str,
    /// Delay and seek pre-roll in nanoseconds.
    pub delay: u64,
    pub pre_roll: u64,
    pub private: Option<&'a [u8]>,
}

/// The contents of the fields of a track.
pub struct TrackModel {
    pub number: u64,
    pub uid: u64,
    pub kind: u64,
    pub lacing: u64,
    pub language: Seq<char>,
    pub codec_id: Seq<char>,
    pub delay: u64,
    pub pre_roll: u64,
    pub private: Option<Seq<u8>>,
}

impl<'a> View for TrackFields<'a> {
    type V = TrackModel;

    open spec fn view(&self) -> TrackModel {
        TrackModel {
            number: self.number,
            uid: self.uid,
            kind: self.kind,
            lacing: self.lacing,
            language: self.language@,
            codec_id: self.codec_id@,
            delay: self.delay,
            pre_roll: self.pre_roll,
            private: opt_bytes(self.private),
        }
    }
}

/// The contents of optional bytes.
pub open spec fn opt_bytes(bytes: Option<&[u8]>) -> Option<Seq<u8>> {
    match bytes {
        Some(bytes) => Some(bytes@),
        None => None,
    }
}

/// The length of optional bytes.
pub open spec fn opt_len(bytes: Option<Seq<u8>>) -> int {
    match bytes {
        Some(bytes) => bytes.len() as int,
        None => 0,
    }
}

impl TrackModel {
    /// The fields as elements. A track is enabled and a default one, not
    /// forced, and its blocks have no additions.
    pub open spec fn elements(self) -> Seq<u8> {
        number_element(0xD7, self.number) + number_element(0x73C5, self.uid) + number_element(
            0x83,
            self.kind,
        ) + number_element(0xB9, 1) + number_element(0x88, 1) + number_element(0x55AA, 0)
            + number_element(0x9C, self.lacing) + number_element(0x55EE, 0) + text_element(
            0x22_B59C,
            self.language,
        ) + text_element(0x86, self.codec_id) + number_element(0x56AA, self.delay)
            + number_element(0x56BB, self.pre_roll) + (match self.private {
            Some(private) => element(0x63A2, private),
            None => Seq::empty(),
        })
    }

    /// The entry of the track, with settings for what it carries.
    pub open spec fn entry(self, settings: Seq<u8>) -> Seq<u8> {
        element(0xAE, self.elements() + settings)
    }

    /// The length of the parts that vary.
    pub open spec fn weight(self) -> int {
        vstd::utf8::encode_utf8(self.codec_id).len() + opt_len(self.private)
            + vstd::utf8::encode_utf8(self.language).len()
    }
}

/// The settings of video: the field order and the size of the picture. Whether
/// it is interlaced is left open, and it has no stereo view, transparency or
/// cropping.
pub open spec fn video_settings(field_order: u64, width: u64, height: u64) -> Seq<u8> {
    element(
        0xE0,
        number_element(0x9A, 0) + number_element(0x9D, field_order) + number_element(0x53B8, 0)
            + number_element(0x53C0, 0) + number_element(0xB0, width) + number_element(0xBA, height)
            + number_element(0x54AA, 0) + number_element(0x54BB, 0) + number_element(0x54CC, 0)
            + number_element(0x54DD, 0) + number_element(0x54B2, 0),
    )
}

/// The settings of audio: the sample rate and the channels, without emphasis.
pub open spec fn audio_settings(sample_rate: u32, channels: u64) -> Seq<u8> {
    element(
        0xE1,
        element(0xB5, float_bytes(sample_rate as u64)) + number_element(0x9F, channels)
            + number_element(0x52F1, 0),
    )
}

/// Settings are short.
pub proof fn settings_overhead(
    field_order: u64,
    width: u64,
    height: u64,
    sample_rate: u32,
    channels: u64,
)
    ensures
        video_settings(field_order, width, height).len() <= 512,
        audio_settings(sample_rate, channels).len() <= 512,
{
    lemma_number_element_len(0x9A, 0);
    lemma_number_element_len(0x9D, field_order);
    lemma_number_element_len(0x53B8, 0);
    lemma_number_element_len(0x53C0, 0);
    lemma_number_element_len(0xB0, width);
    lemma_number_element_len(0xBA, height);
    lemma_number_element_len(0x54AA, 0);
    lemma_number_element_len(0x54BB, 0);
    lemma_number_element_len(0x54CC, 0);
    lemma_number_element_len(0x54DD, 0);
    lemma_number_element_len(0x54B2, 0);
    let video = number_element(0x9A, 0) + number_element(0x9D, field_order) + number_element(
        0x53B8,
        0,
    ) + number_element(0x53C0, 0) + number_element(0xB0, width) + number_element(0xBA, height)
        + number_element(0x54AA, 0) + number_element(0x54BB, 0) + number_element(0x54CC, 0)
        + number_element(0x54DD, 0) + number_element(0x54B2, 0);
    element_overhead(0xE0, video);
    element_overhead(0xB5, float_bytes(sample_rate as u64));
    lemma_number_element_len(0x9F, channels);
    lemma_number_element_len(0x52F1, 0);
    let audio = element(0xB5, float_bytes(sample_rate as u64)) + number_element(0x9F, channels)
        + number_element(0x52F1, 0);
    element_overhead(0xE1, audio);
}

/// The entry of a track is not much longer than its parts that vary.
pub proof fn entry_overhead(track: TrackModel, settings: Seq<u8>)
    requires
        track.weight() <= MAX_BODY,
        settings.len() <= 512,
    ensures
        track.entry(settings).len() <= 2048 + track.weight(),
{
    lemma_number_element_len(0xD7, track.number);
    lemma_number_element_len(0x73C5, track.uid);
    lemma_number_element_len(0x83, track.kind);
    lemma_number_element_len(0xB9, 1);
    lemma_number_element_len(0x88, 1);
    lemma_number_element_len(0x55AA, 0);
    lemma_number_element_len(0x9C, track.lacing);
    lemma_number_element_len(0x55EE, 0);
    element_overhead(0x22_B59C, vstd::utf8::encode_utf8(track.language).push(0));
    element_overhead(0x86, vstd::utf8::encode_utf8(track.codec_id).push(0));
    lemma_number_element_len(0x56AA, track.delay);
    lemma_number_element_len(0x56BB, track.pre_roll);
    if let Some(private) = track.private {
        element_overhead(0x63A2, private);
    }
    element_overhead(0xAE, track.elements() + settings);
}

/// `TrackEntry::write_to` of `mkv_element` for video: the fields of every
/// track in the order of [`TrackModel::elements`], and the settings of video
/// in that of [`video_settings`]. What is not set there is as those say.
#[verifier::external_body]
pub(crate) fn encode_video_track(
    track: TrackFields<'_>,
    field_order: u64,
    width: u64,
    height: u64,
) -> (bytes: Vec<u8>)
    requires
        track@.weight() <= MAX_BODY / 2,
    ensures
        bytes@ == track@.entry(video_settings(field_order, width, height)),
{
    let video = Video { field_order: FieldOrder(field_order), pixel_width: PixelWidth(width), pixel_height: PixelHeight(height), ..Video::default() };
    let entry = TrackEntry {
        track_number: TrackNumber(track.number), track_uid: TrackUid(track.uid),
        track_type: TrackType(track.kind), flag_lacing: FlagLacing(track.lacing),
        language: Language(track.language.to_string()),
        codec_id: CodecId(track.codec_id.to_string()),
        codec_private: track.private.map(|data| CodecPrivate(Bytes::copy_from_slice(data))),
        codec_delay: CodecDelay(track.delay), seek_pre_roll: SeekPreRoll(track.pre_roll),
        video: Some(video),
        ..TrackEntry::default()
    };
    let mut bytes = Vec::new();
    let _ = entry.write_to(&mut bytes);
    bytes
}

/// `TrackEntry::write_to` of `mkv_element` for audio and subtitles: the fields
/// of every track in the order of [`TrackModel::elements`], and the settings
/// of audio, where there are any, in that of [`audio_settings`]. What is not
/// set there is as those say.
#[verifier::external_body]
pub(crate) fn encode_track(track: TrackFields<'_>, sound: Option<(u32, u64)>) -> (bytes: Vec<u8>)
    requires
        track@.weight() <= MAX_BODY / 2,
    ensures
        bytes@ == track@.entry(sound_settings(sound)),
{
    let entry = TrackEntry {
        track_number: TrackNumber(track.number), track_uid: TrackUid(track.uid),
        track_type: TrackType(track.kind), flag_lacing: FlagLacing(track.lacing),
        language: Language(track.language.to_string()),
        codec_id: CodecId(track.codec_id.to_string()),
        codec_private: track.private.map(|data| CodecPrivate(Bytes::copy_from_slice(data))),
        codec_delay: CodecDelay(track.delay), seek_pre_roll: SeekPreRoll(track.pre_roll),
        audio: sound.map(|(rate, channels)| Audio {
            sampling_frequency: SamplingFrequency(rate.into()), channels: Channels(channels), ..Audio::default() }),
        ..TrackEntry::default()
    };
    let mut bytes = Vec::new();
    let _ = entry.write_to(&mut bytes);
    bytes
}

/// The settings of audio, where there are any: a sample rate and a number of
/// channels.
pub open spec fn sound_settings(sound: Option<(u32, u64)>) -> Seq<u8> {
    match sound {
        Some((rate, channels)) => audio_settings(rate, channels),
        None => Seq::empty(),
    }
}

} // verus!
