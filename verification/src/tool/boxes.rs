//! Inspection of a media file by its first bytes and its top-level boxes.

use vstd::prelude::*;
use crate::wire::{self, get_be32, starts_with};

verus! {

/// A box at the top level of an MP4 file.
#[derive(Debug, Clone, Copy, PartialEq, Eq, Structural)]
pub enum BoxEntry {
    /// A box that ends within the file; the bytes of its type are those of a
    /// number, most significant first.
    Known { kind: u32, size: u32, offset: usize },
    /// A box that is longer than the file.
    Overrun { size: u32, offset: usize },
}

/// What a file holds, by its first bytes.
#[derive(Debug, Clone, Copy, PartialEq, Eq, Structural)]
pub enum MediaKind {
    /// Too short for any.
    TooSmall,
    Matroska,
    Ogg,
    Flac,
    /// Too short for MP4.
    TooSmallForMp4,
    /// None of the others.
    Mp4,
}

/// The first bytes of Matroska.
pub const EBML_MAGIC: [u8; 4] = [0x1A, 0x45, 0xDF, 0xA3];

/// The first bytes of Ogg.
pub const OGG_MAGIC: [u8; 4] = [0x4F, 0x67, 0x67, 0x53];

/// The first bytes of FLAC.
pub const FLAC_MAGIC: [u8; 4] = [0x66, 0x4C, 0x61, 0x43];

/// What a file holds.
pub open spec fn kind_of(buffer: Seq<u8>) -> MediaKind {
    if buffer.len() < 4 {
        MediaKind::TooSmall
    } else if wire::begins_with(buffer, EBML_MAGIC@) {
        MediaKind::Matroska
    } else if wire::begins_with(buffer, OGG_MAGIC@) {
        MediaKind::Ogg
    } else if wire::begins_with(buffer, FLAC_MAGIC@) {
        MediaKind::Flac
    } else if buffer.len() < 8 {
        MediaKind::TooSmallForMp4
    } else {
        MediaKind::Mp4
    }
}

/// What a file holds.
pub fn classify(buffer: &[u8]) -> (kind: MediaKind)
    ensures
        kind == kind_of(buffer@),
{
    if buffer.len() < 4 {
        return MediaKind::TooSmall;
    }
    if starts_with(buffer, &EBML_MAGIC) {
        return MediaKind::Matroska;
    }
    if starts_with(buffer, &OGG_MAGIC) {
        return MediaKind::Ogg;
    }
    if starts_with(buffer, &FLAC_MAGIC) {
        return MediaKind::Flac;
    }
    if buffer.len() < 8 {
        return MediaKind::TooSmallForMp4;
    }
    MediaKind::Mp4
}

/// The boxes from an offset on: up to the end of the file, a box without a
/// size, or one that is longer than the file.
pub open spec fn boxes_from(buffer: Seq<u8>, offset: int) -> Seq<BoxEntry>
    decreases buffer.len() - offset,
{
    if offset < 0 || offset + 8 > buffer.len() {
        Seq::empty()
    } else {
        let size = wire::be32_at(buffer, offset);
        if size <= 0 {
            Seq::empty()
        } else if offset + size > buffer.len() {
            seq![BoxEntry::Overrun { size: size as u32, offset: offset as usize }]
        } else {
            seq![
                BoxEntry::Known {
                    kind: wire::be32_at(buffer, offset + 4) as u32,
                    size: size as u32,
                    offset: offset as usize,
                },
            ] + boxes_from(buffer, offset + size)
        }
    }
}

/// The boxes at the top level of an MP4 file.
pub fn list_boxes(buffer: &[u8]) -> (boxes: Vec<BoxEntry>)
    ensures
        boxes@ == boxes_from(buffer@, 0),
{
    let mut boxes: Vec<BoxEntry> = Vec::new();
    let mut offset: usize = 0;
    let ghost whole = boxes_from(buffer@, 0);
    assert(boxes@ + whole =~= whole);
    while buffer.len() - offset >= 8
        invariant_except_break
            whole == boxes@ + boxes_from(buffer@, offset as int),
        invariant
            offset <= buffer@.len(),
            buffer.len() == buffer@.len(),
        ensures
            boxes@ =~= whole,
        decreases buffer@.len() - offset,
    {
        let ghost before = boxes@;
        let size: u32 = get_be32(buffer, offset);
        if size == 0 {
            assert(boxes@ + Seq::<BoxEntry>::empty() =~= boxes@);
            break;
        }
        if size as u64 > (buffer.len() - offset) as u64 {
            boxes.push(BoxEntry::Overrun { size, offset });
            assert(boxes@ =~= before + seq![BoxEntry::Overrun { size, offset }]);
            break;
        }
        let kind: u32 = get_be32(buffer, offset + 4);
        boxes.push(BoxEntry::Known { kind, size, offset });
        assert(whole =~= boxes@ + boxes_from(buffer@, offset + size));
        offset = offset + size as usize;
    }
    boxes
}

/// Whether a box of a kind is among the boxes.
pub open spec fn has_box(boxes: Seq<BoxEntry>, kind: u32) -> bool {
    exists|i: int|
        0 <= i < boxes.len() && (#[trigger] boxes[i] matches BoxEntry::Known { kind: found, .. }
            && found == kind)
}

/// Whether a box of a kind is among the boxes.
fn contains_box(boxes: &Vec<BoxEntry>, kind: u32) -> (yes: bool)
    ensures
        yes == has_box(boxes@, kind),
{
    let mut i: usize = 0;
    while i < boxes.len()
        invariant
            i <= boxes@.len(),
            forall|k: int|
                0 <= k < i ==> !(#[trigger] boxes@[k] matches BoxEntry::Known { kind: found, .. }
                    && found == kind),
        decreases boxes@.len() - i,
    {
        match boxes[i] {
            BoxEntry::Known { kind: found, .. } => {
                if found == kind {
                    assert(boxes@[i as int] matches BoxEntry::Known { kind: found, .. } && found
                        == kind);
                    return true;
                }
            },
            BoxEntry::Overrun { .. } => {},
        }
        i = i + 1;
    }
    false
}

/// What the top level of an MP4 file tells.
#[derive(Debug, Clone, Copy)]
pub struct Mp4Summary {
    /// Whether there are a type and an index.
    pub is_valid: bool,
    /// The name of the video codec.
    pub video_codec: &'static str,
    pub has_audio: bool,
}

/// The type of a file type box.
pub const FTYP: u32 = 0x6674_7970;

/// The type of an index.
pub const MOOV: u32 = 0x6D6F_6F76;

/// The type of an H.264 sample entry.
pub const AVC1: u32 = 0x6176_6331;

/// The type of an H.265 sample entry.
pub const HVC1: u32 = 0x6876_6331;

/// The type of a VP9 sample entry.
pub const VP09: u32 = 0x7670_3039;

/// The type of an AAC sample entry.
pub const MP4A: u32 = 0x6D70_3461;

/// The name of the video codec whose sample entry is found first.
pub open spec fn codec_name(boxes: Seq<BoxEntry>) -> Seq<char> {
    if has_box(boxes, AVC1) {
        "H.264/AVC"@
    } else if has_box(boxes, HVC1) {
        "H.265/HEVC"@
    } else if has_box(boxes, VP09) {
        "VP9"@
    } else {
        "Unknown"@
    }
}

/// What the top level of an MP4 file tells.
pub fn summarize(boxes: &Vec<BoxEntry>) -> (summary: Mp4Summary)
    ensures
        summary.is_valid == (has_box(boxes@, FTYP) && has_box(boxes@, MOOV)),
        summary.video_codec@ == codec_name(boxes@),
        summary.has_audio == has_box(boxes@, MP4A),
{
    let is_valid: bool = contains_box(boxes, FTYP) && contains_box(boxes, MOOV);
    let video_codec: &'static str = if contains_box(boxes, AVC1) {
        "H.264/AVC"
    } else if contains_box(boxes, HVC1) {
        "H.265/HEVC"
    } else if contains_box(boxes, VP09) {
        "VP9"
    } else {
        "Unknown"
    };
    Mp4Summary { is_valid, video_codec, has_audio: contains_box(boxes, MP4A) }
}

/// The listed boxes stand one behind the other, each where the one before it
/// ends.
pub proof fn boxes_are_contiguous(buffer: Seq<u8>, offset: int, k: int)
    requires
        0 <= offset,
        buffer.len() <= usize::MAX,
        0 <= k < boxes_from(buffer, offset).len() - 1,
    ensures
        ({
            let boxes = boxes_from(buffer, offset);
            boxes[k] matches BoxEntry::Known { size, offset: start, .. } && (match boxes[k + 1] {
                BoxEntry::Known { offset: next, .. } => next,
                BoxEntry::Overrun { offset: next, .. } => next,
            }) == start + size
        }),
    decreases buffer.len() - offset,
{
    let size = wire::be32_at(buffer, offset);
    let rest = boxes_from(buffer, offset + size);
    if k > 0 {
        boxes_are_contiguous(buffer, offset + size, k - 1);
        assert(boxes_from(buffer, offset)[k] == rest[k - 1]);
        assert(boxes_from(buffer, offset)[k + 1] == rest[k]);
    } else {
        assert(boxes_from(buffer, offset)[1] == rest[0]);
    }
}

} // verus!
