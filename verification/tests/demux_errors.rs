//! One input for each way in which demuxing fails.

use muxfin::codec::flac::{build_streaminfo, crc16, synthetic_frame_header};
use muxfin::demux::flac::{demux_flac, FlacError};
use muxfin::demux::ogg::{demux_ogg_opus, ogg_crc, OggError};

/// A page with a body of short packets.
fn page(flags: u8, granule: u64, serial: u32, sequence: u32, packets: &[&[u8]]) -> Vec<u8> {
    let lengths: Vec<u8> = packets.iter().map(|packet| packet.len() as u8).collect();
    laced(flags, granule, serial, sequence, &lengths, &packets.concat())
}

/// A page with segments of given lengths.
fn laced(
    flags: u8,
    granule: u64,
    serial: u32,
    sequence: u32,
    lengths: &[u8],
    body: &[u8],
) -> Vec<u8> {
    let mut page = b"OggS\0".to_vec();
    page.push(flags);
    page.extend(granule.to_le_bytes());
    page.extend(serial.to_le_bytes());
    page.extend(sequence.to_le_bytes());
    page.extend([0; 4]);
    page.push(lengths.len() as u8);
    page.extend(lengths);
    page.extend(body);
    let crc = ogg_crc(&page);
    page[22..26].copy_from_slice(&crc.to_le_bytes());
    page
}

const HEAD: &[u8] = b"OpusHead\x01\x02\x38\x01\x80\xBB\x00\x00\x00\x00\x00";
const TAGS: &[u8] = b"OpusTags....";
/// A packet of 960 samples.
const PACKET: &[u8] = &[0xF8, 0, 1, 2];

/// The headers of a stream.
fn headers(serial: u32) -> Vec<u8> {
    [page(2, 0, serial, 0, &[HEAD]), page(0, 0, serial, 1, &[TAGS])].concat()
}

fn ogg_error(data: &[u8]) -> OggError {
    demux_ogg_opus(data).err().expect("an error")
}

#[test]
fn ogg_headers_and_one_packet_are_a_stream() {
    let data = [headers(7), page(4, 1272, 7, 2, &[PACKET])].concat();
    let track = demux_ogg_opus(&data).expect("demux");
    assert_eq!((track.channels, track.pre_skip, track.packets.len()), (2, 312, 1));
}

#[test]
fn ogg_page_is_cut_off() {
    let data = headers(7);
    let first = page(2, 0, 7, 0, &[HEAD]).len();
    // In the fixed header, in the segment table and in the body.
    for cut in [first + 26, first + 27, data.len() - 1] {
        assert_eq!(ogg_error(&data[..cut]), OggError::Truncated { offset: first });
    }
    assert_eq!(
        OggError::Truncated { offset: 47 }.message(),
        "truncated Ogg data at offset 47"
    );
}

#[test]
fn ogg_packet_is_never_finished() {
    let data = [headers(7), laced(4, 0, 7, 2, &[255], &[0xF8; 255])].concat();
    assert_eq!(ogg_error(&data), OggError::Truncated { offset: data.len() });
}

#[test]
fn ogg_version_is_not_zero() {
    let mut data = headers(7);
    data[4] = 3;
    assert_eq!(ogg_error(&data), OggError::BadVersion { version: 3 });
}

#[test]
fn ogg_checksum_names_its_page() {
    let mut data = headers(7);
    let last = data.len() - 1;
    data[last] ^= 1;
    assert_eq!(ogg_error(&data), OggError::BadChecksum { page: 1 });
}

#[test]
fn ogg_page_is_missing() {
    let data = [page(2, 0, 7, 0, &[HEAD]), page(0, 0, 7, 2, &[TAGS])].concat();
    assert_eq!(ogg_error(&data), OggError::BrokenSequence { serial: 7 });
    // A stream does not start with its first page.
    let data = page(0, 0, 9, 0, &[HEAD]);
    assert_eq!(ogg_error(&data), OggError::BrokenSequence { serial: 9 });
}

#[test]
fn ogg_holds_no_opus() {
    let data = page(2, 0, 7, 0, &[b"fLaC"]);
    assert_eq!(ogg_error(&data), OggError::NoOpusStream);
    let data = page(2, 0, 7, 0, &[b"\x01vorbis"]);
    assert_eq!(
        ogg_error(&data),
        OggError::UnsupportedCodec { name: String::from("vorbis") }
    );
}

#[test]
fn ogg_holds_two_opus_streams() {
    assert_eq!(ogg_error(&[headers(7), headers(8)].concat()), OggError::Multiplexed);
}

#[test]
fn ogg_is_chained() {
    // A page behind the end of the stream.
    let data = [headers(7), page(4, 960, 7, 2, &[PACKET]), page(0, 1920, 7, 3, &[PACKET])].concat();
    assert_eq!(ogg_error(&data), OggError::Chained);
    // A stream starts again.
    let data = [headers(7), headers(7)].concat();
    assert_eq!(ogg_error(&data), OggError::Chained);
}

#[test]
fn ogg_head_is_malformed() {
    let refused = |head: &[u8]| ogg_error(&page(2, 0, 7, 0, &[head]));
    let malformed = |reason: &str| OggError::InvalidOpusHead(String::from(reason));
    assert_eq!(refused(&HEAD[..18]), malformed("packet shorter than 19 bytes"));
    let mut head = HEAD.to_vec();
    head[8] = 16;
    assert_eq!(refused(&head), malformed("unsupported OpusHead version 16 (expected 1)"));
    let mut head = HEAD.to_vec();
    head[9] = 0;
    assert_eq!(refused(&head), malformed("channel count is zero"));
    let mut head = HEAD.to_vec();
    head.push(0);
    assert_eq!(refused(&head), malformed("unexpected trailing bytes for mapping family 0"));
}

#[test]
fn ogg_packet_has_no_header() {
    // Code 3 without its count of frames.
    let data = [headers(7), page(4, 960, 7, 2, &[&[0xFB]])].concat();
    assert_eq!(ogg_error(&data), OggError::InvalidPacket { page: 0 });
}

#[test]
fn ogg_granules_disagree_with_packets() {
    let data = [headers(7), page(0, 960, 7, 2, &[PACKET]), page(0, 1921, 7, 3, &[PACKET])].concat();
    assert_eq!(ogg_error(&data), OggError::GranuleMismatch { page: 3 });
    // The end lies behind the packets.
    let data = [headers(7), page(4, 1273, 7, 2, &[PACKET])].concat();
    assert_eq!(ogg_error(&data), OggError::GranuleMismatch { page: 2 });
}

#[test]
fn ogg_holds_headers_alone() {
    assert_eq!(ogg_error(&headers(7)), OggError::NoAudioPackets);
    assert_eq!(ogg_error(&page(2, 0, 7, 0, &[HEAD])), OggError::NoAudioPackets);
}

/// The marker and a STREAMINFO block for stereo at 44.1 kHz.
fn flac_start() -> Vec<u8> {
    let mut data = b"fLaC\x80\x00\x00\x22".to_vec();
    data.extend(build_streaminfo(4096, 4096, 44_100, 2, 16, 0));
    data
}

/// A frame of a block size less one.
fn frame(number: u64, size_less_one: u16) -> Vec<u8> {
    let mut frame = synthetic_frame_header(number, size_less_one);
    frame.extend([0x11; 8]);
    let crc = crc16(&frame);
    frame.extend(crc.to_be_bytes());
    frame
}

fn flac_error(data: &[u8]) -> FlacError {
    demux_flac(data).err().expect("an error")
}

#[test]
fn flac_metadata_is_cut_off() {
    let data = flac_start();
    assert_eq!(flac_error(&data[..20]), FlacError::Truncated { offset: 4 });
    assert_eq!(flac_error(&data[..3]), FlacError::BadMarker);
}

#[test]
fn flac_starts_with_another_block() {
    assert_eq!(flac_error(b"fLaC\x84\x00\x00\x00"), FlacError::MissingStreaminfo);
}

#[test]
fn flac_streaminfo_is_blank() {
    let data = [b"fLaC\x80\x00\x00\x22".as_slice(), &[0; 34]].concat();
    assert_eq!(flac_error(&data), FlacError::InvalidStreaminfo);
}

#[test]
fn flac_holds_no_frames() {
    let mut data = flac_start();
    assert_eq!(flac_error(&data), FlacError::NoAudioFrames);
    data.extend([0; 40]);
    assert_eq!(flac_error(&data), FlacError::NoAudioFrames);
}

#[test]
fn flac_frame_is_larger_than_allowed() {
    let data = [flac_start(), frame(0, 4095), frame(1, 4096)].concat();
    assert_eq!(flac_error(&data), FlacError::InconsistentFrame { frame: 1 });
}

#[test]
fn flac_frame_is_damaged() {
    let mut data = [flac_start(), frame(0, 4095), frame(1, 4095)].concat();
    let last = data.len() - 1;
    data[last] ^= 1;
    assert_eq!(flac_error(&data), FlacError::BadFrameChecksum { frame: 1 });
}

#[test]
fn flac_frames_go_backwards() {
    let data = [flac_start(), frame(1, 4095), frame(0, 4095)].concat();
    assert_eq!(flac_error(&data), FlacError::NonMonotonic { frame: 1 });
    assert_eq!(
        FlacError::NonMonotonic { frame: 1 }.message(),
        "FLAC frame 1 coded number went backwards"
    );
}
