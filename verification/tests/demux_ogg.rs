use muxfin::demux::ogg::{demux_ogg_opus, ogg_crc, OggError};
use muxfin::seconds::Seconds;

fn seconds(time: Seconds) -> f64 {
    f64::from_bits(time.bits)
}

#[test]
fn test_crc32_check_value() {
    // Cross-checked against Python and against real ffmpeg Ogg pages:
    // this is the Ogg CRC-32 (poly 0x04C11DB7, init 0, no reflection)
    // over ASCII "123456789".
    assert_eq!(ogg_crc(b"123456789"), 0x89A1_897F);
}

/// Build one Ogg page with correct CRC (test helper).
fn build_page(
    header_type: u8,
    granule: u64,
    serial: u32,
    seq: u32,
    packets: &[&[u8]],
) -> Vec<u8> {
    // Lacing: split each packet into 255-chunks + terminator.
    let mut segments = Vec::new();
    let mut payload = Vec::new();
    for packet in packets {
        let mut rest = *packet;
        // Empty packets still emit one zero lacing value.
        loop {
            let take = rest.len().min(255);
            segments.push(take as u8);
            payload.extend_from_slice(&rest[..take]);
            rest = &rest[take..];
            if take < 255 {
                break;
            }
        }
    }
    let mut page = Vec::new();
    page.extend_from_slice(b"OggS");
    page.push(0);
    page.push(header_type);
    page.extend_from_slice(&granule.to_le_bytes());
    page.extend_from_slice(&serial.to_le_bytes());
    page.extend_from_slice(&seq.to_le_bytes());
    page.extend_from_slice(&[0, 0, 0, 0]); // checksum placeholder
    page.push(segments.len() as u8);
    page.extend_from_slice(&segments);
    page.extend_from_slice(&payload);
    let crc = ogg_crc(&page);
    page[22..26].copy_from_slice(&crc.to_le_bytes());
    page
}

fn opus_head_packet(channels: u8, pre_skip: u16, input_rate: u32) -> Vec<u8> {
    let mut p = Vec::new();
    p.extend_from_slice(b"OpusHead");
    p.push(1);
    p.push(channels);
    p.extend_from_slice(&pre_skip.to_le_bytes());
    p.extend_from_slice(&input_rate.to_le_bytes());
    p.extend_from_slice(&0i16.to_le_bytes());
    p.push(0); // family 0
    p
}

/// Minimal valid Opus packet: TOC 0xF8 = config 31 (CELT-only FB
/// 20 ms = 960 samples @48k), mono, single frame.
fn opus_audio_packet() -> Vec<u8> {
    vec![0xF8, 0x00, 0x01, 0x02]
}

fn minimal_ogg_opus() -> Vec<u8> {
    let mut data = Vec::new();
    // pre_skip 312; packet durations 960 @48k.
    data.extend(build_page(
        0x02,
        0,
        0x1234,
        0,
        &[&opus_head_packet(2, 312, 48_000)],
    ));
    data.extend(build_page(0x00, 0, 0x1234, 1, &[b"OpusTags...."]));
    // First audio page holds 2 packets: granule = 312 + 2*960 = 2232.
    data.extend(build_page(
        0x00,
        2232,
        0x1234,
        2,
        &[&opus_audio_packet(), &opus_audio_packet()],
    ));
    // Second audio page: 2232 + 960 = 3192, EOS.
    data.extend(build_page(0x04, 3192, 0x1234, 3, &[&opus_audio_packet()]));
    data
}

#[test]
fn test_demux_minimal_stream() {
    let track = demux_ogg_opus(&minimal_ogg_opus()).expect("demux");
    assert_eq!(track.channels, 2);
    assert_eq!(track.pre_skip, 312);
    assert_eq!(track.packets.len(), 3);
    // PTS excludes pre-skip: packet k starts at k*960/48000.
    assert!((seconds(track.packets[0].seconds()) - 0.0).abs() < 1e-9);
    assert!((seconds(track.packets[1].seconds()) - 0.02).abs() < 1e-9);
    assert!((seconds(track.packets[2].seconds()) - 0.04).abs() < 1e-9);
}

#[test]
fn test_rejects_vorbis() {
    let mut data = Vec::new();
    data.extend(build_page(
        0x02,
        0,
        0xABCD,
        0,
        &[b"\x01vorbis................."],
    ));
    assert!(matches!(
        demux_ogg_opus(&data),
        Err(OggError::UnsupportedCodec { .. })
    ));
}

#[test]
fn test_rejects_bad_capture() {
    // 27 zero bytes: long enough to parse, wrong capture pattern.
    assert!(matches!(
        demux_ogg_opus(&[0u8; 64]),
        Err(OggError::BadCapture { .. })
    ));
    assert!(matches!(demux_ogg_opus(&[]), Err(OggError::Empty)));
}

#[test]
fn test_rejects_bad_checksum() {
    let mut data = minimal_ogg_opus();
    data[30] ^= 0xFF; // corrupt payload -> CRC mismatch
    assert!(matches!(
        demux_ogg_opus(&data),
        Err(OggError::BadChecksum { .. })
    ));
}

#[test]
fn test_rejects_mapping_family_1() {
    let mut head = opus_head_packet(6, 312, 48_000);
    head[18] = 1;
    head.extend_from_slice(&[2, 1, 0, 1, 2, 3, 4, 5]);
    let mut data = Vec::new();
    data.extend(build_page(0x02, 0, 0x1234, 0, &[&head]));
    assert!(matches!(
        demux_ogg_opus(&data),
        Err(OggError::UnsupportedMapping { family: 1 })
    ));
}
