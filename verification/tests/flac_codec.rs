use muxfin::codec::flac::{
    build_streaminfo, crc16, crc8, is_valid_flac_frame, parse_frame_header, parse_streaminfo,
    split_metadata_blocks, synthetic_frame_header, BlockingStrategy, STREAMINFO_LEN,
};
use muxfin::crc::crc32_bytes;

fn streaminfo_44100_stereo() -> [u8; STREAMINFO_LEN] {
    build_streaminfo(4096, 4096, 44_100, 2, 16, 0)
}

#[test]
fn test_streaminfo_roundtrip() {
    let raw = streaminfo_44100_stereo();
    let info = parse_streaminfo(&raw).expect("parse");
    assert_eq!(info.min_block_size, 4096);
    assert_eq!(info.max_block_size, 4096);
    assert_eq!(info.sample_rate, 44_100);
    assert_eq!(info.channels, 2);
    assert_eq!(info.bits_per_sample, 16);
}

#[test]
fn test_streaminfo_rejects_bad_rate() {
    let mut raw = streaminfo_44100_stereo();
    raw[10] = 0xFF;
    raw[11] = 0xFF;
    raw[12] = 0xF0; // rate with top bits set -> > max
    assert!(parse_streaminfo(&raw).is_none());
}

#[test]
fn test_metadata_block_split() {
    // STREAMINFO (last=0) + VORBIS_COMMENT (last=1).
    let mut data = vec![0x00, 0x00, 0x00, 0x22];
    data.extend_from_slice(&[0u8; 34]);
    data.extend_from_slice(&[0x84, 0x00, 0x00, 0x04, 0x01, 0x02, 0x03, 0x04]);
    let blocks = split_metadata_blocks(&data).expect("split");
    assert_eq!(blocks.len(), 2);
    assert_eq!(blocks[0].block_type, 0);
    assert!(!blocks[0].last);
    assert_eq!(blocks[1].block_type, 4);
    assert!(blocks[1].last);
}

#[test]
fn test_crc_vectors() {
    // Check values for ASCII "123456789": CRC-8/SMBUS (poly 0x07,
    // init 0, no reflection) and the non-reflected CRC-16 with
    // poly 0x8005 used by FLAC frame footers.
    assert_eq!(crc8(b"123456789"), 0xF4);
    assert_eq!(crc16(b"123456789"), 0xFEE8);
}

#[test]
fn test_frame_header_parse() {
    let hdr = synthetic_frame_header(0, 4095);
    let parsed = parse_frame_header(&hdr).expect("parse");
    assert_eq!(parsed.strategy, BlockingStrategy::Fixed);
    assert_eq!(parsed.coded_number, 0);
    assert_eq!(parsed.block_size, 4096);
    assert!(is_valid_flac_frame(&hdr));
    assert!(!is_valid_flac_frame(&[0xFF, 0xF8, 0x00]));
}

/// The remainder of a polynomial with coefficients of one bit, highest first,
/// by one of a degree and with the given lower coefficients.
fn remainder(mut bits: Vec<bool>, degree: usize, lower: u32) -> u32 {
    for at in 0..bits.len() - degree {
        if bits[at] {
            bits[at] = false;
            for k in 0..degree {
                bits[at + degree - k] ^= lower >> k & 1 == 1;
            }
        }
    }
    let rest = &bits[bits.len() - degree..];
    rest.iter().fold(0, |value, bit| value << 1 | u32::from(*bit))
}

/// A checksum is what is left of the message, raised by the degree, when it is
/// divided.
#[test]
fn checksums_are_remainders() {
    let messages: [&[u8]; 5] = [b"1", b"123456789", &[0, 0, 0], &[0xFF; 40], &[0, 0x80, 1]];
    for message in messages {
        let bits = |degree: usize| {
            let mut bits: Vec<bool> = message
                .iter()
                .flat_map(|byte| (0..8).rev().map(move |k| byte >> k & 1 == 1))
                .collect();
            bits.resize(bits.len() + degree, false);
            bits
        };
        assert_eq!(u32::from(crc8(message)), remainder(bits(8), 8, 0x07));
        assert_eq!(u32::from(crc16(message)), remainder(bits(16), 16, 0x8005));
        assert_eq!(crc32_bytes(message), remainder(bits(32), 32, 0x04C1_1DB7));
    }
    // The divisor leaves what it has below its degree.
    let power: Vec<bool> = (0..9).map(|k| k == 0).collect();
    assert_eq!(remainder(power, 8, 0x07), 0x07);
}
