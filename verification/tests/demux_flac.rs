use muxfin::codec::flac::{build_streaminfo, crc16, synthetic_frame_header};
use muxfin::demux::flac::{demux_flac, FlacError};
use muxfin::seconds::Seconds;

fn seconds(time: Seconds) -> f64 {
    f64::from_bits(time.bits)
}

/// Build a minimal native FLAC stream: marker + STREAMINFO + frames
/// with zero payloads and valid CRC-16 footers.
fn synthetic_flac_stream(
    sample_rate: u32,
    channels: u8,
    block_size: u16,
    frame_count: u64,
) -> Vec<u8> {
    let mut data = Vec::from(b"fLaC".as_slice());
    let info = build_streaminfo(block_size, block_size, sample_rate, channels, 16, 0);
    data.extend_from_slice(&[0x80, 0x00, 0x00, 0x22]); // last, type 0, len 34
    data.extend_from_slice(&info);
    for frame_no in 0..frame_count {
        let hdr = synthetic_frame_header(frame_no, block_size - 1);
        // Frame = header + 8 payload bytes + CRC-16.
        let mut frame = hdr;
        frame.extend_from_slice(&[0x11, 0x22, 0x33, 0x44, 0x55, 0x66, 0x77, 0x88]);
        let crc = crc16(&frame);
        frame.extend_from_slice(&crc.to_be_bytes());
        data.extend_from_slice(&frame);
    }
    data
}

#[test]
fn test_demux_synthetic_stream() {
    // Note: synthetic headers use block code 0x7 (u16 extra), so any
    // u16 block size works; use 4096 @ 44100 Hz stereo.
    let data = synthetic_flac_stream(44_100, 2, 4096, 3);
    let stream = demux_flac(&data).expect("demux");
    assert_eq!(stream.streaminfo.sample_rate, 44_100);
    assert_eq!(stream.streaminfo.channels, 2);
    assert_eq!(stream.frames.len(), 3);
    assert_eq!(stream.frames[0].sample_number, 0);
    assert_eq!(stream.frames[1].sample_number, 4096);
    assert_eq!(stream.frames[2].sample_number, 8192);
    assert!((seconds(stream.frames[1].pts(44_100)) - 4096.0 / 44_100.0).abs() < 1e-9);
}

#[test]
fn test_demux_rejects_bad_marker() {
    assert!(matches!(demux_flac(&[]), Err(FlacError::Empty)));
    assert!(matches!(demux_flac(b"OggS...."), Err(FlacError::BadMarker)));
}

#[test]
fn test_demux_rejects_corrupt_frame() {
    let mut data = synthetic_flac_stream(48_000, 2, 4096, 2);
    // Corrupt a payload byte in the first frame (breaks CRC-16).
    let flip_at = data.len() - 20;
    data[flip_at] ^= 0xFF;
    assert!(matches!(
        demux_flac(&data),
        Err(FlacError::BadFrameChecksum { .. }) | Err(FlacError::Truncated { .. })
    ));
}

#[test]
fn test_demux_ignores_false_sync_in_payload() {
    let mut data = synthetic_flac_stream(48_000, 2, 4096, 2);
    // Synthetic frames here are 18 bytes (8 header + 8 payload + 2 CRC).
    // First frame starts after marker(4) + block header(4) + STREAMINFO(34).
    // Overwrite its first two payload bytes with a fake sync (0xFF 0xF9):
    // header parse there fails (bad CRC8), and the frame-slice CRC-16
    // would reject it even if it parsed.
    let frame = &mut data[42..60];
    frame[8] = 0xFF;
    frame[9] = 0xF9;
    let crc = crc16(&frame[..16]);
    frame[16..].copy_from_slice(&crc.to_be_bytes());
    let stream = demux_flac(&data).expect("demux");
    assert_eq!(stream.frames.len(), 2);
}
