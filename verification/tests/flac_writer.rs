use muxfin::api::AudioCodec;
use muxfin::codec::flac::{
    build_streaminfo, crc16, crc8, synthetic_frame_header, STREAMINFO_LEN,
};
use muxfin::demux::flac::{demux_flac, FlacError};
use muxfin::muxer::flac::{vorbis_comment_payload, FlacWriter, FlacWriterError};
use muxfin::muxer::mp4::Mp4AudioTrack;

fn test_streaminfo() -> [u8; STREAMINFO_LEN] {
    // 4096-block stereo 44.1 kHz 16-bit (totals recomputed at finalize).
    build_streaminfo(4096, 4096, 44_100, 2, 16, 0)
}

fn enable(writer: &mut FlacWriter, streaminfo: &[u8]) {
    writer.enable_audio(Mp4AudioTrack {
        sample_rate: 44_100,
        channels: 2,
        codec: AudioCodec::Flac,
        flac_streaminfo: Some(streaminfo.to_vec()),
        opus_preskip: None,
        aac_asc_override: None,
        opus_config_override: None,
        language: None,
    });
}

/// One synthetic frame: valid header + filler payload + footer CRC-16.
fn frame(frame_number: u64, payload_len: usize) -> Vec<u8> {
    let mut data = synthetic_frame_header(frame_number, 4095);
    data.extend(std::iter::repeat_n(0xABu8, payload_len));
    let crc = crc16(&data);
    data.extend_from_slice(&crc.to_be_bytes());
    data
}

#[test]
fn rejects_missing_streaminfo() {
    let mut writer = FlacWriter::new();
    writer.enable_audio(Mp4AudioTrack {
        sample_rate: 44_100,
        channels: 2,
        codec: AudioCodec::Flac,
        flac_streaminfo: None,
        opus_preskip: None,
        aac_asc_override: None,
        opus_config_override: None,
        language: None,
    });
    assert!(matches!(
        writer.write_audio_sample(0, &frame(0, 8)),
        Err(FlacWriterError::MissingStreaminfo)
    ));
}

#[test]
fn rejects_bad_footer_crc() {
    let mut writer = FlacWriter::new();
    enable(&mut writer, &test_streaminfo());
    let mut bad = frame(0, 8);
    let last = bad.len() - 1;
    bad[last] ^= 0xFF;
    assert!(matches!(
        writer.write_audio_sample(0, &bad),
        Err(FlacWriterError::InvalidFlacFrame)
    ));
}

#[test]
fn vorbis_comment_layout() {
    let payload = vorbis_comment_payload(Some("take 5"));
    // vendor "muxfin" + 1 comment "TITLE=take 5".
    assert!(payload.windows(6).any(|w| w == b"muxfin"));
    assert!(payload.windows(12).any(|w| w == b"TITLE=take 5"));
    let empty = vorbis_comment_payload(None);
    // 4 (vendor len) + 6 ("muxfin") + 4 (zero comments).
    assert_eq!(empty.len(), 14);
    assert_eq!(u32::from_le_bytes(empty[10..14].try_into().unwrap()), 0);
}

/// A frame whose header starts with the given bytes and names 4096 samples,
/// with some further bytes of a sample rate.
fn named_frame(rate: u8, layout: u8, extra: &[u8]) -> Vec<u8> {
    let mut data = vec![0xFF, 0xF8, 0x70 | rate, layout, 0, 0x0F, 0xFF];
    data.extend_from_slice(extra);
    let check = crc8(&data);
    data.push(check);
    data.extend_from_slice(&[0xAB; 8]);
    let crc = crc16(&data);
    data.extend_from_slice(&crc.to_be_bytes());
    data
}

/// A header may name the rate, the channels and the depth that STREAMINFO
/// has, and no others.
#[test]
fn frames_keep_to_streaminfo() {
    // 44.1 kHz, by number and spelled out, in hertz and tens of hertz; left
    // and side; 16 bits.
    let kept: [(u8, u8, &[u8]); 5] = [
        (9, 0x18, &[]),
        (13, 0x10, &[0xAC, 0x44]),
        (14, 0x10, &[0x11, 0x3A]),
        (0, 0x88, &[]),
        (0, 0xA0, &[]),
    ];
    for (rate, layout, extra) in kept {
        let data = named_frame(rate, layout, extra);
        let mut writer = FlacWriter::new();
        enable(&mut writer, &test_streaminfo());
        writer.write_audio_sample(0, &data).unwrap();
        let mut stream = Vec::from(b"fLaC\x80\x00\x00\x22".as_slice());
        stream.extend_from_slice(&test_streaminfo());
        stream.extend_from_slice(&data);
        assert_eq!(demux_flac(&stream).unwrap().frames.len(), 1);
    }
    // 48 kHz, 44 kHz and 44101 Hz; one channel and three; 24 bits and 8.
    let refused: [(u8, u8, &[u8]); 7] = [
        (10, 0x10, &[]),
        (12, 0x10, &[44]),
        (13, 0x10, &[0xAC, 0x45]),
        (0, 0x00, &[]),
        (0, 0x20, &[]),
        (0, 0x1C, &[]),
        (0, 0x12, &[]),
    ];
    for (rate, layout, extra) in refused {
        let data = named_frame(rate, layout, extra);
        let mut writer = FlacWriter::new();
        enable(&mut writer, &test_streaminfo());
        assert!(matches!(
            writer.write_audio_sample(0, &data),
            Err(FlacWriterError::InconsistentFrame)
        ));
        let mut stream = Vec::from(b"fLaC\x80\x00\x00\x22".as_slice());
        stream.extend_from_slice(&test_streaminfo());
        stream.extend_from_slice(&data);
        assert!(matches!(
            demux_flac(&stream),
            Err(FlacError::InconsistentFrame { frame: 0 })
        ));
    }
}
