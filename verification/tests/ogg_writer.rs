use muxfin::api::{AudioCodec, Metadata, OpusConfig};
use muxfin::demux::ogg::demux_ogg_opus;
use muxfin::muxer::mp4::Mp4AudioTrack;
use muxfin::muxer::ogg::{
    ogg_crc, opus_head_packet, opus_tags_packet, resolve_opus_config, write_page, OggWriter,
    MAX_PACKET_LEN,
};

#[test]
fn crc32_check_value() {
    // Same Ogg CRC-32 as the demuxer: poly 0x04C11DB7, init 0.
    assert_eq!(ogg_crc(b"123456789"), 0x89A1_897F);
}

#[test]
fn head_layout_family0() {
    let config = OpusConfig::default();
    let head = opus_head_packet(&config);
    assert_eq!(head.len(), 19);
    assert_eq!(&head[..8], b"OpusHead");
    assert_eq!(head[8], 1); // OpusHead version
    assert_eq!(head[9], 2);
    assert_eq!(u16::from_le_bytes([head[10], head[11]]), 312);
    assert_eq!(
        u32::from_le_bytes([head[12], head[13], head[14], head[15]]),
        48_000
    );
    assert_eq!(head[18], 0); // mapping family
}

#[test]
fn head_layout_family1() {
    let config = OpusConfig::surround_51().with_pre_skip(120);
    let head = opus_head_packet(&config);
    // 19 + stream/coupled counts + 6 mapping entries.
    assert_eq!(head.len(), 27);
    assert_eq!(head[18], 1);
    assert_eq!(head[19], 4); // streams
    assert_eq!(head[20], 2); // coupled
    assert_eq!(&head[21..], &[0, 4, 1, 2, 3, 5]);
}

#[test]
fn resolve_rejects_bad_channels() {
    fn track_with(channels: u16) -> Mp4AudioTrack {
        Mp4AudioTrack {
            sample_rate: 48_000,
            channels,
            codec: AudioCodec::Opus,
            flac_streaminfo: None,
            opus_preskip: None,
            aac_asc_override: None,
            opus_config_override: None,
            language: None,
        }
    }
    assert!(resolve_opus_config(&track_with(0)).is_err());
    assert!(resolve_opus_config(&track_with(7)).is_err());
    // Sanity: 1-2 channels resolve.
    assert!(resolve_opus_config(&track_with(1)).is_ok());
    assert!(resolve_opus_config(&track_with(2)).is_ok());
}

#[test]
fn page_lacing_exact_multiple_of_255() {
    // A 510-byte packet needs lacing [255, 255, 0]: the terminating
    // zero segment keeps the packet end unambiguous.
    let mut out = Vec::new();
    let packet = vec![0u8; 510];
    write_page(&mut out, 0x00, 0, 0, &[&packet]);
    let n_segments = out[26] as usize;
    assert_eq!(n_segments, 3);
    assert_eq!(&out[27..30], &[255, 255, 0]);
    // CRC still verifies (zeroed field + recompute).
    let stored = u32::from_le_bytes(out[22..26].try_into().unwrap());
    let mut check = out.clone();
    check[22..26].fill(0);
    assert_eq!(ogg_crc(&check), stored);
}

#[test]
fn finalize_empty_stream_terminates_on_tags() {
    let mut writer = OggWriter::new();
    writer.enable_audio(Mp4AudioTrack {
        sample_rate: 48_000,
        channels: 2,
        codec: AudioCodec::Opus,
        flac_streaminfo: None,
        opus_preskip: None,
        aac_asc_override: None,
        opus_config_override: None,
        language: None,
    });
    writer.finalize(None).expect("finalize");
    assert_eq!(writer.audio_sample_count(), 0);
    assert!(writer.bytes_written() > 0);
}

/// The longest title that fits a page, and more packets than a page takes.
#[test]
fn long_titles_and_many_packets() {
    let title = "t".repeat(MAX_PACKET_LEN - 32);
    assert_eq!(opus_tags_packet(Some(&title)).len(), MAX_PACKET_LEN);
    let mut writer = OggWriter::new();
    writer.enable_audio(Mp4AudioTrack {
        sample_rate: 48_000,
        channels: 1,
        codec: AudioCodec::Opus,
        flac_streaminfo: None,
        opus_preskip: Some(120),
        aac_asc_override: None,
        opus_config_override: None,
        language: None,
    });
    let packet = |k: u8| [0xF8, k, 0x01, 0x02];
    for k in 0..120 {
        writer.write_audio_sample(960 * u64::from(k), &packet(k)).unwrap();
        assert_eq!(writer.total_samples_48k(), 960 * (u64::from(k) + 1));
    }
    let file = writer.finalize(Some(&Metadata::new().with_title(&title))).unwrap();
    let track = demux_ogg_opus(&file).unwrap();
    assert_eq!((track.channels, track.pre_skip, track.input_sample_rate), (1, 120, 48_000));
    assert_eq!(track.packets.len(), 120);
    for (k, read) in track.packets.iter().enumerate() {
        assert_eq!(read.data, packet(k as u8));
    }
}
