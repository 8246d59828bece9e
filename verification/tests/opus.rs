use muxfin::codec::opus::{
    is_valid_opus_packet, opus_frame_count, opus_frame_duration_from_toc, opus_packet_samples,
    OpusConfig, OpusConfigError, OpusFrameDuration,
};

#[test]
fn test_opus_config_default() {
    let config = OpusConfig::default();
    assert_eq!(config.version, 0);
    assert_eq!(config.output_channel_count, 2);
    assert_eq!(config.pre_skip, 312);
    assert_eq!(config.input_sample_rate, 48000);
    assert_eq!(config.output_gain, 0);
    assert_eq!(config.channel_mapping_family, 0);
}

#[test]
fn test_opus_config_mono() {
    let config = OpusConfig::mono();
    assert_eq!(config.output_channel_count, 1);
}

#[test]
fn test_opus_config_stereo() {
    let config = OpusConfig::stereo();
    assert_eq!(config.output_channel_count, 2);
}

#[test]
fn test_opus_frame_duration_samples() {
    assert_eq!(OpusFrameDuration::Ms2_5.samples(), 120);
    assert_eq!(OpusFrameDuration::Ms5.samples(), 240);
    assert_eq!(OpusFrameDuration::Ms10.samples(), 480);
    assert_eq!(OpusFrameDuration::Ms20.samples(), 960);
    assert_eq!(OpusFrameDuration::Ms40.samples(), 1920);
    assert_eq!(OpusFrameDuration::Ms60.samples(), 2880);
}

#[test]
fn test_opus_frame_duration_from_toc_silk() {
    // SILK-only NB (config 0-3): 10, 20, 40, 60 ms
    assert_eq!(
        opus_frame_duration_from_toc(0b0000_0000), // config 0
        Some(OpusFrameDuration::Ms10)
    );
    assert_eq!(
        opus_frame_duration_from_toc(0b0001_1000), // config 3
        Some(OpusFrameDuration::Ms60)
    );
    // SILK-only MB (config 4-7): 10, 20, 40, 60 ms
    assert_eq!(
        opus_frame_duration_from_toc(0b0010_0000), // config 4
        Some(OpusFrameDuration::Ms10)
    );
    assert_eq!(
        opus_frame_duration_from_toc(0b0011_1000), // config 7
        Some(OpusFrameDuration::Ms60)
    );
    // SILK-only WB (config 8-11): 10, 20, 40, 60 ms
    assert_eq!(
        opus_frame_duration_from_toc(0b0100_0000), // config 8
        Some(OpusFrameDuration::Ms10)
    );
    assert_eq!(
        opus_frame_duration_from_toc(0b0101_1000), // config 11
        Some(OpusFrameDuration::Ms60)
    );
}

#[test]
fn test_opus_frame_duration_from_toc_celt() {
    // CELT-only NB (config 16-19): 2.5, 5, 10, 20 ms
    assert_eq!(
        opus_frame_duration_from_toc(0b1000_0000), // config 16
        Some(OpusFrameDuration::Ms2_5)
    );
    assert_eq!(
        opus_frame_duration_from_toc(0b1000_1000), // config 17
        Some(OpusFrameDuration::Ms5)
    );
    assert_eq!(
        opus_frame_duration_from_toc(0b1001_0000), // config 18
        Some(OpusFrameDuration::Ms10)
    );
    // CELT-only FB (config 28-31): 2.5, 5, 10, 20 ms
    assert_eq!(
        opus_frame_duration_from_toc(0b1110_0000), // config 28
        Some(OpusFrameDuration::Ms2_5)
    );
    assert_eq!(
        opus_frame_duration_from_toc(0b1111_1000), // config 31
        Some(OpusFrameDuration::Ms20)
    );
}

#[test]
fn test_opus_frame_duration_from_toc_hybrid() {
    // Hybrid SWB/FB (config 12-15): 10, 20 ms
    assert_eq!(
        opus_frame_duration_from_toc(0b0110_0000), // config 12
        Some(OpusFrameDuration::Ms10)
    );
    assert_eq!(
        opus_frame_duration_from_toc(0b0111_1000), // config 15
        Some(OpusFrameDuration::Ms20)
    );
}

#[test]
fn test_opus_frame_count_single() {
    // TOC with code 0 = 1 frame
    let packet = vec![0b0000_0000, 0x01, 0x02, 0x03];
    assert_eq!(opus_frame_count(&packet), Some((1, false)));
}

#[test]
fn test_opus_frame_count_double_equal() {
    // TOC with code 1 = 2 frames, equal size
    let packet = vec![0b0000_0001, 0x01, 0x02, 0x03];
    assert_eq!(opus_frame_count(&packet), Some((2, false)));
}

#[test]
fn test_opus_frame_count_double_different() {
    // TOC with code 2 = 2 frames, different sizes
    let packet = vec![0b0000_0010, 0x01, 0x02, 0x03];
    assert_eq!(opus_frame_count(&packet), Some((2, true)));
}

#[test]
fn test_opus_frame_count_arbitrary() {
    // TOC with code 3 = N frames, count in second byte
    let packet = vec![0b0000_0011, 0b0000_0100]; // 4 frames, CBR
    assert_eq!(opus_frame_count(&packet), Some((4, false)));

    let packet_vbr = vec![0b0000_0011, 0b1000_0100]; // 4 frames, VBR
    assert_eq!(opus_frame_count(&packet_vbr), Some((4, true)));
}

#[test]
fn test_opus_packet_samples() {
    // SILK MB 10ms frame (config=4), 1 frame (code=0)
    // TOC: config=4 (bits 3-7 = 0b00100), s=0, c=0
    // Binary: 0b00100_0_00 = 0x20 = 32
    let packet = vec![0x20, 0x01, 0x02, 0x03];
    assert_eq!(opus_packet_samples(&packet), Some(480));

    // SILK MB 10ms frame (config=4), 2 frames (code=1)
    // TOC: config=4 (bits 3-7 = 0b00100), s=0, c=1
    // Binary: 0b00100_0_01 = 0x21 = 33
    let packet2 = vec![0x21, 0x01, 0x02, 0x03];
    assert_eq!(opus_packet_samples(&packet2), Some(960));
}

#[test]
fn test_opus_functions_handle_bad_input_gracefully() {
    // Empty packet should return None, not panic
    assert_eq!(opus_frame_count(&[]), None);
    assert_eq!(opus_packet_samples(&[]), None);

    // Valid TOC config should work
    let valid_toc = vec![0xFF]; // config=31 (CELT-only FB 20ms), valid
    assert_eq!(
        opus_frame_duration_from_toc(valid_toc[0]),
        Some(OpusFrameDuration::Ms20)
    );
    // But packet is too short for frame count
    assert_eq!(opus_packet_samples(&valid_toc), None);

    // Code 3 with count == 0 should return None
    let invalid_code3 = vec![0x03, 0x00]; // code=3, count=0
    assert_eq!(opus_frame_count(&invalid_code3), None);
    assert_eq!(opus_packet_samples(&invalid_code3), None);
}

#[test]
fn test_is_valid_opus_packet() {
    // Valid: config=4 (SILK MB 10ms), code=0 (1 frame)
    assert!(is_valid_opus_packet(&[0x20, 0x01, 0x02]));
    assert!(!is_valid_opus_packet(&[]));
}

#[test]
fn test_predefined_layouts_validate() {
    // Mono/stereo: family 0, no extended mapping.
    for channels in [1u8, 2] {
        let cfg = OpusConfig::from_channel_count(channels).unwrap();
        assert_eq!(cfg.channel_mapping_family, 0);
        assert!(cfg.validate().is_ok());
    }
    // Family-1 Vorbis-order tables.
    let layouts: &[(u8, u8, u8, &[u8])] = &[
        (3, 2, 1, &[0, 2, 1]),
        (4, 2, 2, &[0, 1, 2, 3]),
        (5, 3, 2, &[0, 4, 1, 2, 3]),
        (6, 4, 2, &[0, 4, 1, 2, 3, 5]),
    ];
    for (channels, streams, coupled, mapping) in layouts {
        let cfg = OpusConfig::from_channel_count(*channels).unwrap();
        assert_eq!(cfg.channel_mapping_family, 1);
        assert_eq!(cfg.stream_count, Some(*streams));
        assert_eq!(cfg.coupled_count, Some(*coupled));
        assert_eq!(cfg.channel_mapping.as_deref(), Some(*mapping));
        assert!(cfg.validate().is_ok());
    }
    assert_eq!(
        OpusConfig::from_channel_count(0).unwrap_err(),
        OpusConfigError::UnsupportedChannelCount(0)
    );
    assert_eq!(
        OpusConfig::from_channel_count(7).unwrap_err(),
        OpusConfigError::UnsupportedChannelCount(7)
    );
    // Named constructors agree with the table.
    assert_eq!(
        OpusConfig::surround_51().channel_mapping.as_deref(),
        Some([0, 4, 1, 2, 3, 5].as_slice())
    );
    assert_eq!(
        OpusConfig::quad().channel_mapping.as_deref(),
        Some([0, 1, 2, 3].as_slice())
    );
    assert!(OpusConfig::three().validate().is_ok());
    assert!(OpusConfig::five().validate().is_ok());
    // with_channels now resolves full layouts, keeping pre-skip.
    let cfg = OpusConfig::default().with_pre_skip(100).with_channels(6);
    assert_eq!(cfg.pre_skip, 100);
    assert_eq!(
        cfg.channel_mapping.as_deref(),
        Some([0, 4, 1, 2, 3, 5].as_slice())
    );
    assert!(cfg.validate().is_ok());
}

#[test]
fn test_validate_rejects_bad_configs() {
    // Family 0 with 6 channels.
    let bad = OpusConfig {
        output_channel_count: 6,
        ..Default::default()
    };
    assert_eq!(
        bad.validate(),
        Err(OpusConfigError::FamilyZeroTooManyChannels(6))
    );
    // Family 0 carrying a mapping table.
    let bad = OpusConfig {
        channel_mapping: Some(vec![0, 1]),
        ..Default::default()
    };
    assert_eq!(bad.validate(), Err(OpusConfigError::FamilyZeroWithMapping));
    // Family 1 without counts.
    let bad = OpusConfig::default().with_channels(6);
    let mut bad = bad;
    bad.stream_count = None;
    assert_eq!(bad.validate(), Err(OpusConfigError::MissingStreamCounts));
    // Coupled exceeds streams.
    let bad = OpusConfig::default().with_channel_mapping(1, 1, 2, vec![0, 1]);
    assert_eq!(
        bad.validate(),
        Err(OpusConfigError::CoupledExceedsStreams {
            streams: 1,
            coupled: 2
        })
    );
    // Mapping length mismatch.
    let bad = OpusConfig::default().with_channel_mapping(1, 2, 1, vec![0, 1, 2]);
    assert_eq!(
        bad.validate(),
        Err(OpusConfigError::MappingLength {
            channels: 2,
            entries: 3
        })
    );
    // Entry outside decoded range (streams + coupled = 3, entry 7 illegal).
    let bad = OpusConfig::default().with_channel_mapping(1, 2, 1, vec![0, 7]);
    assert_eq!(
        bad.validate(),
        Err(OpusConfigError::MappingEntryOutOfRange {
            entry: 7,
            decoded: 3
        })
    );
    // 255 means silent and is always legal.
    let ok = OpusConfig::default().with_channel_mapping(1, 2, 1, vec![0, 255]);
    assert!(ok.validate().is_ok());
    // Only version 0 is defined.
    let bad = OpusConfig {
        version: 1,
        ..Default::default()
    };
    assert_eq!(bad.validate(), Err(OpusConfigError::UnsupportedVersion(1)));
}
