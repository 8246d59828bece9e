use muxfin::codec::vp9::{
    chroma_subsampling, extract_vp9_config, is_valid_vp9_frame, is_vp9_keyframe,
    level_for_resolution, vpcc_payload, Vp9Config, Vp9Error,
};

/// Real-shape VP9 keyframe: profile 0, show_frame, 8-bit, BT.601,
/// studio range, 4:2:0, 320x240. Bytes after the render-size flag are
/// irrelevant to the parser.
const KEYFRAME_320X240: &[u8] = &[0x82, 0x49, 0x83, 0x42, 0x20, 0x13, 0xF0, 0x0E, 0xF0, 0x00];

#[test]
fn test_rejects_empty() {
    assert!(matches!(is_vp9_keyframe(&[]), Err(Vp9Error::FrameTooShort)));
    assert!(!is_valid_vp9_frame(&[]));
    assert!(extract_vp9_config(&[]).is_none());
}

#[test]
fn test_rejects_bad_marker() {
    // First two bits 00, not 0b10.
    let bad = [0x00, 0x00, 0x00, 0x00];
    assert!(matches!(
        is_vp9_keyframe(&bad),
        Err(Vp9Error::InvalidFrameMarker)
    ));
    assert!(!is_valid_vp9_frame(&bad));
    assert!(extract_vp9_config(&bad).is_none());
}

#[test]
fn test_rejects_old_style_fake_marker_prefix() {
    // The outdated assumption was that frames *start* with the sync
    // code bytes. Those bytes decode as marker 01 -> invalid.
    let fake = [0x49, 0x83, 0x42, 0x00, 0x00, 0x00];
    assert!(matches!(
        is_vp9_keyframe(&fake),
        Err(Vp9Error::InvalidFrameMarker)
    ));
    assert!(!is_valid_vp9_frame(&fake));
}

#[test]
fn test_parses_real_keyframe() {
    assert_eq!(is_vp9_keyframe(KEYFRAME_320X240), Ok(true));
    assert!(is_valid_vp9_frame(KEYFRAME_320X240));
    let config = extract_vp9_config(KEYFRAME_320X240).expect("config");
    assert_eq!(config.width, 320);
    assert_eq!(config.height, 240);
    assert_eq!(config.profile, 0);
    assert_eq!(config.bit_depth, 8);
    assert_eq!(config.chroma_subsampling, 1);
    assert_eq!(config.video_full_range_flag, 0);
    assert_eq!(config.colour_primaries, 5);
    assert_eq!(config.transfer_characteristics, 6);
    assert_eq!(config.matrix_coefficients, 5);
    assert_eq!(config.level, 20);
}

#[test]
fn test_interframe_is_not_keyframe() {
    // 0b10 marker, profile 0, show_existing 0, frame_type 1 (inter).
    let inter = [0x84, 0x00, 0x00, 0x00];
    assert_eq!(is_vp9_keyframe(&inter), Ok(false));
    assert!(is_valid_vp9_frame(&inter));
    assert!(extract_vp9_config(&inter).is_none());
}

#[test]
fn test_show_existing_is_not_keyframe() {
    // 0b10 marker, profile 0, show_existing 1, index 0.
    let show_existing = [0x88, 0x00, 0x00, 0x00];
    assert_eq!(is_vp9_keyframe(&show_existing), Ok(false));
    assert!(is_valid_vp9_frame(&show_existing));
    assert!(extract_vp9_config(&show_existing).is_none());
}

/// Real libvpx keyframe header (ffmpeg `testsrc` 320x240, profile 1,
/// sRGB): exercises the profile-1 reserved bit after `color_space = 7`.
/// Trailing bytes are the start of the compressed payload.
const LIBVPX_KEYFRAME_PREFIX: &[u8] = &[
    0xa2, 0x49, 0x83, 0x42, 0xe0, 0x13, 0xf0, 0x0e, 0xf6, 0x0a, 0x38, 0x24, 0x1c, 0x18, 0x4a,
    0x00,
];

#[test]
fn test_parses_libvpx_profile1_srgb_keyframe() {
    assert_eq!(is_vp9_keyframe(LIBVPX_KEYFRAME_PREFIX), Ok(true));
    let config = extract_vp9_config(LIBVPX_KEYFRAME_PREFIX).expect("config");
    assert_eq!((config.width, config.height), (320, 240));
    assert_eq!(config.profile, 1);
    assert_eq!(config.bit_depth, 8);
    assert_eq!(config.chroma_subsampling, 3); // sRGB implies 4:4:4
    assert_eq!(config.video_full_range_flag, 1);
    assert_eq!(config.matrix_coefficients, 0); // RGB
}

#[test]
fn test_rejects_bad_sync_code() {
    let mut bad_sync = KEYFRAME_320X240.to_vec();
    bad_sync[1] = 0x00;
    assert!(matches!(
        is_vp9_keyframe(&bad_sync),
        Err(Vp9Error::InvalidSyncCode)
    ));
    assert!(!is_valid_vp9_frame(&bad_sync));
    assert!(extract_vp9_config(&bad_sync).is_none());
}

#[test]
fn test_vpcc_payload_layout() {
    let config = Vp9Config {
        width: 320,
        height: 240,
        profile: 0,
        level: 20,
        bit_depth: 8,
        chroma_subsampling: 1,
        video_full_range_flag: 0,
        colour_primaries: 1,
        transfer_characteristics: 1,
        matrix_coefficients: 1,
    };
    let payload = vpcc_payload(&config);
    assert_eq!(payload, vec![1, 0, 0, 0, 0, 20, 0x82, 1, 1, 1, 0, 0]);
}

#[test]
fn test_level_table() {
    assert_eq!(level_for_resolution(100, 100), 10);
    assert_eq!(level_for_resolution(320, 240), 20);
    assert_eq!(level_for_resolution(1920, 1080), 40);
    assert_eq!(level_for_resolution(3840, 2160), 50);
}

#[test]
fn test_chroma_subsampling_codes() {
    assert_eq!(chroma_subsampling(true, true), 1);
    assert_eq!(chroma_subsampling(true, false), 2);
    assert_eq!(chroma_subsampling(false, false), 3);
    assert_eq!(chroma_subsampling(false, true), 0);
}
