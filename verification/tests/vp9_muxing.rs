use muxfin::codec::vp9::{extract_vp9_config, is_valid_vp9_frame, is_vp9_keyframe};

/// Build a minimal VP9 keyframe with an uncompressed header.
///
/// Bit layout (MSB-first):
/// frame_marker=0b10, profile=0, show_existing_frame=0, frame_type=0 (KEY),
/// show_frame=1, error_resilient=0, sync_code=0x498342, color_space=1 (BT.601),
/// studio range, 4:2:0, width-1/height-1 as u16, render size = frame size.
fn build_vp9_keyframe() -> Vec<u8> {
    // 100x100, profile 0.
    let mut data = vec![0x82, 0x49, 0x83, 0x42, 0x20, 0x06, 0x30, 0x06, 0x30];
    // Minimal compressed payload (opaque to the muxer).
    data.extend_from_slice(&[0x00, 0x00, 0x00, 0x00]);
    data
}

/// Build a minimal VP9 inter frame.
///
/// `0x84` = marker `0b10`, profile 0, show_existing_frame=0,
/// frame_type=1 (INTER), show_frame=0, error_resilient=0.
fn build_vp9_pframe() -> Vec<u8> {
    vec![0x84, 0x00, 0x00, 0x00]
}

#[test]
fn vp9_config_extraction_works() {
    let keyframe = build_vp9_keyframe();
    let config = extract_vp9_config(&keyframe).unwrap();

    assert_eq!(config.width, 100);
    assert_eq!(config.height, 100);
    assert_eq!(config.profile, 0);
    assert_eq!(config.bit_depth, 8);
    assert_eq!(config.chroma_subsampling, 1); // 4:2:0
    assert_eq!(config.video_full_range_flag, 0);
    assert_eq!(config.colour_primaries, 5); // BT.601
    assert_eq!(config.transfer_characteristics, 6);
    assert_eq!(config.matrix_coefficients, 5);
}

#[test]
fn vp9_keyframe_detection_works() {
    let keyframe = build_vp9_keyframe();
    assert!(is_vp9_keyframe(&keyframe).unwrap());

    let pframe = build_vp9_pframe();
    assert!(!is_vp9_keyframe(&pframe).unwrap());
}

#[test]
fn vp9_rejects_legacy_fake_marker_prefix() {
    // The bits of the sync code bytes begin with frame marker 01, which is
    // invalid. Keyframes start with 0x82.
    let fake = [0x49, 0x83, 0x42, 0x00, 0x00, 0x00];
    assert!(is_vp9_keyframe(&fake).is_err());
    assert!(!is_valid_vp9_frame(&fake));
}
