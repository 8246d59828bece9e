use muxfin::api::VideoCodec;
use muxfin::codec::access_unit::{
    split_access_units, split_h264_access_units, split_hevc_access_units,
};

fn nal(prefix4: bool, header: u8, payload: &[u8]) -> Vec<u8> {
    let mut v = Vec::new();
    if prefix4 {
        v.extend_from_slice(&[0, 0, 0, 1]);
    } else {
        v.extend_from_slice(&[0, 0, 1]);
    }
    v.push(header);
    v.extend_from_slice(payload);
    v
}

#[test]
fn h264_aud_delimited() {
    let mut stream = Vec::new();
    // AU 1: AUD SPS PPS IDR
    stream.extend(nal(true, 0x09, &[0x10]));
    stream.extend(nal(true, 0x67, &[0x42]));
    stream.extend(nal(true, 0x68, &[0xce]));
    stream.extend(nal(true, 0x65, &[0x88]));
    // AU 2: AUD P-slice
    stream.extend(nal(true, 0x09, &[0x10]));
    stream.extend(nal(true, 0x41, &[0x9a]));
    let units = split_h264_access_units(&stream);
    assert_eq!(units.len(), 2);
    assert!(units[0].is_keyframe);
    assert!(!units[1].is_keyframe);
    assert_eq!(units.iter().map(|u| u.data.len()).sum::<usize>(), stream.len());
}

#[test]
fn h264_no_aud_splits_at_repeated_ps() {
    let mut stream = Vec::new();
    stream.extend(nal(true, 0x67, &[0x42]));
    stream.extend(nal(true, 0x68, &[0xce]));
    stream.extend(nal(true, 0x65, &[0x88]));
    stream.extend(nal(true, 0x67, &[0x42]));
    stream.extend(nal(true, 0x68, &[0xce]));
    stream.extend(nal(true, 0x41, &[0x9a]));
    let units = split_h264_access_units(&stream);
    assert_eq!(units.len(), 2);
    assert!(units[0].is_keyframe);
    assert!(!units[1].is_keyframe);
}

#[test]
fn h264_back_to_back_slices_split() {
    let mut stream = Vec::new();
    stream.extend(nal(true, 0x65, &[0x88]));
    stream.extend(nal(true, 0x41, &[0x9a]));
    let units = split_h264_access_units(&stream);
    assert_eq!(units.len(), 2);
}

#[test]
fn h264_suffix_sei_stays_with_picture() {
    let mut stream = Vec::new();
    stream.extend(nal(true, 0x65, &[0x88]));
    stream.extend(nal(true, 0x06, &[0x01])); // suffix SEI
    stream.extend(nal(true, 0x41, &[0x9a]));
    let units = split_h264_access_units(&stream);
    assert_eq!(units.len(), 2);
    // Suffix SEI belongs to the first picture.
    assert!(units[0].data.len() > units[1].data.len());
}

#[test]
fn h264_no_start_codes_yields_nothing() {
    assert!(split_h264_access_units(&[0x65, 0x88, 0x84]).is_empty());
    assert!(split_h264_access_units(&[]).is_empty());
}

#[test]
fn hevc_aud_delimited() {
    let mut stream = Vec::new();
    // VPS=32 -> header (32<<1)=0x40, SPS=33 -> 0x42, PPS=34 -> 0x44,
    // IDR_W_RADL=19 -> 0x26, TRAIL_R=1 -> 0x02, AUD=35 -> 0x46.
    stream.extend(nal(true, 0x46, &[0x01]));
    stream.extend(nal(true, 0x40, &[0x01]));
    stream.extend(nal(true, 0x42, &[0x01]));
    stream.extend(nal(true, 0x44, &[0x01]));
    stream.extend(nal(true, 0x26, &[0x01]));
    stream.extend(nal(true, 0x46, &[0x01]));
    stream.extend(nal(true, 0x02, &[0x01]));
    let units = split_hevc_access_units(&stream);
    assert_eq!(units.len(), 2);
    assert!(units[0].is_keyframe);
    assert!(!units[1].is_keyframe);
}

#[test]
fn dispatcher_covers_all_codecs() {
    let mut stream = Vec::new();
    stream.extend(nal(true, 0x65, &[0x88]));
    stream.extend(nal(true, 0x41, &[0x9a]));
    assert_eq!(split_access_units(VideoCodec::H264, &stream).len(), 2);
    let obu = [0x0a, 0x01, 0x02];
    assert_eq!(split_access_units(VideoCodec::Av1, &obu).len(), 1);
    assert!(split_access_units(VideoCodec::Vp9, &[]).is_empty());
}
