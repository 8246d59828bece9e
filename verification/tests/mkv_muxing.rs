//! Matroska and WebM files, read back with an independent demuxer: tracks,
//! codec names, private data and frames come back as they were written.

use matroska_demuxer::{Frame, MatroskaFile, TrackType};
use muxfin::api::{
    AacProfile, AudioCodec, ContainerFormat, FrameRate, MkvMuxer, MuxerBuilder, MuxerError,
    SubtitleCodec, VideoCodec,
};
use muxfin::codec::ass::{codec_private_from_script, parse_dialogue_events};
use muxfin::seconds::Seconds;
use std::io::Cursor;
use std::str::FromStr;

fn at(seconds: f64) -> Seconds {
    Seconds { bits: seconds.to_bits() }
}

fn rate(framerate: f64) -> FrameRate {
    FrameRate { bits: framerate.to_bits() }
}

/// The units behind the four-byte start codes of a stream.
fn units(stream: &[u8]) -> Vec<&[u8]> {
    let mut starts = Vec::new();
    let mut i = 0;
    while i + 4 <= stream.len() {
        if stream[i..i + 4] == [0, 0, 0, 1] {
            starts.push(i + 4);
            i += 4;
        } else {
            i += 1;
        }
    }
    let mut out = Vec::new();
    for (k, &start) in starts.iter().enumerate() {
        let end = match starts.get(k + 1) {
            Some(next) => next - 4,
            None => stream.len(),
        };
        out.push(&stream[start..end]);
    }
    out
}

/// A frame as the file stores it: each unit behind its length.
fn length_prefixed(stream: &[u8]) -> Vec<u8> {
    let mut out = Vec::new();
    for unit in units(stream) {
        out.extend_from_slice(&(unit.len() as u32).to_be_bytes());
        out.extend_from_slice(unit);
    }
    out
}

/// The decoder configuration record of an H.264 keyframe.
fn avc_record(stream: &[u8]) -> Option<Vec<u8>> {
    let all = units(stream);
    let sps = all.iter().find(|unit| unit[0] & 0x1F == 7)?;
    let pps = all.iter().find(|unit| unit[0] & 0x1F == 8)?;
    let mut out = vec![1, sps[1], sps[2], sps[3], 0xFF, 0xE1];
    out.extend_from_slice(&(sps.len() as u16).to_be_bytes());
    out.extend_from_slice(sps);
    out.push(1);
    out.extend_from_slice(&(pps.len() as u16).to_be_bytes());
    out.extend_from_slice(pps);
    Some(out)
}

/// The decoder configuration record of an AV1 keyframe: the marker, and the
/// sequence header behind it.
fn av1_record(frame: &[u8]) -> Vec<u8> {
    let mut out = vec![0x81, 0x00, 0x0C, 0x00];
    out.extend_from_slice(&frame[..2 + usize::from(frame[1])]);
    out
}

fn write_h264(
    muxer: &mut MkvMuxer,
    pts: f64,
    frame: &[u8],
    is_keyframe: bool,
) -> Result<(), MuxerError> {
    let record = avc_record(frame);
    muxer.write_video(at(pts), frame, &length_prefixed(frame), is_keyframe, record.as_deref())
}

fn write_h264_with_dts(
    muxer: &mut MkvMuxer,
    pts: f64,
    dts: f64,
    frame: &[u8],
    is_keyframe: bool,
) -> Result<(), MuxerError> {
    let record = avc_record(frame);
    muxer.write_video_with_dts(
        at(pts),
        at(dts),
        frame,
        &length_prefixed(frame),
        is_keyframe,
        record.as_deref(),
    )
}

fn write_plain(
    muxer: &mut MkvMuxer,
    pts: f64,
    frame: &[u8],
    record: Option<&[u8]>,
) -> Result<(), MuxerError> {
    muxer.write_video(at(pts), frame, frame, true, record)
}

/// Minimal H.264 keyframe (SPS + PPS + IDR) in Annex B format.
fn build_h264_keyframe() -> Vec<u8> {
    let mut data = Vec::new();
    data.extend_from_slice(&[
        0x00, 0x00, 0x00, 0x01, 0x67, 0x42, 0x00, 0x1e, 0xab, 0x40, 0xf0, 0x28, 0xd0,
    ]);
    data.extend_from_slice(&[0x00, 0x00, 0x00, 0x01, 0x68, 0xce, 0x38, 0x80]);
    data.extend_from_slice(&[0x00, 0x00, 0x00, 0x01, 0x65, 0x88, 0x84, 0x00, 0x10]);
    data
}

/// Minimal H.264 P-frame (non-IDR slice) in Annex B format.
fn build_h264_pframe() -> Vec<u8> {
    vec![0x00, 0x00, 0x00, 0x01, 0x61, 0x88, 0x84, 0x00, 0x10]
}

/// Minimal Opus packet (SILK 20ms, stereo, 1 frame).
fn build_opus_packet() -> Vec<u8> {
    vec![0x24, 0xc0, 0x00, 0x01, 0x02, 0x03, 0x04, 0x05]
}

/// Minimal VP9 keyframe with an uncompressed header (100x100).
///
/// Bit layout (MSB-first): frame_marker=0b10, profile=0,
/// show_existing_frame=0, frame_type=0 (KEY), show_frame=1,
/// error_resilient=0, sync_code=0x498342, color_space=1 (BT.601),
/// studio range, 4:2:0, width-1/height-1 as u16.
fn build_vp9_keyframe() -> Vec<u8> {
    let mut data = vec![0x82, 0x49, 0x83, 0x42, 0x20, 0x06, 0x30, 0x06, 0x30];
    data.extend_from_slice(&[0x00, 0x00, 0x00, 0x00]);
    data
}

/// Minimal AV1 keyframe: Sequence Header OBU + Frame OBU.
fn build_av1_keyframe() -> Vec<u8> {
    let mut data = vec![0x0A, 12];
    data.extend_from_slice(&[
        0x00, 0x00, 0x00, 0x10, 0x07, 0x80, 0x04, 0x38, 0x00, 0x00, 0x00, 0x00,
    ]);
    data.extend_from_slice(&[0x32, 4, 0x10, 0x00, 0x00, 0x00]);
    data
}

fn open_demuxed(bytes: &[u8]) -> MatroskaFile<Cursor<&[u8]>> {
    MatroskaFile::open(Cursor::new(bytes)).expect("produced file must demux")
}

/// matroska-demuxer preserves the EBML null terminator on strings.
fn clean(s: &str) -> &str {
    s.trim_end_matches('\0')
}

#[test]
fn mkv_starts_with_ebml_magic_and_matroska_doctype() {
    let mut muxer = MuxerBuilder::new()
        .video(VideoCodec::H264, 640, 480, rate(30.0))
        .build_mkv()
        .unwrap();
    write_h264(&mut muxer, 0.0, &build_h264_keyframe(), true)
        .unwrap();
    let produced = muxer.finish().unwrap();
    assert!(
        produced.starts_with(&[0x1A, 0x45, 0xDF, 0xA3]),
        "MKV must start with the EBML magic"
    );
    assert!(
        produced.windows(8).any(|w| w == b"matroska"),
        "EBML header must declare DocType matroska"
    );
}

#[test]
fn mkv_opus_head_roundtrip() {
    let mut muxer = MuxerBuilder::new()
        .video(VideoCodec::H264, 640, 480, rate(30.0))
        .audio(AudioCodec::Opus, 48_000, 2)
        .build_mkv()
        .unwrap();

    write_h264(&mut muxer, 0.0, &build_h264_keyframe(), true)
        .unwrap();
    let packet = build_opus_packet();
    muxer.write_audio(at(0.0), &packet, None).unwrap();
    muxer.write_audio(at(0.02), &packet, None).unwrap();
    let produced = muxer.finish().unwrap();
    let mkv = open_demuxed(&produced);
    let audio = mkv
        .tracks()
        .iter()
        .find(|t| t.track_type() == TrackType::Audio)
        .expect("audio track");
    assert_eq!(clean(audio.codec_id()), "A_OPUS");
    let private = audio.codec_private().expect("OpusHead CodecPrivate");
    assert_eq!(&private[..8], b"OpusHead");
    assert_eq!(private[9], 2, "channel count must round-trip");
}

#[test]
fn webm_vp9_opus_roundtrip() {
    let mut muxer = MuxerBuilder::new()
        .video(VideoCodec::Vp9, 100, 100, rate(30.0))
        .audio(AudioCodec::Opus, 48_000, 2)
        .with_container(ContainerFormat::WebM)
        .build_mkv()
        .unwrap();
    assert_eq!(muxer.container(), ContainerFormat::WebM);

    write_plain(&mut muxer, 0.0, &build_vp9_keyframe(), None).unwrap();
    let packet = build_opus_packet();
    muxer.write_audio(at(0.0), &packet, None).unwrap();
    let produced = muxer.finish().unwrap();
    assert!(
        produced.windows(4).any(|w| w == b"webm"),
        "EBML header must declare DocType webm"
    );

    let mkv = open_demuxed(&produced);
    assert_eq!(clean(mkv.ebml_header().doc_type()), "webm");
    let video = mkv
        .tracks()
        .iter()
        .find(|t| t.track_type() == TrackType::Video)
        .expect("video track");
    assert_eq!(clean(video.codec_id()), "V_VP9");
    assert!(
        video.codec_private().is_none(),
        "V_VP9 carries no CodecPrivate"
    );
}

#[test]
fn webm_av1_roundtrip() {
    let mut muxer = MuxerBuilder::new()
        .video(VideoCodec::Av1, 1920, 1080, rate(30.0))
        .with_container(ContainerFormat::WebM)
        .build_mkv()
        .unwrap();

    write_plain(&mut muxer, 0.0, &build_av1_keyframe(), Some(&av1_record(&build_av1_keyframe()))).unwrap();
    let produced = muxer.finish().unwrap();
    let mkv = open_demuxed(&produced);
    let video = mkv
        .tracks()
        .iter()
        .find(|t| t.track_type() == TrackType::Video)
        .expect("video track");
    assert_eq!(clean(video.codec_id()), "V_AV1");
    // av1C payload: marker byte 0x81 first.
    let private = video.codec_private().expect("av1C CodecPrivate");
    assert_eq!(private[0], 0x81);
}

#[test]
fn webm_rejects_h264() {
    let mut muxer = MuxerBuilder::new()
        .video(VideoCodec::H264, 640, 480, rate(30.0))
        .with_container(ContainerFormat::WebM)
        .build_mkv()
        .unwrap();
    write_h264(&mut muxer, 0.0, &build_h264_keyframe(), true)
        .unwrap();
    let err = muxer.finish().unwrap_err().message("");
    assert!(
        err.contains("WebM"),
        "error must mention WebM, got: {}",
        err
    );
}

#[test]
fn webm_rejects_aac() {
    let mut muxer = MuxerBuilder::new()
        .video(VideoCodec::Vp9, 100, 100, rate(30.0))
        .audio(AudioCodec::Aac(AacProfile::Lc), 48_000, 2)
        .with_container(ContainerFormat::WebM)
        .build_mkv()
        .unwrap();
    write_plain(&mut muxer, 0.0, &build_vp9_keyframe(), None).unwrap();
    let err = muxer.finish().unwrap_err().message("");
    assert!(
        err.contains("Opus"),
        "error must suggest Opus, got: {}",
        err
    );
}

#[test]
fn webm_rejects_subtitles() {
    let mut muxer = MuxerBuilder::new()
        .video(VideoCodec::Vp9, 100, 100, rate(30.0))
        .subtitle(SubtitleCodec::MovText, Some("eng".to_string()))
        .with_container(ContainerFormat::WebM)
        .build_mkv()
        .unwrap();
    write_plain(&mut muxer, 0.0, &build_vp9_keyframe(), None).unwrap();
    muxer.write_subtitle(at(0.0), at(1.0), "hello").unwrap();
    let err = muxer.finish().unwrap_err().message("");
    assert!(
        err.contains("WebM"),
        "error must mention WebM, got: {}",
        err
    );
}

#[test]
fn mkv_subtitle_track_roundtrip() {
    let mut muxer = MuxerBuilder::new()
        .video(VideoCodec::H264, 640, 480, rate(30.0))
        .subtitle(SubtitleCodec::MovText, Some("eng".to_string()))
        .build_mkv()
        .unwrap();

    write_h264(&mut muxer, 0.0, &build_h264_keyframe(), true)
        .unwrap();
    muxer.write_subtitle(at(0.5), at(2.0), "hello world").unwrap();
    let produced = muxer.finish().unwrap();
    let mkv = open_demuxed(&produced);
    let subtitle_no: u64;
    {
        let subtitle = mkv
            .tracks()
            .iter()
            .find(|t| t.track_type() == TrackType::Subtitle)
            .expect("subtitle track");
        assert_eq!(clean(subtitle.codec_id()), "S_TEXT/UTF8");
        subtitle_no = subtitle.track_number().get();
    }

    let mut mkv = mkv;
    let mut frame = Frame::default();
    let mut saw_subtitle = false;
    while mkv.next_frame(&mut frame).unwrap() {
        if frame.track == subtitle_no {
            saw_subtitle = true;
            assert_eq!(frame.data, b"hello world");
        }
        frame = Frame::default();
    }
    assert!(saw_subtitle, "subtitle block must round-trip");
}

#[test]
fn mkv_bframes_with_dts_roundtrip() {
    let mut muxer = MuxerBuilder::new()
        .video(VideoCodec::H264, 640, 480, rate(30.0))
        .build_mkv()
        .unwrap();

    // Decode order I P B with presentation I B P.
    let key = build_h264_keyframe();
    let p = build_h264_pframe();
    write_h264_with_dts(&mut muxer, 0.0, 0.0, &key, true).unwrap();
    write_h264_with_dts(&mut muxer, 0.066, 0.033, &p, false).unwrap();
    write_h264_with_dts(&mut muxer, 0.033, 0.066, &p, false).unwrap();
    let produced = muxer.finish().unwrap();
    let mut mkv = open_demuxed(&produced);
    let mut frame = Frame::default();
    let mut count = 0;
    while mkv.next_frame(&mut frame).unwrap() {
        count += 1;
        frame = Frame::default();
    }
    assert_eq!(count, 3);
}

#[test]
fn mkv_validation_mirrors_mp4() {
    // First frame must be a keyframe.
    let mut muxer = MuxerBuilder::new()
        .video(VideoCodec::H264, 640, 480, rate(30.0))
        .build_mkv()
        .unwrap();
    let err = write_h264(&mut muxer, 0.0, &build_h264_pframe(), false)
        .unwrap_err().message("");
    assert!(err.contains("must be a keyframe"), "got: {}", err);

    // Non-increasing PTS rejected.
    let mut muxer = MuxerBuilder::new()
        .video(VideoCodec::H264, 640, 480, rate(30.0))
        .build_mkv()
        .unwrap();
    write_h264(&mut muxer, 0.0, &build_h264_keyframe(), true)
        .unwrap();
    let err = write_h264(&mut muxer, 0.0, &build_h264_pframe(), false)
        .unwrap_err().message("");
    assert!(err.contains("not greater"), "got: {}", err);

    // Subtitle requires video.
    let err = match MuxerBuilder::new()
        .subtitle(SubtitleCodec::MovText, None)
        .build_mkv()
    {
        Ok(_) => panic!("subtitle without video must fail"),
        Err(e) => e.message(""),
    };
    assert!(err.contains("subtitle"), "got: {}", err);
}

#[test]
fn mkv_container_format_parsing() {
    assert_eq!(
        ContainerFormat::from_str("mkv").unwrap(),
        ContainerFormat::Matroska
    );
    assert_eq!(
        ContainerFormat::from_str("webm").unwrap(),
        ContainerFormat::WebM
    );
    assert_eq!(
        ContainerFormat::from_str("mp4").unwrap(),
        ContainerFormat::Mp4
    );
    assert_eq!(ContainerFormat::Matroska.extension(), "mkv");
    assert!(ContainerFormat::WebM.is_matroska_family());
    assert!(!ContainerFormat::Mp4.is_matroska_family());
}

const ASS_SCRIPT: &str = "[Script Info]\nTitle: ass-test\nScriptType: v4.00+\n\n[V4+ Styles]\nFormat: Name, Fontname, Fontsize\nStyle: Default,Arial,20\n\n[Events]\nFormat: Layer, Start, End, Style, Name, MarginL, MarginR, MarginV, Effect, Text\nDialogue: 0,0:00:01.00,0:00:02.50,Default,,0,0,0,,{\\b1}Hi\\Nthere\nDialogue: 1,0:00:03.00,0:00:04.00,Default,Narrator,10,10,10,Banner,Second line\n";

#[test]
fn mkv_ass_track_roundtrip() {
    let codec_private = codec_private_from_script(ASS_SCRIPT).expect("styles section");
    let mut muxer = MuxerBuilder::new()
        .video(VideoCodec::H264, 640, 480, rate(30.0))
        .with_ass_codec_private(codec_private.clone())
        .subtitle(SubtitleCodec::Ass, Some("eng".to_string()))
        .build_mkv()
        .unwrap();

    write_h264(&mut muxer, 0.0, &build_h264_keyframe(), true)
        .unwrap();
    let events = parse_dialogue_events(ASS_SCRIPT);
    assert_eq!(events.len(), 2);
    muxer.write_ass_event(at(1.0), at(1.5), 1, &events[0]).unwrap();
    muxer.write_ass_event(at(3.0), at(1.0), 2, &events[1]).unwrap();
    let produced = muxer.finish().unwrap();
    let mkv = open_demuxed(&produced);
    let subtitle_no: u64;
    let private: Vec<u8>;
    {
        let subtitle = mkv
            .tracks()
            .iter()
            .find(|t| t.track_type() == TrackType::Subtitle)
            .expect("subtitle track");
        assert_eq!(clean(subtitle.codec_id()), "S_TEXT/ASS");
        private = subtitle.codec_private().unwrap_or(&[]).to_vec();
        subtitle_no = subtitle.track_number().get();
    }
    assert_eq!(private, codec_private, "CodecPrivate must round-trip");

    let mut mkv = mkv;
    let mut frame = Frame::default();
    let mut blocks = Vec::new();
    while mkv.next_frame(&mut frame).unwrap() {
        if frame.track == subtitle_no {
            blocks.push(String::from_utf8(frame.data.clone()).unwrap());
        }
        frame = Frame::default();
    }
    assert_eq!(blocks.len(), 2);
    assert_eq!(blocks[0], "1,0,Default,,0,0,0,,{\\b1}Hi\\Nthere");
    assert_eq!(
        blocks[1],
        "2,1,Default,Narrator,10,10,10,Banner,Second line"
    );
}

#[test]
fn mkv_ass_requires_codec_private() {
    let result = MuxerBuilder::new()
        .video(VideoCodec::H264, 640, 480, rate(30.0))
        .subtitle(SubtitleCodec::Ass, Some("eng".to_string()))
        .build_mkv();
    let err = match result {
        Ok(_) => panic!("ASS without CodecPrivate must fail"),
        Err(e) => e,
    };
    assert!(
        err.message("").contains("CodecPrivate"),
        "unexpected: {err:?}"
    );
}

#[test]
fn mp4_rejects_ass_subtitles() {
    let result = MuxerBuilder::new()
        .video(VideoCodec::H264, 640, 480, rate(30.0))
        .subtitle(SubtitleCodec::Ass, Some("eng".to_string()))
        .build();
    let err = match result {
        Ok(_) => panic!("ASS in MP4 must fail"),
        Err(e) => e,
    };
    assert!(err.message("").contains("Matroska"), "unexpected: {err:?}");
}

#[test]
fn mkv_write_ass_event_rejected_on_utf8_track() {
    let mut muxer = MuxerBuilder::new()
        .video(VideoCodec::H264, 640, 480, rate(30.0))
        .subtitle(SubtitleCodec::MovText, Some("eng".to_string()))
        .build_mkv()
        .unwrap();
    write_h264(&mut muxer, 0.0, &build_h264_keyframe(), true)
        .unwrap();
    let events = parse_dialogue_events(ASS_SCRIPT);
    let err = muxer
        .write_ass_event(at(1.0), at(1.5), 1, &events[0])
        .expect_err("write_ass_event on UTF8 track must fail");
    assert!(
        err.message("").contains("SubtitleNotConfigured")
            || err.message("").contains("not configured"),
        "unexpected: {err:?}"
    );
}
