//! Matroska files, byte for byte.

use muxfin::api::{
    AudioCodec, ContainerFormat, FrameRate, Metadata, MuxerBuilder, MuxerError, Seconds,
    SubtitleCodec, VideoCodec,
};

const KEY: [u8; 13] = [0x82, 0x49, 0x83, 0x42, 0x20, 0x06, 0x30, 0x06, 0x30, 0, 0, 0, 0];
const INTER: [u8; 4] = [0x84, 0x00, 0x00, 0x00];
const OPUS: [u8; 4] = [0xF8, 0x00, 0x01, 0x02];

fn at(seconds: f64) -> Seconds {
    Seconds { bits: seconds.to_bits() }
}

fn rate(framerate: f64) -> FrameRate {
    FrameRate { bits: framerate.to_bits() }
}

fn number(value: u64) -> Vec<u8> {
    let bytes = value.to_be_bytes();
    let first = bytes.iter().position(|&byte| byte != 0).unwrap_or(7);
    bytes[first..].to_vec()
}

fn element(id: u64, body: &[u8]) -> Vec<u8> {
    let length = body.len() as u64;
    let mut size = 1;
    while length >= (1 << (7 * size)) - 1 {
        size += 1;
    }
    let mut out = number(id);
    out.extend_from_slice(&((1u64 << (7 * size)) + length).to_be_bytes()[8 - size..]);
    out.extend_from_slice(body);
    out
}

fn number_element(id: u64, value: u64) -> Vec<u8> {
    element(id, &number(value))
}

fn text_element(id: u64, text: &str) -> Vec<u8> {
    let mut body = text.as_bytes().to_vec();
    body.push(0);
    element(id, &body)
}

/// A whole number in single precision where that is exact.
fn float_element(id: u64, value: f64) -> Vec<u8> {
    if f64::from(value as f32) == value {
        element(id, &(value as f32).to_be_bytes())
    } else {
        element(id, &value.to_be_bytes())
    }
}

fn head(doc_type: &str) -> Vec<u8> {
    let body = [
        number_element(0x42F2, 4),
        number_element(0x42F3, 8),
        text_element(0x4282, doc_type),
        number_element(0x4287, 4),
        number_element(0x4285, 2),
    ];
    element(0x1A45_DFA3, &body.concat())
}

struct Entry<'a> {
    number: u64,
    kind: u64,
    language: &'a str,
    codec: &'a str,
    delay: u64,
    pre_roll: u64,
    private: Option<Vec<u8>>,
    settings: Vec<u8>,
}

fn entry(track: Entry<'_>) -> Vec<u8> {
    let body = [
        number_element(0xD7, track.number),
        number_element(0x73C5, track.number),
        number_element(0x83, track.kind),
        number_element(0xB9, 1),
        number_element(0x88, 1),
        number_element(0x55AA, 0),
        number_element(0x9C, 0),
        number_element(0x55EE, 0),
        text_element(0x22_B59C, track.language),
        text_element(0x86, track.codec),
        number_element(0x56AA, track.delay),
        number_element(0x56BB, track.pre_roll),
        track.private.map_or(Vec::new(), |data| element(0x63A2, &data)),
        track.settings,
    ];
    element(0xAE, &body.concat())
}

fn video_settings(width: u64, height: u64) -> Vec<u8> {
    let body = [
        number_element(0x9A, 0),
        number_element(0x9D, 0),
        number_element(0x53B8, 0),
        number_element(0x53C0, 0),
        number_element(0xB0, width),
        number_element(0xBA, height),
        number_element(0x54AA, 0),
        number_element(0x54BB, 0),
        number_element(0x54CC, 0),
        number_element(0x54DD, 0),
        number_element(0x54B2, 0),
    ];
    element(0xE0, &body.concat())
}

fn audio_settings(rate: f64, channels: u64) -> Vec<u8> {
    let body =
        [float_element(0xB5, rate), number_element(0x9F, channels), number_element(0x52F1, 0)];
    element(0xE1, &body.concat())
}

fn opus_head(channels: u8) -> Vec<u8> {
    let mut out = b"OpusHead\x01".to_vec();
    out.push(channels);
    out.extend_from_slice(&312u16.to_le_bytes());
    out.extend_from_slice(&48_000u32.to_le_bytes());
    out.extend_from_slice(&[0, 0, 0]);
    out
}

fn payload(track: u8, time: i16, flags: u8, data: &[u8]) -> Vec<u8> {
    let mut out = vec![0x80 | track];
    out.extend_from_slice(&time.to_be_bytes());
    out.push(flags);
    out.extend_from_slice(data);
    out
}

fn simple_block(track: u8, time: i16, flags: u8, data: &[u8]) -> Vec<u8> {
    element(0xA3, &payload(track, time, flags, data))
}

fn block_group(block: &[u8], duration: Option<u64>, dependent: bool) -> Vec<u8> {
    let body = [
        element(0xA1, block),
        number_element(0xFA, 0),
        duration.map_or(Vec::new(), |ms| number_element(0x9B, ms)),
        if dependent { number_element(0xFB, 0) } else { Vec::new() },
    ];
    element(0xA0, &body.concat())
}

fn cue(time: u64, position: u64) -> Vec<u8> {
    let place = [
        number_element(0xF7, 1),
        number_element(0xF1, position),
        number_element(0xEA, 0),
    ];
    element(0xBB, &[number_element(0xB3, time), element(0xB7, &place.concat())].concat())
}

#[test]
fn three_tracks_in_two_clusters() {
    let metadata = Metadata::new().with_title("bytes").with_creation_time(978_307_201);
    let mut muxer = MuxerBuilder::new()
        .video(VideoCodec::Vp9, 100, 300, rate(30.0))
        .audio(AudioCodec::Opus, 48_000, 2)
        .subtitle(SubtitleCodec::MovText, Some("deu".to_string()))
        .with_metadata(metadata)
        .build_mkv()
        .unwrap();
    muxer.write_video(at(0.0), &KEY, &KEY, true, None).unwrap();
    muxer.write_audio(at(0.0), &OPUS, None).unwrap();
    muxer.write_subtitle(at(0.25), at(0.5), "text").unwrap();
    muxer.write_video(at(0.5), &INTER, &INTER, false, None).unwrap();
    muxer.write_video(at(1.0), &KEY, &KEY, true, None).unwrap();
    let file = muxer.finish().unwrap();

    let info = [
        number_element(0x2A_D7B1, 1_000_000),
        text_element(0x4D80, "muxfin-0.2.2"),
        text_element(0x5741, "muxfin-0.2.2"),
        float_element(0x4489, 1500.0),
        element(0x4461, &1_000_000_000i64.to_be_bytes()),
        text_element(0x7BA9, "bytes"),
    ];
    let tracks = [
        entry(Entry {
            number: 1,
            kind: 1,
            language: "und",
            codec: "V_VP9",
            delay: 0,
            pre_roll: 0,
            private: None,
            settings: video_settings(100, 300),
        }),
        entry(Entry {
            number: 2,
            kind: 2,
            language: "und",
            codec: "A_OPUS",
            delay: 6_500_000,
            pre_roll: 80_000_000,
            private: Some(opus_head(2)),
            settings: audio_settings(48_000.0, 2),
        }),
        entry(Entry {
            number: 3,
            kind: 17,
            language: "deu",
            codec: "S_TEXT/UTF8",
            delay: 0,
            pre_roll: 0,
            private: None,
            settings: Vec::new(),
        }),
    ];
    let front = [element(0x1549_A966, &info.concat()), element(0x1654_AE6B, &tracks.concat())];
    let front = front.concat();
    let first = [
        number_element(0xE7, 0),
        simple_block(1, 0, 0x80, &KEY),
        simple_block(2, 0, 0, &OPUS),
        block_group(&payload(3, 250, 0, b"text"), Some(500), true),
        block_group(&payload(1, 500, 0, &INTER), Some(500), true),
    ];
    let first = element(0x1F43_B675, &first.concat());
    let second = [number_element(0xE7, 1000), simple_block(1, 0, 0x80, &KEY)];
    let second = element(0x1F43_B675, &second.concat());
    let cues = [
        cue(0, front.len() as u64),
        cue(1000, (front.len() + first.len()) as u64),
    ];
    let segment = [front, first, second, element(0x1C53_BB6B, &cues.concat())];
    let expected = [head("matroska"), element(0x1853_8067, &segment.concat())];
    assert_eq!(file, expected.concat());
}

/// Numbers of every width: a sample rate that single precision does not hold,
/// a frame longer than two length bytes count, and a late time.
#[test]
fn wide_numbers() {
    let mut long = KEY.to_vec();
    long.resize(20_000, 0xA5);
    let mut muxer = MuxerBuilder::new()
        .video(VideoCodec::Vp9, 70_000, 5, rate(30.0))
        .audio(AudioCodec::Opus, 16_777_217, 1)
        .with_container(ContainerFormat::WebM)
        .build_mkv()
        .unwrap();
    muxer.write_video(at(100_000.0), &long, &long, true, None).unwrap();
    muxer.write_audio(at(100_000.001), &OPUS, None).unwrap();
    let file = muxer.finish().unwrap();

    let settings = audio_settings(16_777_217.0, 1);
    assert!(file.windows(settings.len()).any(|bytes| bytes == settings));
    let settings = video_settings(70_000, 5);
    assert!(file.windows(settings.len()).any(|bytes| bytes == settings));
    let cluster = [
        number_element(0xE7, 100_000_000),
        simple_block(1, 0, 0x80, &long),
        simple_block(2, 1, 0, &OPUS),
    ];
    let cluster = element(0x1F43_B675, &cluster.concat());
    assert!(file.windows(cluster.len()).any(|bytes| bytes == cluster));
    assert!(file.starts_with(&head("webm")));
}

/// The length 127 takes two bytes.
#[test]
fn the_length_that_looks_unknown() {
    let mut frame = KEY.to_vec();
    frame.resize(123, 0x5A);
    let mut muxer = MuxerBuilder::new()
        .video(VideoCodec::Vp9, 100, 100, rate(30.0))
        .build_mkv()
        .unwrap();
    muxer.write_video(at(0.0), &frame, &frame, true, None).unwrap();
    let file = muxer.finish().unwrap();
    let block = simple_block(1, 0, 0x80, &frame);
    assert_eq!(&block[..3], &[0xA3, 0x40, 0x7F]);
    assert!(file.windows(block.len()).any(|bytes| bytes == block));
}

#[test]
fn a_file_is_written_once() {
    let mut muxer = MuxerBuilder::new()
        .video(VideoCodec::Vp9, 100, 100, rate(30.0))
        .build_mkv()
        .unwrap();
    muxer.write_video(at(0.0), &KEY, &KEY, true, None).unwrap();
    let (file, stats) = muxer.finish_in_place_with_stats().unwrap();
    assert_eq!(stats.bytes_written, file.len() as u64);
    assert_eq!(stats.video_frames, 1);
    assert!(matches!(muxer.finish_in_place(), Err(MuxerError::AlreadyFinished)));
    assert!(matches!(
        muxer.write_video(at(1.0), &KEY, &KEY, true, None),
        Err(MuxerError::AlreadyFinished)
    ));
}
