//! Matroska files from samples with whole ticks: frames out of decode order,
//! and tracks with clocks of their own.

use matroska_demuxer::{Frame, MatroskaFile};
use muxfin::api::{
    AacProfile, AudioCodec, ContainerFormat, FrameRate, InputFault, MkvMuxer, MuxerBuilder,
    MuxerError, SubtitleCodec, VideoCodec,
};
use muxfin::muxer::mkv::MkvWriterError;
use muxfin::time::{EncodedSample, Limits, SampleTime, SubtitleCue};
use std::io::Cursor;

const KEY: &[u8] = &[0x82, 0x49, 0x83, 0x42, 0x20, 0x06, 0x30, 0x06, 0x30, 0, 0, 0, 0];
const INTER: &[u8] = &[0x84, 0x00, 0x00, 0x00];
const ADTS: &[u8] = &[0xff, 0xf1, 0x50, 0x80, 0x01, 0x3f, 0xfc, 0xaa, 0xbb];

fn builder() -> MuxerBuilder {
    MuxerBuilder::new().video(
        VideoCodec::Vp9,
        100,
        80,
        FrameRate { bits: 30.0f64.to_bits() },
    )
}

fn timing(pts: i64, dts: i64, duration: u32) -> SampleTime {
    SampleTime { pts, dts, duration }
}

fn write_video(
    muxer: &mut MkvMuxer,
    data: &[u8],
    timing: SampleTime,
    is_sync: bool,
) -> Result<(), MuxerError> {
    muxer.write_video_sample(EncodedSample { data, timing, is_sync }, data, None)
}

fn write_audio(muxer: &mut MkvMuxer, timing: SampleTime) -> Result<(), MuxerError> {
    let sample = EncodedSample { data: ADTS, timing, is_sync: true };
    muxer.write_audio_sample(sample, Some(&ADTS[7..]))
}

/// The track, time and bytes of each frame of a file.
fn frames(file: Vec<u8>) -> Vec<(u64, u64, Vec<u8>)> {
    let mut reader = MatroskaFile::open(Cursor::new(file)).unwrap();
    let mut frame = Frame::default();
    let mut out = Vec::new();
    while reader.next_frame(&mut frame).unwrap() {
        out.push((frame.track, frame.timestamp, frame.data.clone()));
        frame = Frame::default();
    }
    out
}

/// The second and third frames are decoded in this order and shown in the
/// other.
#[test]
fn frames_are_stored_in_decode_order() {
    let mut muxer = builder().build_mkv().unwrap();
    write_video(&mut muxer, KEY, timing(0, 0, 9000), true).unwrap();
    write_video(&mut muxer, INTER, timing(18_000, 9_000, 9000), false).unwrap();
    write_video(&mut muxer, INTER, timing(9_000, 18_000, 9000), false).unwrap();
    write_video(&mut muxer, INTER, timing(27_000, 27_000, 9000), false).unwrap();
    let times: Vec<u64> =
        frames(muxer.finish().unwrap()).iter().map(|(_, time, _)| *time).collect();
    assert_eq!(times, [0, 200, 100, 300]);
}

/// An H.264 frame that is shown before the one decoded in front of it.
#[test]
fn a_frame_may_be_shown_before_the_one_in_front_of_it() {
    let mut muxer = MuxerBuilder::new()
        .video(VideoCodec::H264, 640, 480, FrameRate { bits: 30.0f64.to_bits() })
        .build_mkv()
        .unwrap();
    let sps = [0x67, 0x42, 0x00, 0x1e, 0xda, 0x02, 0x80, 0x2d, 0x8b, 0x11];
    let pps = [0x68, 0xce, 0x38, 0x80];
    let record = [
        &[1, 0x42, 0x00, 0x1e, 0xFF, 0xE1, 0, 10][..],
        &sps,
        &[1, 0, 4],
        &pps,
    ]
    .concat();
    let stored = [0, 0, 0, 5, 0x65, 0x88, 0x84, 0x00, 0x11];
    let key = [&[0, 0, 0, 1][..], &sps, &[0, 0, 0, 1], &pps, &[0, 0, 0, 1], &stored[4..]].concat();
    let slice = [0, 0, 0, 1, 0x41, 0x9a, 0x11, 0x22];
    let stored_slice = [0, 0, 0, 4, 0x41, 0x9a, 0x11, 0x22];
    let first = EncodedSample { data: &key, timing: timing(0, 0, 3000), is_sync: true };
    muxer.write_video_sample(first, &stored, Some(&record)).unwrap();
    for (pts, dts) in [(6000, 3000), (3000, 6000)] {
        let sample =
            EncodedSample { data: &slice, timing: timing(pts, dts, 3000), is_sync: false };
        assert!(muxer.write_video_sample(sample, &stored_slice, None).is_ok());
    }
    let times: Vec<u64> =
        frames(muxer.finish().unwrap()).iter().map(|(_, time, _)| *time).collect();
    assert_eq!(times, [0, 66, 33]);
}

#[test]
fn video_samples_follow_the_rules_of_the_track() {
    let mut muxer = builder().build_mkv().unwrap();
    assert!(matches!(
        write_video(&mut muxer, KEY, timing(0, 0, 0), true),
        Err(MuxerError::ZeroDuration)
    ));
    assert!(write_video(&mut muxer, KEY, timing(-1, 0, 3000), true).is_err());
    assert!(write_video(&mut muxer, KEY, timing(0, -1, 3000), true).is_err());
    assert!(matches!(
        write_video(&mut muxer, INTER, timing(0, 0, 3000), false),
        Err(MuxerError::FirstVideoFrameMustBeKeyframe)
    ));
    write_video(&mut muxer, KEY, timing(3000, 3000, 3000), true).unwrap();
    // Decode times grow strictly, whatever the times of showing do.
    assert!(matches!(
        write_video(&mut muxer, INTER, timing(6000, 3000, 3000), false),
        Err(MuxerError::NonIncreasingIntDts { .. })
    ));
    assert!(matches!(
        write_video(&mut muxer, INTER, timing(9000, 0, 3000), false),
        Err(MuxerError::NonIncreasingIntDts { .. })
    ));
    write_video(&mut muxer, INTER, timing(9000, 6000, 3000), false).unwrap();
    assert_eq!(frames(muxer.finish().unwrap()).len(), 2);

    let limits = Limits { max_sample_size: 8, ..Limits::default() };
    let mut muxer = builder().with_limits(limits).build_mkv().unwrap();
    assert!(matches!(
        write_video(&mut muxer, KEY, timing(0, 0, 3000), true),
        Err(MuxerError::ResourceLimitExceeded { .. })
    ));
}

/// 44100 ticks of a track at 44.1 kHz are one second.
#[test]
fn audio_ticks_are_those_of_the_track() {
    let mut muxer = builder()
        .audio(AudioCodec::Aac(AacProfile::Lc), 44_100, 2)
        .build_mkv()
        .unwrap();
    write_video(&mut muxer, KEY, timing(0, 0, 90_000), true).unwrap();
    assert!(matches!(
        write_audio(&mut muxer, timing(0, 0, 0)),
        Err(MuxerError::ZeroDuration)
    ));
    write_audio(&mut muxer, timing(0, 0, 1024)).unwrap();
    write_audio(&mut muxer, timing(44_100, 44_100, 1024)).unwrap();
    write_audio(&mut muxer, timing(66_150, 66_150, 1024)).unwrap();
    assert!(matches!(
        write_audio(&mut muxer, timing(44_100, 44_100, 1024)),
        Err(MuxerError::DecreasingAudioPts { .. })
    ));
    let heard: Vec<(u64, Vec<u8>)> = frames(muxer.finish().unwrap())
        .into_iter()
        .filter(|(track, _, _)| *track != 1)
        .map(|(_, time, data)| (time, data))
        .collect();
    let payload = ADTS[7..].to_vec();
    assert_eq!(heard, [(0, payload.clone()), (1000, payload.clone()), (1500, payload)]);

    let limits = Limits { max_sample_size: 8, ..Limits::default() };
    let mut muxer = MuxerBuilder::new()
        .audio(AudioCodec::Aac(AacProfile::Lc), 44_100, 2)
        .with_limits(limits)
        .build_mkv()
        .unwrap();
    assert!(matches!(
        write_audio(&mut muxer, timing(0, 0, 1024)),
        Err(MuxerError::ResourceLimitExceeded { what: "audio sample" })
    ));
}

/// 250 ticks of a track with 500 ticks a second are half a second.
#[test]
fn cue_ticks_are_those_of_the_track() {
    let mut muxer = builder()
        .subtitle_with_timescale(SubtitleCodec::MovText, Some("eng".to_string()), 500)
        .build_mkv()
        .unwrap();
    write_video(&mut muxer, KEY, timing(0, 0, 90_000), true).unwrap();
    muxer.write_subtitle_cue(SubtitleCue { start: 250, duration: 100, text: "one" }).unwrap();
    muxer.write_subtitle_cue(SubtitleCue { start: 750, duration: 100, text: "two" }).unwrap();
    assert!(matches!(
        muxer.write_subtitle_cue(SubtitleCue { start: 900, duration: 0, text: "three" }),
        Err(MuxerError::ZeroDuration)
    ));
    let shown: Vec<(u64, Vec<u8>)> = frames(muxer.finish().unwrap())
        .into_iter()
        .filter(|(track, _, _)| *track != 1)
        .map(|(_, time, data)| (time, data))
        .collect();
    assert_eq!(shown, [(500, b"one".to_vec()), (1500, b"two".to_vec())]);

    let limits = Limits { max_subtitle_size: 4, ..Limits::default() };
    let mut muxer = builder()
        .subtitle(SubtitleCodec::MovText, None)
        .with_limits(limits)
        .build_mkv()
        .unwrap();
    assert!(matches!(
        muxer.write_subtitle_cue(SubtitleCue { start: 0, duration: 1, text: "three" }),
        Err(MuxerError::SubtitleTooLarge(5))
    ));
}

/// A finish that fails is the last one too, and leaves the rest as it was.
#[test]
fn a_failed_finish_is_final() {
    let mut muxer = builder()
        .audio(AudioCodec::Aac(AacProfile::Lc), 44_100, 2)
        .with_container(ContainerFormat::WebM)
        .build_mkv()
        .unwrap();
    write_video(&mut muxer, KEY, timing(0, 0, 3000), true).unwrap();
    assert!(matches!(
        muxer.finish_in_place_with_stats(),
        Err(MuxerError::UnsupportedForContainer { .. })
    ));
    assert_eq!(muxer.container(), ContainerFormat::WebM);
    for _ in 0..2 {
        assert!(matches!(
            muxer.finish_in_place(),
            Err(MuxerError::Io(InputFault::Matroska(MkvWriterError::FinalizedTwice)))
        ));
    }
    assert!(matches!(
        write_video(&mut muxer, INTER, timing(3000, 3000, 3000), false),
        Err(MuxerError::AlreadyFinished)
    ));
}
