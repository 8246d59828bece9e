//! Integer times, explicit durations, subtitles and limits.

use muxfin::api::{FrameRate, Muxer, MuxerBuilder, MuxerError, Seconds, SubtitleCodec, VideoCodec};
use muxfin::time::{
    EncodedSample, LanguageCode, Limits, SampleTime, SubtitleCue, Timescale, SUBTITLE_TIMESCALE,
    VIDEO_TIMESCALE,
};

fn at(seconds: f64) -> Seconds {
    Seconds { bits: seconds.to_bits() }
}

fn rate(framerate: f64) -> FrameRate {
    FrameRate { bits: framerate.to_bits() }
}

fn h264_keyframe() -> Vec<u8> {
    vec![
        0, 0, 0, 1, 0x67, 0x42, 0x00, 0x1e, 0xda, 0x02, 0x80, 0x2d, 0x8b, 0x11, // SPS
        0, 0, 0, 1, 0x68, 0xce, 0x38, 0x80, // PPS
        0, 0, 0, 1, 0x65, 0x88, 0x84, 0x00, 0x11, 0x22, // IDR
    ]
}

fn h264_inter() -> Vec<u8> {
    vec![0, 0, 0, 1, 0x41, 0x9a, 0x11, 0x22, 0x33]
}

/// Writes a video sample, and lets the box writer take it.
fn write_video_sample(muxer: &mut Muxer, sample: EncodedSample<'_>) -> Result<(), MuxerError> {
    let write = muxer.write_video_sample(sample)?;
    muxer.video_written(write, Ok(()))
}

/// Writes a video frame, and lets the box writer take it.
fn write_video(muxer: &mut Muxer, pts: f64, data: &[u8]) -> Result<(), MuxerError> {
    let write = muxer.write_video(at(pts), data, true)?;
    muxer.video_written(write, Ok(()))
}

/// Writes a cue, and lets the box writer take it.
fn write_subtitle_cue(muxer: &mut Muxer, cue: SubtitleCue<'_>) -> Result<(), MuxerError> {
    let (write, _) = muxer.write_subtitle_cue(cue)?;
    muxer.subtitle_written(write, Ok(()))
}

#[test]
fn integer_video_sample_with_explicit_duration() {
    let (mut muxer, _) = MuxerBuilder::new()
        .video(VideoCodec::H264, 640, 480, rate(30.0))
        .build()
        .unwrap();
    // 29.97fps-style duration 3003 ticks at 90kHz is exact (f64 would quantize).
    write_video_sample(
        &mut muxer,
        EncodedSample {
            data: &h264_keyframe(),
            timing: SampleTime::new(0, 0, 3003).unwrap(),
            is_sync: true,
        },
    )
    .unwrap();
    write_video_sample(
        &mut muxer,
        EncodedSample {
            data: &h264_inter(),
            timing: SampleTime::new(3003, 3003, 3003).unwrap(),
            is_sync: false,
        },
    )
    .unwrap();
}

#[test]
fn verdict_hardening_zero_duration_rejected() {
    let (mut muxer, _) = MuxerBuilder::new()
        .video(VideoCodec::H264, 640, 480, rate(30.0))
        .build()
        .unwrap();
    assert!(SampleTime::new(0, 0, 0).is_err());
    // Bypass constructor: zero duration via struct literal must still fail at write.
    let err = write_video_sample(
        &mut muxer,
        EncodedSample {
            data: &h264_keyframe(),
            timing: SampleTime { pts: 0, dts: 0, duration: 0 },
            is_sync: true,
        },
    )
    .unwrap_err();
    assert!(matches!(err, MuxerError::ZeroDuration));
}

#[test]
fn integer_dts_must_increase() {
    let (mut muxer, _) = MuxerBuilder::new()
        .video(VideoCodec::H264, 640, 480, rate(30.0))
        .build()
        .unwrap();
    write_video_sample(
        &mut muxer,
        EncodedSample {
            data: &h264_keyframe(),
            timing: SampleTime::new(0, 0, 3000).unwrap(),
            is_sync: true,
        },
    )
    .unwrap();
    let err = write_video_sample(
        &mut muxer,
        EncodedSample {
            data: &h264_inter(),
            timing: SampleTime::new(3000, 0, 3000).unwrap(),
            is_sync: false,
        },
    )
    .unwrap_err();
    assert!(matches!(err, MuxerError::NonIncreasingIntDts { .. }));
}

#[test]
fn subtitle_final_cue_keeps_own_duration() {
    let (mut muxer, _) = MuxerBuilder::new()
        .video(VideoCodec::H264, 640, 480, rate(30.0))
        .subtitle(SubtitleCodec::MovText, Some("eng".into()))
        .build()
        .unwrap();
    write_video(&mut muxer, 0.0, &h264_keyframe()).unwrap();
    write_subtitle_cue(&mut muxer, SubtitleCue::new(0, 1_000, "hello").unwrap()).unwrap();
    // Gap, overlap, unicode, empty-gap coverage.
    write_subtitle_cue(
        &mut muxer,
        SubtitleCue::new(2_000, 500, "h\u{e9}llo \u{1f30d}").unwrap(),
    )
    .unwrap();
    write_subtitle_cue(&mut muxer, SubtitleCue::new(2_250, 750, "overlap").unwrap()).unwrap();
    assert!(SubtitleCue::new(0, 0, "x").is_err());
}

#[test]
fn subtitle_too_large_rejected() {
    let (mut muxer, _) = MuxerBuilder::new()
        .video(VideoCodec::H264, 640, 480, rate(30.0))
        .subtitle(SubtitleCodec::MovText, Some("eng".into()))
        .build()
        .unwrap();
    write_video(&mut muxer, 0.0, &h264_keyframe()).unwrap();
    let big = "x".repeat(65_536);
    let err =
        write_subtitle_cue(&mut muxer, SubtitleCue::new(0, 1000, &big).unwrap()).unwrap_err();
    assert!(matches!(err, MuxerError::SubtitleTooLarge(_)));
}

#[test]
fn language_code_validated() {
    assert!(LanguageCode::parse("eng").is_ok());
    assert!(LanguageCode::parse("EN").is_err());
    assert!(SUBTITLE_TIMESCALE == 1_000);
    assert!(VIDEO_TIMESCALE == 90_000);
}

#[test]
fn limits_reject_oversize_sample() {
    let limits = Limits { max_sample_size: 16, ..Limits::default() };
    let (mut muxer, _) = MuxerBuilder::new()
        .video(VideoCodec::H264, 640, 480, rate(30.0))
        .with_limits(limits)
        .build()
        .unwrap();
    let err = write_video_sample(
        &mut muxer,
        EncodedSample {
            data: &h264_keyframe(),
            timing: SampleTime::new(0, 0, 3000).unwrap(),
            is_sync: true,
        },
    )
    .unwrap_err();
    assert!(matches!(err, MuxerError::ResourceLimitExceeded { .. }));
}

#[test]
fn timescale_rescale_exact() {
    let from = Timescale::const_new(90_000);
    let to = Timescale::const_new(1_000);
    let _ = (from, to);
    let t = SampleTime::new(4_500, 4_500, 3_003).unwrap();
    assert_eq!(t.composition_offset().unwrap(), 0);
}
