//! The muxer that hands sample bytes on as they arrive.

use muxfin::api::streaming::TrackAnswers;
use muxfin::api::{
    AacProfile, AudioCodec, FrameRate, InputFault, MuxerBuilder, MuxerError, Seconds,
    StreamingMuxer, SubtitleCodec, VideoCodec,
};
use muxfin::muxer::mp4::Mp4WriterError;
use muxfin::muxer::streaming::MoovPlan;
use muxfin::time::{EncodedSample, Limits, SampleTime, SubtitleCue};

const SPS: &[u8] = &[
    0x00, 0x00, 0x00, 0x01, 0x67, 0x42, 0x00, 0x1e, 0xda, 0x02, 0x80, 0x2d, 0x8b, 0x11,
];
const PPS: &[u8] = &[0x00, 0x00, 0x00, 0x01, 0x68, 0xce, 0x38, 0x80];
const IDR: &[u8] = &[0x00, 0x00, 0x00, 0x01, 0x65, 0x88, 0x84, 0x00, 0x11];
const P_SLICE: &[u8] = &[0x00, 0x00, 0x00, 0x01, 0x41, 0x9a, 0x11, 0x22];
const ADTS: &[u8] = &[0xff, 0xf1, 0x4c, 0x80, 0x01, 0x3f, 0xfc, 0xaa, 0xbb];

/// A file type box of 24 bytes.
const FTYP: &[u8] = b"\x00\x00\x00\x18ftypisom\x00\x00\x02\x00isommp41";

fn at(seconds: f64) -> Seconds {
    Seconds { bits: seconds.to_bits() }
}

fn rate(framerate: f64) -> FrameRate {
    FrameRate { bits: framerate.to_bits() }
}

fn keyframe() -> Vec<u8> {
    [SPS, PPS, IDR].concat()
}

fn video_only() -> StreamingMuxer {
    let (muxer, _, _) = MuxerBuilder::new()
        .video(VideoCodec::H264, 640, 480, rate(30.0))
        .build_streaming_seekable(FTYP)
        .unwrap();
    muxer
}

/// Writes a sample whose frame is stored as it is. The first frame of a track
/// has to be a keyframe.
fn write_video_sample(
    muxer: &mut StreamingMuxer,
    data: &[u8],
    timing: SampleTime,
    is_sync: bool,
    first: bool,
) -> Result<u64, MuxerError> {
    let write = muxer.write_video_sample(EncodedSample { data, timing, is_sync })?;
    let outcome = if first && !is_sync {
        Err(Mp4WriterError::FirstFrameMustBeKeyframe)
    } else {
        Ok((data, None))
    };
    let entry = muxer.video_prepared(write, outcome)?;
    let offset = entry.offset;
    muxer.video_stored(write, entry, Ok(()))?;
    Ok(offset)
}

#[test]
fn streaming_error_parity_with_buffered() {
    // Non-increasing DTS rejected.
    let mut muxer = video_only();
    write_video_sample(
        &mut muxer,
        &keyframe(),
        SampleTime::new(0, 0, 3000).unwrap(),
        true,
        true,
    )
    .unwrap();
    let err = write_video_sample(
        &mut muxer,
        P_SLICE,
        SampleTime::new(3000, 0, 3000).unwrap(),
        false,
        false,
    )
    .unwrap_err();
    assert!(
        matches!(
            err,
            MuxerError::NonIncreasingIntDts { .. }
                | MuxerError::NonIncreasingVideoPts { .. }
                | MuxerError::NonIncreasingDts { .. }
        ),
        "unexpected error: {err:?}"
    );

    // First frame must be a keyframe.
    let mut muxer = video_only();
    let err = write_video_sample(
        &mut muxer,
        P_SLICE,
        SampleTime::new(0, 0, 3000).unwrap(),
        false,
        true,
    )
    .unwrap_err();
    assert!(
        matches!(err, MuxerError::FirstVideoFrameMustBeKeyframe),
        "unexpected error: {err:?}"
    );

    // Zero duration rejected without writing.
    assert!(SampleTime::new(0, 0, 0).is_err());
}

#[test]
fn streaming_enforces_sample_count_limit() {
    let limits = Limits { max_samples_per_track: 1, ..Limits::default() };
    let (mut muxer, _, _) = MuxerBuilder::new()
        .video(VideoCodec::H264, 640, 480, rate(30.0))
        .with_limits(limits)
        .build_streaming_seekable(FTYP)
        .unwrap();
    write_video_sample(
        &mut muxer,
        &keyframe(),
        SampleTime::new(0, 0, 3000).unwrap(),
        true,
        true,
    )
    .unwrap();
    let err = write_video_sample(
        &mut muxer,
        P_SLICE,
        SampleTime::new(3000, 3000, 3000).unwrap(),
        false,
        false,
    )
    .unwrap_err();
    assert!(
        matches!(err, MuxerError::ResourceLimitExceeded { .. }),
        "unexpected error: {err:?}"
    );
}

#[test]
fn streaming_f64_shims_work() {
    let mut muxer = video_only();
    let frame = keyframe();
    let write = muxer.write_video(at(0.0), &frame, true).unwrap();
    let entry = muxer.video_prepared(write, Ok((&frame, None))).unwrap();
    muxer.video_stored(write, entry, Ok(())).unwrap();
    let write = muxer.write_video_with_dts(at(0.1), at(0.033), P_SLICE, false).unwrap();
    let entry = muxer.video_prepared(write, Ok((P_SLICE, None))).unwrap();
    muxer.video_stored(write, entry, Ok(())).unwrap();
    let answers = TrackAnswers {
        has_video_config: true,
        video_delta: None,
        audio_delta: None,
        subtitle_delta: None,
    };
    muxer.finish(answers).unwrap();
    let stats = muxer.finish_with_stats(0);
    assert_eq!(stats.video_frames, 2);
}

/// Samples follow each other behind the media data header, and the plan for
/// the index names where each of them is.
#[test]
fn samples_are_laid_out_in_the_order_they_arrive() {
    let (mut muxer, _, head) = MuxerBuilder::new()
        .video(VideoCodec::H264, 640, 480, rate(30.0))
        .audio(AudioCodec::Aac(AacProfile::Lc), 48_000, 2)
        .build_streaming_seekable(FTYP)
        .unwrap();
    assert_eq!(&head[..24], FTYP);
    assert_eq!(head.len(), 40);
    assert_eq!(muxer.bytes_written(), 40);

    let audio = EncodedSample {
        data: ADTS,
        timing: SampleTime::new(0, 0, 1024).unwrap(),
        is_sync: true,
    };
    let write = muxer.write_audio_sample(audio).unwrap();
    // 1024 samples at 48 kHz are 1920 ticks at 90 kHz.
    assert_eq!(write.duration, Some(1920));
    let entry = muxer.audio_prepared(write, Ok((&ADTS[7..], None))).unwrap();
    assert_eq!(entry.offset, 40);
    muxer.audio_stored(write, entry, Ok(())).unwrap();

    let frame = keyframe();
    let first = write_video_sample(
        &mut muxer,
        &frame,
        SampleTime::new(90_000, 90_000, 3000).unwrap(),
        true,
        true,
    );
    assert_eq!(first.unwrap(), 42);
    let second = write_video_sample(
        &mut muxer,
        P_SLICE,
        SampleTime::new(96_000, 93_000, 3000).unwrap(),
        false,
        false,
    );
    assert_eq!(second.unwrap(), 42 + frame.len() as u64);

    let end = 42 + (frame.len() + P_SLICE.len()) as u64;
    let answers = TrackAnswers {
        has_video_config: true,
        video_delta: Some(3000),
        audio_delta: None,
        subtitle_delta: None,
    };
    let plan = muxer.finish(answers).unwrap();
    assert_eq!(plan.header_pos, 24);
    assert_eq!(plan.end, end);
    // The header holds the marker of a long size, the type and the size.
    assert_eq!(&plan.header[..8], b"\x00\x00\x00\x01mdat");
    assert_eq!(plan.header[8..], (end - 24).to_be_bytes());
    match plan.moov {
        Ok(MoovPlan::Video { default_config, video, audio, subtitle }) => {
            assert!(!default_config);
            assert_eq!(video.samples.len(), 2);
            assert_eq!(video.chunk_offsets, vec![42, 42 + frame.len() as u64]);
            assert_eq!(video.samples_per_chunk, 1);
            let audio = audio.unwrap();
            assert_eq!(audio.samples.len(), 1);
            assert_eq!(audio.chunk_offsets, vec![40]);
            assert!(subtitle.is_none());
        }
        _ => panic!("expected a video track"),
    }
    // The last video frame is shown at 96000 ticks, for 3000 ticks.
    let stats = muxer.finish_with_stats(100);
    assert_eq!(f64::from_bits(stats.duration_secs.bits), 1.1);
    assert_eq!(stats.bytes_written, end + 100);
    assert_eq!(stats.audio_frames, 1);
    assert!(matches!(
        muxer.write_audio(at(1.0), ADTS),
        Err(MuxerError::AlreadyFinished)
    ));
}

#[test]
fn a_lone_track_is_one_chunk() {
    let mut muxer = video_only();
    for k in 0..3 {
        let timing = SampleTime::new(3000 * k, 3000 * k, 3000).unwrap();
        write_video_sample(&mut muxer, IDR, timing, true, k == 0).unwrap();
    }
    let answers = TrackAnswers {
        has_video_config: true,
        video_delta: Some(3000),
        audio_delta: None,
        subtitle_delta: None,
    };
    match muxer.finish(answers).unwrap().moov {
        Ok(MoovPlan::Video { video, .. }) => {
            assert_eq!(video.chunk_offsets, vec![40]);
            assert_eq!(video.samples_per_chunk, 3);
        }
        _ => panic!("expected a video track"),
    }
}

/// A sample whose bytes did not reach the file is not counted, and the next
/// one takes its place.
#[test]
fn a_sample_that_is_not_written_leaves_nothing_behind() {
    let (mut muxer, _, _) = MuxerBuilder::new()
        .video(VideoCodec::H264, 640, 480, rate(30.0))
        .audio(AudioCodec::Aac(AacProfile::Lc), 48_000, 2)
        .build_streaming_seekable(FTYP)
        .unwrap();
    let frame = keyframe();
    let sample = EncodedSample {
        data: &frame,
        timing: SampleTime::new(0, 0, 3000).unwrap(),
        is_sync: true,
    };
    let write = muxer.write_video_sample(sample).unwrap();
    let entry = muxer.video_prepared(write, Ok((&frame, None))).unwrap();
    let error = muxer.video_stored(write, entry, Err(InputFault::NotWritten)).unwrap_err();
    assert!(matches!(error, MuxerError::Io(InputFault::NotWritten)));
    assert_eq!(InputFault::NotWritten.message(), "sample bytes could not be written");
    assert_eq!(muxer.bytes_written(), 40);

    // The same sample may be written again: it was not taken yet.
    let write = muxer.write_video_sample(sample).unwrap();
    let entry = muxer.video_prepared(write, Ok((&frame, None))).unwrap();
    assert_eq!(entry.offset, 40);
    muxer.video_stored(write, entry, Ok(())).unwrap();
    assert_eq!(muxer.bytes_written(), 40 + frame.len() as u64);

    let write = muxer.write_audio(at(0.0), ADTS).unwrap();
    let entry = muxer.audio_prepared(write, Ok((&ADTS[7..], None))).unwrap();
    assert!(muxer.audio_stored(write, entry, Err(InputFault::NotWritten)).is_err());
    assert_eq!(muxer.bytes_written(), 40 + frame.len() as u64);

    let answers = TrackAnswers {
        has_video_config: true,
        video_delta: Some(3000),
        audio_delta: None,
        subtitle_delta: None,
    };
    let plan = muxer.flush(answers).unwrap();
    assert_eq!(plan.end, 40 + frame.len() as u64);
    assert!(matches!(muxer.write_audio(at(1.0), ADTS), Err(MuxerError::AlreadyFinished)));
    let stats = muxer.finish_with_stats(0);
    assert_eq!((stats.video_frames, stats.audio_frames), (1, 0));
}

/// A cue stands behind the frame, once it is written.
#[test]
fn a_cue_stands_where_it_was_written() {
    let (mut muxer, _, _) = MuxerBuilder::new()
        .video(VideoCodec::H264, 640, 480, rate(30.0))
        .subtitle_with_timescale(SubtitleCodec::MovText, None, 500)
        .build_streaming_seekable(FTYP)
        .unwrap();
    let timing = SampleTime::new(0, 0, 3000).unwrap();
    write_video_sample(&mut muxer, IDR, timing, true, true).unwrap();
    let behind = 40 + IDR.len() as u64;
    let cue = SubtitleCue { start: 250, duration: 100, text: "one" };
    // 250 of 500 ticks a second are half a second.
    let (write, _) = muxer.write_subtitle_cue(cue).unwrap();
    assert_eq!((write.pts, write.duration), (45_000, 18_000));
    let stored = b"\x00\x03one";
    let entry = muxer.subtitle_prepared(write, Ok((stored, 18_000))).unwrap();
    assert_eq!(entry.offset, behind);
    assert!(muxer.subtitle_stored(write, entry, Err(InputFault::NotWritten)).is_err());
    assert_eq!(muxer.bytes_written(), behind);
    muxer.subtitle_stored(write, entry, Ok(())).unwrap();
    assert_eq!(muxer.bytes_written(), behind + 5);
    let answers = TrackAnswers {
        has_video_config: true,
        video_delta: Some(3000),
        audio_delta: None,
        subtitle_delta: None,
    };
    match muxer.finish(answers).unwrap().moov {
        Ok(MoovPlan::Video { subtitle, .. }) => {
            let subtitle = subtitle.unwrap();
            assert_eq!(subtitle.chunk_offsets, vec![behind]);
            assert_eq!(subtitle.samples.len(), 1);
        }
        _ => panic!("expected a video track"),
    }
}
