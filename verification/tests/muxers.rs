//! What the muxers refuse, and what they ask of a box writer.

use muxfin::api::mp4::{encode_webvtt_cue, SubtitlePayload, SubtitleRefusal, WriterTotals};
use muxfin::api::{
    AudioCodec, FrameRate, InputFault, Muxer, MuxerBuilder, MuxerError, Seconds, SubtitleCodec,
    VideoCodec,
};
use muxfin::muxer::mp4::Mp4WriterError;
use muxfin::time::{EncodedSample, SampleTime, SubtitleCue};

fn at(seconds: f64) -> Seconds {
    Seconds { bits: seconds.to_bits() }
}

fn rate(framerate: f64) -> FrameRate {
    FrameRate { bits: framerate.to_bits() }
}

/// Video, Opus and subtitles of a codec.
fn muxer(codec: SubtitleCodec) -> Muxer {
    let (muxer, _) = MuxerBuilder::new()
        .video(VideoCodec::Vp9, 100, 100, rate(30.0))
        .audio(AudioCodec::Opus, 48_000, 2)
        .subtitle(codec, None)
        .build()
        .unwrap();
    muxer
}

fn video(muxer: &mut Muxer, pts: f64) -> Result<(), MuxerError> {
    let write = muxer.write_video(at(pts), &[1], true)?;
    muxer.video_written(write, Ok(()))
}

fn audio(muxer: &mut Muxer, pts: f64) -> Result<(), MuxerError> {
    let write = muxer.write_audio(at(pts), &[1])?;
    muxer.audio_written(write, Ok(()))
}

fn subtitle(muxer: &mut Muxer, pts: f64, duration: f64, text: &str) -> Result<(), MuxerError> {
    let write = muxer.write_subtitle(at(pts), at(duration), text)?;
    muxer.subtitle_written(write, Ok(()))
}

#[test]
fn video_times() {
    let mut m = muxer(SubtitleCodec::MovText);
    assert!(matches!(
        m.write_video(at(-1.0), &[1], true),
        Err(MuxerError::NegativeVideoPts { frame_index: 0, .. })
    ));
    assert!(matches!(
        m.write_video(at(f64::NAN), &[1], true),
        Err(MuxerError::InvalidVideoPts { .. })
    ));
    assert!(matches!(
        m.write_video(at(0.0), &[], true),
        Err(MuxerError::EmptyVideoFrame { frame_index: 0 })
    ));
    assert!(matches!(
        m.write_video_with_dts(at(0.0), at(-0.5), &[1], true),
        Err(MuxerError::NegativeVideoDts { .. })
    ));
    assert!(matches!(
        m.write_video_with_dts(at(0.0), at(f64::INFINITY), &[1], true),
        Err(MuxerError::InvalidVideoDts { .. })
    ));
    video(&mut m, 1.0).unwrap();
    assert!(matches!(
        m.write_video(at(1.0), &[1], true),
        Err(MuxerError::NonIncreasingVideoPts { frame_index: 1, .. })
    ));
    let write = m.write_video_with_dts(at(3.0), at(2.0), &[1], false).unwrap();
    assert_eq!((write.pts, write.dts), (270_000, 180_000));
    m.video_written(write, Ok(())).unwrap();
    assert!(matches!(
        m.write_video_with_dts(at(4.0), at(2.0), &[1], false),
        Err(MuxerError::NonIncreasingDts { frame_index: 2, .. })
    ));
}

#[test]
fn audio_times() {
    let mut m = muxer(SubtitleCodec::MovText);
    assert!(matches!(
        m.write_audio(at(-1.0), &[1]),
        Err(MuxerError::NegativeAudioPts { .. })
    ));
    assert!(matches!(
        m.write_audio(at(f64::NAN), &[1]),
        Err(MuxerError::InvalidAudioPts { .. })
    ));
    assert!(matches!(m.write_audio(at(0.0), &[]), Err(MuxerError::EmptyAudioFrame { .. })));
    audio(&mut m, 0.5).unwrap();
    audio(&mut m, 0.5).unwrap();
    assert!(matches!(
        m.write_audio(at(0.25), &[1]),
        Err(MuxerError::DecreasingAudioPts { frame_index: 2, .. })
    ));
    let (silent, _) = MuxerBuilder::new()
        .video(VideoCodec::Vp9, 100, 100, rate(30.0))
        .build()
        .unwrap();
    assert!(matches!(silent.write_audio(at(0.0), &[1]), Err(MuxerError::AudioNotConfigured)));
}

#[test]
fn subtitle_times() {
    let mut m = muxer(SubtitleCodec::MovText);
    video(&mut m, 0.0).unwrap();
    assert!(matches!(
        m.write_subtitle(at(-1.0), at(1.0), "a"),
        Err(MuxerError::NegativeSubtitlePts { .. })
    ));
    assert!(matches!(
        m.write_subtitle(at(f64::NAN), at(1.0), "a"),
        Err(MuxerError::InvalidSubtitlePts { .. })
    ));
    assert!(matches!(
        m.write_subtitle(at(0.0), at(0.0), "a"),
        Err(MuxerError::InvalidSubtitleDuration { .. })
    ));
    assert!(matches!(
        m.write_subtitle(at(0.0), at(1.0), ""),
        Err(MuxerError::EmptySubtitleSample { .. })
    ));
    subtitle(&mut m, 2.0, 1.0, "a").unwrap();
    assert!(matches!(
        m.write_subtitle(at(1.0), at(1.0), "a"),
        Err(MuxerError::DecreasingSubtitlePts { .. })
    ));
}

#[test]
fn cues_are_stored_by_codec() {
    let m = muxer(SubtitleCodec::WebVtt);
    let cue = SubtitleCue::new(1_000, 500, "hi").unwrap();
    let (write, payload) = m.write_subtitle_cue(cue).unwrap();
    // Milliseconds become ticks of the media clock.
    assert_eq!((write.pts, write.duration), (90_000, 45_000));
    match payload {
        SubtitlePayload::Boxed(bytes) => {
            assert_eq!(bytes, b"\x00\x00\x00\x12vttc\x00\x00\x00\x0Apaylhi");
            assert_eq!(bytes, encode_webvtt_cue(b"hi"));
        }
        _ => panic!("expected a box"),
    }
    let m = muxer(SubtitleCodec::MovText);
    let cue = SubtitleCue::new(1_000, 500, "hi").unwrap();
    assert!(matches!(m.write_subtitle_cue(cue), Ok((_, SubtitlePayload::TimedText))));
    let negative = SubtitleCue { start: -1, duration: 1, text: "hi" };
    assert!(m.write_subtitle_cue(negative).is_err());
}

/// What the box writer refuses, the muxer passes on with the frame.
#[test]
fn answers_become_errors() {
    let mut m = muxer(SubtitleCodec::MovText);
    let write = m.write_video(at(0.0), &[1], false).unwrap();
    let answer = |error| Err(error);
    assert!(matches!(
        m.video_written(write, answer(Mp4WriterError::FirstFrameMustBeKeyframe)),
        Err(MuxerError::FirstVideoFrameMustBeKeyframe)
    ));
    assert!(matches!(
        m.video_written(write, answer(Mp4WriterError::FirstFrameMissingSpsPps)),
        Err(MuxerError::FirstVideoFrameMissingSpsPps)
    ));
    // A refused frame is not counted.
    assert!(matches!(
        m.write_video(at(0.0), &[], true),
        Err(MuxerError::EmptyVideoFrame { frame_index: 0 })
    ));
    let write = m.write_audio(at(0.0), &[1]).unwrap();
    assert!(matches!(
        m.audio_written(write, answer(Mp4WriterError::InvalidOpusPacket)),
        Err(MuxerError::InvalidOpusPacket { frame_index: 0 })
    ));
    let write = m.write_subtitle(at(0.0), at(1.0), "a").unwrap();
    assert!(matches!(
        m.subtitle_written(write, Err(SubtitleRefusal::TooLarge(70_000))),
        Err(MuxerError::SubtitleTooLarge(70_000))
    ));
}

#[test]
fn frames_without_times_follow_each_other() {
    let mut m = muxer(SubtitleCodec::MovText);
    let key = [0x82, 0x49, 0x83, 0x42, 0x20, 0x06, 0x30, 0x06, 0x30, 0];
    for expected in [0, 3_600, 7_200] {
        let write = m.encode_video(&key, 40).unwrap();
        assert_eq!(write.pts, expected);
        m.video_written(write, Ok(())).unwrap();
    }
    for expected in [0, 1_800, 3_600] {
        let write = m.encode_audio(&[1], 960).unwrap();
        assert_eq!(write.pts, expected);
        m.audio_written(write, Ok(())).unwrap();
    }
}

#[test]
fn finishing_once() {
    let mut m = muxer(SubtitleCodec::MovText);
    video(&mut m, 0.0).unwrap();
    let write = m.finish_in_place().unwrap();
    assert!(write.fast_start);
    let track = write.video.unwrap();
    assert_eq!((track.width, track.height), (100, 100));
    let totals = WriterTotals {
        video_frames: 1,
        audio_frames: 0,
        subtitle_frames: 0,
        end: Some(45_000),
        bytes_written: 99,
    };
    let failed = m.finish_in_place_with_stats(Err(InputFault::VideoNotConfigured));
    assert!(matches!(failed, Err(MuxerError::Io(InputFault::VideoNotConfigured))));
    let stats = m.finish_in_place_with_stats(Ok(totals)).unwrap();
    assert_eq!(stats.duration_secs.bits, 0.5f64.to_bits());
    assert_eq!(stats.bytes_written, 99);
    assert!(matches!(m.finish_in_place(), Err(MuxerError::AlreadyFinished)));
    assert!(matches!(
        m.write_video_with_dts(at(1.0), at(1.0), &[1], true),
        Err(MuxerError::AlreadyFinished)
    ));
    assert!(matches!(m.write_audio(at(1.0), &[1]), Err(MuxerError::AlreadyFinished)));
}

#[test]
fn integer_times() {
    let m = muxer(SubtitleCodec::MovText);
    let sample = |pts, dts, duration| EncodedSample {
        data: &[1],
        timing: SampleTime { pts, dts, duration },
        is_sync: true,
    };
    let write = m.write_video_sample(sample(6_000, 3_000, 1_500)).unwrap();
    assert_eq!((write.pts, write.dts, write.duration), (6_000, 3_000, Some(1_500)));
    // Audio times count 48 kHz samples.
    let write = m.write_audio_sample(sample(480, 480, 960)).unwrap();
    assert_eq!((write.pts, write.duration), (900, Some(1_800)));
    assert!(matches!(
        m.write_audio_sample(sample(0, 0, 0)),
        Err(MuxerError::ZeroDuration)
    ));
    assert!(matches!(
        m.write_video_sample(sample(i64::MAX, 0, 1)),
        Err(MuxerError::CompositionOffsetOutOfRange { .. })
    ));
    assert!(m.write_video_sample(sample(-1, -1, 1)).is_err());
}

#[test]
fn decode_times_grow() {
    let mut m = muxer(SubtitleCodec::MovText);
    let sample = |pts, dts| EncodedSample {
        data: &[1],
        timing: SampleTime { pts, dts, duration: 3_000 },
        is_sync: true,
    };
    for late in [3_000, (1 << 50) - 1] {
        let write = m.write_video_sample(sample(late, late)).unwrap();
        m.video_written(write, Ok(())).unwrap();
        for dts in [late, late - 1] {
            let refused = m.write_video_sample(sample(late, dts));
            assert!(matches!(
                refused,
                Err(MuxerError::NonIncreasingIntDts { previous, current })
                    if previous == late && current == dts
            ));
        }
    }
}

#[test]
fn what_a_builder_refuses() {
    let empty = MuxerBuilder::new().build();
    assert!(matches!(empty, Err(MuxerError::MissingConfig)));
    let alone = MuxerBuilder::new().subtitle(SubtitleCodec::MovText, None).build();
    assert!(matches!(alone, Err(MuxerError::SubtitleRequiresVideo)));
    let language = MuxerBuilder::new().with_video_language("English");
    assert!(matches!(language, Err(MuxerError::InvalidLanguage)));
    let fragments = MuxerBuilder::new().new_with_fragment();
    assert!(fragments.is_err());
}

#[test]
fn messages_name_the_frame() {
    let error = MuxerError::NonIncreasingVideoPts {
        prev_pts: Some(at(1.0)),
        curr_pts: Some(at(0.5)),
        frame_index: 3,
    };
    assert_eq!(
        error.message(""),
        "video frame 3 has PTS 0.500s which is not greater than previous PTS 1.000s: \
         video timestamps must strictly increase. For B-frames, use write_video_with_dts()"
    );
    assert_eq!(
        MuxerError::NegativeAudioPts { pts: at(-1.0), frame_index: 2 }.message(""),
        "audio frame 2 has negative PTS (-1.000s): timestamps must be >= 0.0"
    );
}
