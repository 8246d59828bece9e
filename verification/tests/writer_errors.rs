//! One input for each way in which a writer refuses a sample or a file.

use muxfin::api::{
    AacProfile, AudioCodec, CodecLabel, InputFault, OpusConfig, SubtitleCodec, VideoCodec,
};
use muxfin::codec::flac::{build_streaminfo, crc16, synthetic_frame_header};
use muxfin::codec::opus::OpusConfigError;
use muxfin::muxer::flac::{FlacWriter, FlacWriterError};
use muxfin::muxer::mkv::{MkvContainer, MkvWriter, MkvWriterError};
use muxfin::muxer::mp4::{Mp4AudioTrack, Mp4SubtitleTrack, Mp4VideoTrack, Mp4WriterError};
use muxfin::muxer::ogg::{OggWriter, OggWriterError};
use muxfin::muxer::streaming::{SeekableStreamingWriter, TrackSummary};

/// An Opus packet of 960 samples.
const PACKET: &[u8] = &[0xF8, 0, 1, 2];

/// A VP9 keyframe of 100x100 pixels.
const KEYFRAME: &[u8] = &[0x82, 0x49, 0x83, 0x42, 0x20, 0x06, 0x30, 0x06, 0x30, 0];

fn track(codec: AudioCodec) -> Mp4AudioTrack {
    Mp4AudioTrack {
        sample_rate: 44_100,
        channels: 2,
        codec,
        flac_streaminfo: None,
        opus_preskip: None,
        aac_asc_override: None,
        opus_config_override: None,
        language: None,
    }
}

/// A FLAC track with STREAMINFO for stereo at a rate.
fn flac_track(rate: u32) -> Mp4AudioTrack {
    Mp4AudioTrack {
        flac_streaminfo: Some(build_streaminfo(4096, 4096, rate, 2, 16, 0).to_vec()),
        ..track(AudioCodec::Flac)
    }
}

/// A FLAC frame of a block size less one.
fn frame(number: u64, size_less_one: u16) -> Vec<u8> {
    let mut frame = synthetic_frame_header(number, size_less_one);
    frame.extend([0x11; 8]);
    let crc = crc16(&frame);
    frame.extend(crc.to_be_bytes());
    frame
}

fn ogg_writer(track: Mp4AudioTrack) -> OggWriter {
    let mut writer = OggWriter::new();
    writer.enable_audio(track);
    writer
}

fn flac_writer(track: Mp4AudioTrack) -> FlacWriter {
    let mut writer = FlacWriter::new();
    writer.enable_audio(track);
    writer
}

#[test]
fn ogg_packets_are_refused() {
    let mut writer = OggWriter::new();
    assert_eq!(writer.write_audio_sample(0, PACKET), Err(OggWriterError::AudioNotEnabled));
    let mut writer = ogg_writer(track(AudioCodec::Flac));
    assert_eq!(
        writer.write_audio_sample(0, PACKET),
        Err(OggWriterError::UnsupportedCodec { codec: AudioCodec::Flac })
    );
    let mut writer = ogg_writer(track(AudioCodec::Opus));
    assert_eq!(writer.write_audio_sample(0, &[0xFB]), Err(OggWriterError::InvalidOpusPacket));
    writer.write_audio_sample(1_800, PACKET).unwrap();
    // The same time again is fine, an earlier one is not.
    writer.write_audio_sample(1_800, PACKET).unwrap();
    assert_eq!(
        writer.write_audio_sample(1_799, PACKET),
        Err(OggWriterError::NonIncreasingTimestamp)
    );
    writer.finalize(None).unwrap();
    assert_eq!(writer.write_audio_sample(3_600, PACKET), Err(OggWriterError::AlreadyFinalized));
    assert_eq!(writer.finalize(None), Err(OggWriterError::FinalizedTwice));
}

#[test]
fn ogg_files_are_refused() {
    assert_eq!(OggWriter::new().finalize(None), Err(OggWriterError::AudioNotEnabled));
    for (channels, reason) in [
        (0, OpusConfigError::UnsupportedChannelCount(0)),
        (7, OpusConfigError::MissingStreamCounts),
    ] {
        let mut writer = ogg_writer(Mp4AudioTrack { channels, ..track(AudioCodec::Opus) });
        assert_eq!(writer.finalize(None), Err(OggWriterError::InvalidOpusConfig { reason }));
    }
    let config = OpusConfig { channel_mapping: None, ..OpusConfig::surround_51() };
    let mut writer = ogg_writer(Mp4AudioTrack {
        opus_config_override: Some(config),
        ..track(AudioCodec::Opus)
    });
    assert_eq!(
        writer.finalize(None),
        Err(OggWriterError::InvalidOpusConfig { reason: OpusConfigError::MissingMapping })
    );
}

#[test]
fn flac_frames_are_refused() {
    let mut writer = FlacWriter::new();
    assert_eq!(writer.write_audio_sample(0, &frame(0, 4095)), Err(FlacWriterError::AudioNotEnabled));
    let mut writer = flac_writer(track(AudioCodec::Opus));
    assert_eq!(
        writer.write_audio_sample(0, &frame(0, 4095)),
        Err(FlacWriterError::UnsupportedCodec { codec: AudioCodec::Opus })
    );
    let mut writer = flac_writer(flac_track(44_100));
    assert_eq!(
        writer.write_audio_sample(0, &frame(0, 4096)),
        Err(FlacWriterError::InconsistentFrame)
    );
    writer.write_audio_sample(0, &frame(1, 4095)).unwrap();
    assert_eq!(
        writer.write_audio_sample(0, &frame(1, 4095)),
        Err(FlacWriterError::NonMonotonicFrame)
    );
    writer.finalize(None).unwrap();
    assert_eq!(
        writer.write_audio_sample(0, &frame(2, 4095)),
        Err(FlacWriterError::AlreadyFinalized)
    );
    assert_eq!(writer.finalize(None), Err(FlacWriterError::FinalizedTwice));
}

#[test]
fn flac_files_are_refused() {
    assert_eq!(FlacWriter::new().finalize(None), Err(FlacWriterError::AudioNotEnabled));
    assert_eq!(
        flac_writer(track(AudioCodec::Flac)).finalize(None),
        Err(FlacWriterError::MissingStreaminfo)
    );
    assert_eq!(
        flac_writer(flac_track(48_000)).finalize(None),
        Err(FlacWriterError::StreaminfoMismatch {
            track_rate: 44_100,
            track_channels: 2,
            rate: 48_000,
            channels: 2,
        })
    );
    assert_eq!(flac_writer(flac_track(44_100)).finalize(None), Err(FlacWriterError::NoFrames));
}

#[test]
fn matroska_video_is_refused() {
    let mut writer = MkvWriter::new();
    assert_eq!(
        writer.write_video_sample(0, KEYFRAME, true, None),
        Err(MkvWriterError::VideoNotEnabled)
    );
    for (codec, error) in [
        (VideoCodec::H264, MkvWriterError::FirstFrameMissingSpsPps),
        (VideoCodec::H265, MkvWriterError::FirstFrameMissingSpsPps),
        (VideoCodec::Av1, MkvWriterError::FirstFrameMissingSequenceHeader),
        (VideoCodec::Vp9, MkvWriterError::FirstFrameMissingVp9Config),
    ] {
        let mut writer = MkvWriter::new();
        writer.enable_video(codec);
        assert_eq!(
            writer.write_video_sample(0, &[1], false, None),
            Err(MkvWriterError::FirstFrameMustBeKeyframe)
        );
        assert_eq!(writer.write_video_sample(0, &[1], true, None), Err(error));
    }
    let mut writer = MkvWriter::new();
    writer.enable_video(VideoCodec::Vp9);
    writer.write_video_sample(0, KEYFRAME, true, None).unwrap();
    assert_eq!(
        writer.write_video_sample(0, KEYFRAME, true, None),
        Err(MkvWriterError::NonIncreasingTimestamp)
    );
}

#[test]
fn matroska_audio_is_refused() {
    let mut writer = MkvWriter::new();
    assert_eq!(
        writer.write_audio_sample(0, PACKET, None),
        Err(MkvWriterError::AudioNotEnabled)
    );
    for (codec, error) in [
        (AudioCodec::Aac(AacProfile::Lc), MkvWriterError::InvalidAdtsDetailed),
        (AudioCodec::Opus, MkvWriterError::InvalidOpusPacket),
        (AudioCodec::Flac, MkvWriterError::InvalidFlacFrame),
        (AudioCodec::NoAudio, MkvWriterError::AudioNotEnabled),
    ] {
        let mut writer = MkvWriter::new();
        writer.enable_audio(track(codec));
        assert_eq!(writer.write_audio_sample(0, &[0xFB], None), Err(error));
    }
    let mut writer = MkvWriter::new();
    writer.enable_audio(track(AudioCodec::Opus));
    writer.write_audio_sample(90, PACKET, None).unwrap();
    assert_eq!(
        writer.write_audio_sample(0, PACKET, None),
        Err(MkvWriterError::NonIncreasingTimestamp)
    );
}

#[test]
fn matroska_subtitles_are_refused() {
    let mut writer = MkvWriter::new();
    assert_eq!(
        writer.write_subtitle_sample(0, 90, b"a"),
        Err(MkvWriterError::SubtitleNotEnabled)
    );
    writer.enable_subtitle(Mp4SubtitleTrack {
        codec: SubtitleCodec::MovText,
        language: None,
        codec_private: None,
    });
    assert_eq!(writer.write_subtitle_sample(0, 90, b""), Err(MkvWriterError::EmptySubtitle));
    writer.write_subtitle_sample(90, 90, b"a").unwrap();
    assert_eq!(
        writer.write_subtitle_sample(0, 90, b"a"),
        Err(MkvWriterError::NonIncreasingTimestamp)
    );
}

#[test]
fn matroska_files_are_refused() {
    let picture = Mp4VideoTrack { width: 100, height: 100, language: None };
    let matroska = MkvContainer::Matroska;
    let mut writer = MkvWriter::new();
    assert_eq!(writer.finalize(None, None, matroska), Err(MkvWriterError::NoTracks));
    assert_eq!(writer.finalize(None, None, matroska), Err(MkvWriterError::FinalizedTwice));
    assert_eq!(
        writer.write_subtitle_sample(0, 90, b"a"),
        Err(MkvWriterError::AlreadyFinalized)
    );
    let mut writer = MkvWriter::new();
    writer.enable_video(VideoCodec::Vp9);
    writer.write_video_sample(0, KEYFRAME, true, None).unwrap();
    assert_eq!(
        writer.finalize(None, None, matroska),
        Err(MkvWriterError::ConfigWithoutVideoTrack)
    );
    let mut writer = MkvWriter::new();
    writer.enable_audio(track(AudioCodec::Flac));
    assert_eq!(
        writer.finalize(None, None, matroska),
        Err(MkvWriterError::MissingFlacStreaminfo)
    );
    let mut writer = MkvWriter::new();
    writer.enable_video(VideoCodec::H264);
    writer.write_video_sample(0, &[0, 0, 0, 1, 0x65], true, Some(&[1; 7])).unwrap();
    assert!(matches!(
        writer.finalize(Some(&picture), None, MkvContainer::WebM),
        Err(MkvWriterError::UnsupportedForWebM {
            codec: CodecLabel::Video(VideoCodec::H264),
            ..
        })
    ));
    let mut writer = MkvWriter::new();
    writer.enable_audio(track(AudioCodec::Aac(AacProfile::Lc)));
    assert!(matches!(
        writer.finalize(None, None, MkvContainer::WebM),
        Err(MkvWriterError::UnsupportedForWebM { codec: CodecLabel::Audio(_), .. })
    ));
}

#[test]
fn streams_end_once() {
    let (mut writer, _) = SeekableStreamingWriter::begin(b"\x00\x00\x00\x08ftyp");
    let tracks = TrackSummary {
        has_video_config: false,
        has_video_track: false,
        has_audio_track: false,
        has_subtitle_track: false,
        video_delta: None,
        audio_delta: None,
        subtitle_delta: None,
    };
    let plan = writer.finish(tracks, None).unwrap();
    assert!(matches!(plan.moov, Err(InputFault::NoAudioTrack)));
    assert!(matches!(writer.finish(tracks, None), Err(InputFault::StreamingFinished)));
    assert!(matches!(
        writer.write_audio_sample(0, PACKET, None),
        Err(Mp4WriterError::AlreadyFinalized)
    ));
    // A decoder configuration without the size of the picture.
    let (mut writer, _) = SeekableStreamingWriter::begin(b"\x00\x00\x00\x08ftyp");
    let plan = writer.finish(TrackSummary { has_video_config: true, ..tracks }, None).unwrap();
    assert!(matches!(plan.moov, Err(InputFault::ConfigWithoutVideoTrack)));
}

#[test]
fn writers_name_themselves_when_finalized_twice() {
    assert_eq!(MkvWriterError::FinalizedTwice.message(), "mkv writer already finalised");
    assert_eq!(OggWriterError::FinalizedTwice.message(), "ogg writer already finalised");
    assert_eq!(FlacWriterError::FinalizedTwice.message(), "flac writer already finalised");
    assert_eq!(MkvWriterError::AlreadyFinalized.message(), "writer already finalised");
}
