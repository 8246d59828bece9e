//! One input for each way in which the builders and muxers refuse.

use muxfin::api::mp4::SubtitleRefusal;
use muxfin::api::{
    AudioCodec, ContainerFormat, FrameRate, InputFault, MkvMuxer, Muxer, MuxerBuilder, MuxerError,
    OpusConfig, Seconds, SubtitleCodec, VideoCodec,
};
use muxfin::cmaf::{CmafError, CmafProfile};
use muxfin::codec::flac::{build_streaminfo, crc16, synthetic_frame_header};
use muxfin::codec::opus::OpusConfigError;
use muxfin::codec::vp9::{is_vp9_keyframe, Vp9Error};
use muxfin::fragmented::FragmentConfig;
use muxfin::handle::{decode_audio, ArgumentFault, MuxfinStatus};
use muxfin::muxer::flac::FlacWriterError;
use muxfin::muxer::mkv::MkvWriterError;
use muxfin::muxer::mp4::Mp4WriterError;
use muxfin::muxer::ogg::OggWriterError;
use muxfin::time::{checked_u32, rescale, EncodedSample, SampleTime, SubtitleCue, Timescale};
use muxfin::tool::manifest::ManifestFault;

/// An Opus packet of 960 samples.
const PACKET: &[u8] = &[0xF8, 0, 1, 2];

fn at(seconds: f64) -> Seconds {
    Seconds { bits: seconds.to_bits() }
}

fn rate(framerate: f64) -> FrameRate {
    FrameRate { bits: framerate.to_bits() }
}

fn with_video(codec: VideoCodec) -> MuxerBuilder {
    MuxerBuilder::new().video(codec, 100, 100, rate(30.0))
}

fn with_audio(codec: AudioCodec) -> MuxerBuilder {
    MuxerBuilder::new().audio(codec, 44_100, 2)
}

/// STREAMINFO for stereo at a rate.
fn streaminfo(rate: u32) -> Vec<u8> {
    build_streaminfo(4096, 4096, rate, 2, 16, 0).to_vec()
}

/// A FLAC frame of the largest block size.
fn frame(number: u64) -> Vec<u8> {
    let mut frame = synthetic_frame_header(number, 4095);
    frame.extend([0x11; 8]);
    let crc = crc16(&frame);
    frame.extend(crc.to_be_bytes());
    frame
}

fn muxer() -> Muxer {
    let (muxer, _) = with_video(VideoCodec::Vp9)
        .audio(AudioCodec::Opus, 48_000, 2)
        .subtitle(SubtitleCodec::MovText, None)
        .build()
        .unwrap();
    muxer
}

fn mkv(builder: MuxerBuilder) -> MkvMuxer {
    builder.build_mkv().unwrap()
}

#[test]
fn streaminfo_is_absent_or_malformed() {
    let flac = || with_audio(AudioCodec::Flac);
    assert!(matches!(
        flac().build(),
        Err(MuxerError::Io(InputFault::MissingFlacStreaminfo))
    ));
    assert!(matches!(
        flac().with_flac_streaminfo(vec![0; 33]).build(),
        Err(MuxerError::Io(InputFault::InvalidFlacStreaminfo))
    ));
    assert!(matches!(
        flac().build_mkv(),
        Err(MuxerError::Io(InputFault::MatroskaFlacStreaminfo))
    ));
    assert!(matches!(
        flac().with_flac_streaminfo(streaminfo(48_000)).build_flac(),
        Err(MuxerError::Io(InputFault::FlacParametersDisagree {
            sample_rate: 44_100,
            channels: 2,
            info_rate: 48_000,
            info_channels: 2,
        }))
    ));
    assert!(flac().with_flac_streaminfo(streaminfo(44_100)).build_flac().is_ok());
}

#[test]
fn fragments_need_the_parameters_of_their_codec() {
    let missing = |builder: MuxerBuilder| match builder.new_with_fragment() {
        Err(MuxerError::Io(fault)) => fault,
        _ => panic!("expected a missing parameter"),
    };
    assert_eq!(missing(with_video(VideoCodec::H264)), InputFault::H264SpsMissing);
    assert_eq!(
        missing(with_video(VideoCodec::H264).with_sps(vec![1])),
        InputFault::H264PpsMissing
    );
    assert_eq!(missing(with_video(VideoCodec::H265)), InputFault::H265VpsMissing);
    assert_eq!(
        missing(with_video(VideoCodec::H265).with_vps(vec![1])),
        InputFault::H265SpsMissing
    );
    assert_eq!(
        missing(with_video(VideoCodec::H265).with_vps(vec![1]).with_sps(vec![1])),
        InputFault::H265PpsMissing
    );
    assert_eq!(missing(with_video(VideoCodec::Av1)), InputFault::Av1SequenceHeaderMissing);
    assert_eq!(missing(with_video(VideoCodec::Vp9)), InputFault::Vp9ConfigMissing);
    assert!(matches!(
        MuxerBuilder::new().new_with_fragment(),
        Err(MuxerError::MissingConfig)
    ));
}

#[test]
fn containers_do_not_take_every_codec() {
    let script = || with_video(VideoCodec::H264).subtitle(SubtitleCodec::Ass, None);
    assert!(matches!(
        script().build(),
        Err(MuxerError::UnsupportedForContainer { container: ContainerFormat::Mp4, .. })
    ));
    assert!(matches!(
        script().build_mkv(),
        Err(MuxerError::Io(InputFault::AssCodecPrivateMissing))
    ));
    assert!(matches!(
        with_audio(AudioCodec::Flac)
            .with_flac_streaminfo(streaminfo(44_100))
            .with_container(ContainerFormat::WebM)
            .build_mkv(),
        Err(MuxerError::UnsupportedForContainer { container: ContainerFormat::WebM, .. })
    ));
    assert!(matches!(
        with_audio(AudioCodec::Flac).build_ogg(),
        Err(MuxerError::UnsupportedForContainer { container: ContainerFormat::Ogg, .. })
    ));
    assert!(matches!(
        with_video(VideoCodec::H264).build_flac(),
        Err(MuxerError::UnsupportedForContainer { container: ContainerFormat::Flac, .. })
    ));
}

#[test]
fn opus_layouts_are_checked_first() {
    let config = OpusConfig { stream_count: None, ..OpusConfig::surround_51() };
    assert!(matches!(
        with_audio(AudioCodec::Opus).with_opus_config(config).build(),
        Err(MuxerError::InvalidOpusConfig { reason: OpusConfigError::MissingStreamCounts })
    ));
    let config = OpusConfig { channel_mapping: None, ..OpusConfig::surround_51() };
    assert!(matches!(
        with_audio(AudioCodec::Opus).with_opus_config(config).build_ogg(),
        Err(MuxerError::InvalidOpusConfig { reason: OpusConfigError::MissingMapping })
    ));
}

/// Each answer of the box writer has its error.
#[test]
fn refused_frames_name_the_reason() {
    let mut m = muxer();
    let write = m.write_video(at(0.0), &[1], true).unwrap();
    for (answer, expected) in [
        (
            Mp4WriterError::FirstFrameMissingSequenceHeader,
            MuxerError::FirstAv1FrameMissingSequenceHeader,
        ),
        (
            Mp4WriterError::FirstFrameMissingVp9Config,
            MuxerError::FirstVp9FrameMissingSequenceHeader,
        ),
        (
            Mp4WriterError::NonIncreasingTimestamp,
            MuxerError::NonIncreasingVideoPts { prev_pts: None, curr_pts: None, frame_index: 0 },
        ),
        (Mp4WriterError::InvalidAdts, MuxerError::InvalidAdts { frame_index: 0 }),
        (
            Mp4WriterError::InvalidAdtsDetailed,
            MuxerError::InvalidAdtsDetailed { frame_index: 0 },
        ),
        (Mp4WriterError::InvalidFlacFrame, MuxerError::InvalidFlacFrame { frame_index: 0 }),
        (
            Mp4WriterError::MissingFlacStreaminfo,
            MuxerError::Io(InputFault::StreaminfoNotProvided),
        ),
        (Mp4WriterError::AudioNotEnabled, MuxerError::AudioNotConfigured),
        (Mp4WriterError::SubtitleNotEnabled, MuxerError::SubtitleNotConfigured),
        (Mp4WriterError::DurationOverflow, MuxerError::Io(InputFault::DurationOverflow)),
        (
            Mp4WriterError::DecoderConfigurationChanged,
            MuxerError::DecoderConfigurationChanged,
        ),
        (Mp4WriterError::AlreadyFinalized, MuxerError::AlreadyFinished),
    ] {
        assert_eq!(m.video_written(write, Err(answer)), Err(expected));
    }
    let write = m.write_subtitle(at(0.0), at(1.0), "a").unwrap();
    assert_eq!(
        m.subtitle_written(write, Err(SubtitleRefusal::Writer(Mp4WriterError::SubtitleNotEnabled))),
        Err(MuxerError::SubtitleNotConfigured)
    );
}

#[test]
fn writers_refuse_through_their_muxers() {
    let mut m = with_audio(AudioCodec::Opus).build_ogg().unwrap();
    m.write_audio(at(1.0), PACKET).unwrap();
    assert_eq!(
        m.write_audio(at(1.5), &[0xFB]),
        Err(MuxerError::InvalidOpusPacket { frame_index: 1 })
    );
    let mut m = with_audio(AudioCodec::Flac)
        .with_flac_streaminfo(streaminfo(44_100))
        .build_flac()
        .unwrap();
    assert_eq!(
        m.write_audio(at(0.0), &[0; 8]),
        Err(MuxerError::InvalidFlacFrame { frame_index: 0 })
    );
    m.write_audio(at(0.0), &frame(1)).unwrap();
    assert_eq!(
        m.write_audio(at(1.0), &frame(0)),
        Err(MuxerError::Io(InputFault::Flac(FlacWriterError::NonMonotonicFrame)))
    );
    let mut m = mkv(with_video(VideoCodec::H264));
    assert_eq!(
        m.write_audio(at(0.0), PACKET, None),
        Err(MuxerError::AudioNotConfigured)
    );
    assert_eq!(
        m.write_subtitle(at(0.0), at(1.0), "a"),
        Err(MuxerError::SubtitleNotConfigured)
    );
    // Without a frame there is nothing to write.
    let mut m = mkv(with_video(VideoCodec::Vp9));
    assert_eq!(
        m.finish_in_place(),
        Err(MuxerError::Io(InputFault::Matroska(MkvWriterError::NoTracks)))
    );
}

/// Faults of the writers read as the writers phrase them.
#[test]
fn faults_have_messages() {
    assert_eq!(
        InputFault::Matroska(MkvWriterError::NoTracks).message(),
        "no tracks to mux: enable at least one track and write samples"
    );
    assert_eq!(
        InputFault::Ogg(OggWriterError::NonIncreasingTimestamp).message(),
        "timestamps must grow"
    );
    assert_eq!(
        InputFault::Flac(FlacWriterError::NonMonotonicFrame).message(),
        "FLAC coded numbers went backwards"
    );
    assert_eq!(
        MuxerError::AudioBeforeFirstVideo { audio_pts: at(0.5), first_video_pts: Some(at(1.0)) }
            .message(""),
        "audio PTS 0.500s arrives before first video PTS 1.000s: write video frames first, \
         or ensure audio PTS >= video PTS"
    );
    assert_eq!(MuxerError::SizeOverflow.message(""), "container size overflow");
    assert_eq!(
        ManifestFault::EmptyVideoSample.message("a.bin"),
        "video sample a.bin is empty"
    );
    assert_eq!(
        Vp9Error::ParseError("VP9 reserved bit set").message(),
        "VP9 parse error: VP9 reserved bit set"
    );
}

#[test]
fn times_do_not_overflow() {
    let m = muxer();
    let sample = |pts: i64, dts: i64, duration: u32| EncodedSample {
        data: PACKET,
        timing: SampleTime { pts, dts, duration },
        is_sync: true,
    };
    assert_eq!(
        m.write_audio_sample(sample(i64::MAX, i64::MAX, 960)),
        Err(MuxerError::TimestampOverflow)
    );
    assert_eq!(
        rescale(i64::MAX, Timescale::new(1), Timescale::new(2)),
        Err(MuxerError::TimestampOverflow)
    );
    assert_eq!(
        checked_u32(0x1_0000_0000, "track_ID"),
        Err(MuxerError::FieldTooLarge { field: "track_ID", value: 0x1_0000_0000 })
    );
    assert_eq!(
        SubtitleCue::new(-1, 500, "hi").err(),
        Some(MuxerError::NegativeSubtitleDts { dts: -1 })
    );
}

#[test]
fn audio_profiles_name_their_codec() {
    let config = FragmentConfig::default();
    assert_eq!(
        CmafProfile::Aac.check_config(&config, Some(AudioCodec::Opus)),
        Err(CmafError::CodecMismatch { profile: "caac", detail: "caac requires an AAC codec" })
    );
    assert_eq!(
        CmafProfile::Flac.check_config(&config, Some(AudioCodec::Opus)),
        Err(CmafError::CodecMismatch { profile: "cfla", detail: "cfla requires FLAC" })
    );
    assert_eq!(CmafProfile::Flac.check_config(&config, Some(AudioCodec::Flac)), Ok(()));
}

#[test]
fn vp9_profile_three_has_a_reserved_bit() {
    assert_eq!(is_vp9_keyframe(&[0xB8, 0, 0, 0]), Err(Vp9Error::InvalidReservedBit));
}

#[test]
fn handle_faults_have_outcomes() {
    assert_eq!(decode_audio(99), Err(ArgumentFault::UnknownAudioCodec(99)));
    assert_eq!(ArgumentFault::NullBuilder.status(), MuxfinStatus::NullArgument);
    assert_eq!(ArgumentFault::NullMuxer.status(), MuxfinStatus::NullArgument);
    assert_eq!(ArgumentFault::EmptySubtitle.status(), MuxfinStatus::InvalidArgument);
    assert_eq!(ArgumentFault::EmptySubtitle.message(), "null or empty subtitle text");
}
