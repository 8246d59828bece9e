use muxfin::api::{FrameRate, MuxerBuilder, VideoCodec};
use muxfin::handle::{
    check_sample, decode_audio, decode_subtitle, decode_video, ArgumentFault, MuxfinBuilderHandle,
    MuxfinStatus,
};

fn rate(framerate: f64) -> FrameRate {
    FrameRate { bits: framerate.to_bits() }
}

#[test]
fn invalid_codes_rejected() {
    let mut b = MuxfinBuilderHandle::new();
    assert_eq!(
        b.set_video(99, 640, 480, rate(30.0)).map_err(|fault| fault.status()),
        Err(MuxfinStatus::InvalidArgument)
    );
    assert_eq!(
        b.set_audio(99, 48_000, 2).map_err(|fault| fault.status()),
        Err(MuxfinStatus::InvalidArgument)
    );
}

#[test]
fn statuses_have_their_numbers() {
    assert_eq!(MuxfinStatus::Success.code(), 0);
    assert_eq!(MuxfinStatus::NullArgument.code(), 1);
    assert_eq!(MuxfinStatus::InvalidArgument.code(), 2);
    assert_eq!(MuxfinStatus::BuildFailed.code(), 3);
    assert_eq!(MuxfinStatus::WriteFailed.code(), 4);
    assert_eq!(MuxfinStatus::FinishFailed.code(), 5);
    assert_eq!(ArgumentFault::NullSample.status(), MuxfinStatus::NullArgument);
    assert_eq!(ArgumentFault::EmptySample.status(), MuxfinStatus::InvalidArgument);
}

#[test]
fn parameters_are_checked() {
    let mut b = MuxfinBuilderHandle::new();
    assert_eq!(b.set_video(0, 0, 480, rate(30.0)), Err(ArgumentFault::VideoParameters));
    assert_eq!(b.set_video(0, 640, 480, rate(0.0)), Err(ArgumentFault::VideoParameters));
    assert_eq!(b.set_video(0, 640, 480, rate(f64::NAN)), Err(ArgumentFault::VideoParameters));
    assert_eq!(b.set_video(0, 640, 480, rate(-1.0)), Err(ArgumentFault::VideoParameters));
    assert_eq!(b.set_video(0, 640, 480, rate(29.97)), Ok(()));
    assert_eq!(b.set_audio(0, 0, 2), Err(ArgumentFault::AudioParameters));
    assert_eq!(b.set_audio(0, 48_000, 0), Err(ArgumentFault::AudioParameters));
    assert_eq!(b.set_flac_streaminfo(&[0; 33]), Err(ArgumentFault::Streaminfo));
    assert_eq!(b.set_flac_streaminfo(&[0; 34]), Ok(()));
    assert_eq!(b.set_subtitle(99, None), Err(ArgumentFault::UnknownSubtitleCodec(99)));
    let builder = b.apply_builder(MuxerBuilder::new());
    assert_eq!(builder.video.map(|choice| choice.width), Some(640));
    assert_eq!(builder.flac_streaminfo, Some(vec![0; 34]));
}

#[test]
fn codes_stand_for_codecs() {
    assert_eq!(decode_video(0), Ok(VideoCodec::H264));
    assert_eq!(decode_video(3), Ok(VideoCodec::Vp9));
    assert_eq!(decode_video(4), Err(ArgumentFault::UnknownVideoCodec(4)));
    assert!(decode_audio(0).is_ok());
    assert!(decode_subtitle(0).is_ok());
    assert_eq!(
        ArgumentFault::UnknownVideoCodec(4).message(),
        "unknown video codec code 4"
    );
}

#[test]
fn samples_are_neither_missing_nor_empty() {
    assert_eq!(check_sample(None), Some(ArgumentFault::NullSample));
    assert_eq!(check_sample(Some(0)), Some(ArgumentFault::EmptySample));
    assert_eq!(check_sample(Some(1)), None);
}
