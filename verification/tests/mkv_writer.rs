use muxfin::api::{AacProfile, AudioCodec, VideoCodec};
use muxfin::muxer::mkv::{
    aac_audio_specific_config, opus_head, ticks_to_ms, unix_to_ebml_date, MkvContainer,
    OPUS_PRE_SKIP,
};

#[test]
fn ticks_to_ms_converts_90khz() {
    assert_eq!(ticks_to_ms(90_000), 1000);
    assert_eq!(ticks_to_ms(45_000), 500);
    assert_eq!(ticks_to_ms(0), 0);
}

#[test]
fn asc_from_adts_header() {
    // ADTS header for AAC-LC, 44.1 kHz, stereo:
    // profile=1 (LC), sf_idx=4 (44100), channels=2
    let header = [0xFF, 0xF1, 0x50, 0x80];
    assert_eq!(aac_audio_specific_config(header), [0x12, 0x10]);
}

#[test]
fn opus_head_layout() {
    let head = opus_head(2);
    assert_eq!(head.len(), 19);
    assert_eq!(&head[..8], b"OpusHead");
    assert_eq!(head[8], 1); // version
    assert_eq!(head[9], 2); // channels
    assert_eq!(u16::from_le_bytes([head[10], head[11]]), OPUS_PRE_SKIP);
    assert_eq!(
        u32::from_le_bytes([head[12], head[13], head[14], head[15]]),
        48000
    );
}

#[test]
fn unix_to_ebml_date_epoch() {
    // 2001-01-01T00:00:00Z == 978307200 unix
    assert_eq!(unix_to_ebml_date(978_307_200), 0);
    assert_eq!(unix_to_ebml_date(978_307_201), 1_000_000_000);
}

#[test]
fn webm_whitelist() {
    assert!(MkvContainer::WebM.supports_video(VideoCodec::Vp9));
    assert!(MkvContainer::WebM.supports_video(VideoCodec::Av1));
    assert!(!MkvContainer::WebM.supports_video(VideoCodec::H264));
    assert!(!MkvContainer::WebM.supports_video(VideoCodec::H265));
    assert!(MkvContainer::WebM.supports_audio(AudioCodec::Opus));
    assert!(!MkvContainer::WebM.supports_audio(AudioCodec::Aac(AacProfile::Lc)));
    assert!(MkvContainer::Matroska.supports_video(VideoCodec::H264));
    assert!(MkvContainer::Matroska.supports_video(VideoCodec::H265));
}
