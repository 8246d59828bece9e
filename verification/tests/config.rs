use muxfin::api::{
    AacProfile, AudioCodec, ContainerFormat, FrameRate, Metadata, MuxerConfig, SubtitleCodec,
    VideoCodec,
};

fn rate(framerate: f64) -> FrameRate {
    FrameRate { bits: framerate.to_bits() }
}

#[test]
fn metadata_new_creates_empty_metadata() {
    let metadata = Metadata::new();
    assert!(metadata.title.is_none());
    assert!(metadata.language.is_none());
    assert!(metadata.creation_time.is_none());
}

#[test]
fn metadata_with_title_sets_title() {
    let metadata = Metadata::new().with_title("Test Title");
    assert_eq!(metadata.title, Some("Test Title".to_string()));
}

#[test]
fn metadata_with_language_sets_language() {
    let metadata = Metadata::new().with_language("eng");
    assert_eq!(metadata.language, Some("eng".to_string()));
}

#[test]
fn metadata_with_creation_time_sets_timestamp() {
    let metadata = Metadata::new().with_creation_time(1234567890);
    assert_eq!(metadata.creation_time, Some(1234567890));
}

#[test]
fn metadata_with_current_time_sets_current_timestamp() {
    let before = std::time::SystemTime::now()
        .duration_since(std::time::UNIX_EPOCH)
        .unwrap()
        .as_secs();

    let metadata = Metadata::new().with_current_time();

    let after = std::time::SystemTime::now()
        .duration_since(std::time::UNIX_EPOCH)
        .unwrap()
        .as_secs();

    assert!(metadata.creation_time.is_some());
    let time = metadata.creation_time.unwrap();
    assert!(time >= before && time <= after);
}

#[test]
fn metadata_chaining_works() {
    let metadata = Metadata::new()
        .with_title("Test Movie")
        .with_language("spa")
        .with_creation_time(1000000000);

    assert_eq!(metadata.title, Some("Test Movie".to_string()));
    assert_eq!(metadata.language, Some("spa".to_string()));
    assert_eq!(metadata.creation_time, Some(1000000000));
}

#[test]
fn muxer_config_new_creates_basic_config() {
    let config = MuxerConfig::new(1920, 1080, rate(30.0));
    assert_eq!(config.width, 1920);
    assert_eq!(config.height, 1080);
    assert_eq!(f64::from_bits(config.framerate.bits), 30.0);
    assert!(config.audio.is_none());
    assert!(config.metadata.is_none());
    assert!(config.fast_start);
}

#[test]
fn muxer_config_with_audio_sets_audio_config() {
    let config = MuxerConfig::new(1920, 1080, rate(30.0)).with_audio(
        AudioCodec::Aac(AacProfile::Lc),
        48000,
        2,
    );

    assert!(config.audio.is_some());
    let audio = config.audio.unwrap();
    assert!(matches!(audio.codec, AudioCodec::Aac(AacProfile::Lc)));
    assert_eq!(audio.sample_rate, 48000);
    assert_eq!(audio.channels, 2);
}

#[test]
fn muxer_config_with_audio_none_clears_audio() {
    let config = MuxerConfig::new(1920, 1080, rate(30.0))
        .with_audio(AudioCodec::Aac(AacProfile::Lc), 48000, 2)
        .with_audio(AudioCodec::NoAudio, 0, 0);

    assert!(config.audio.is_none());
}

#[test]
fn muxer_config_with_metadata_sets_metadata() {
    let metadata = Metadata::new().with_title("Test");
    let config = MuxerConfig::new(1920, 1080, rate(30.0)).with_metadata(metadata);

    assert!(config.metadata.is_some());
    assert_eq!(config.metadata.unwrap().title, Some("Test".to_string()));
}

#[test]
fn muxer_config_with_fast_start_sets_fast_start() {
    let config = MuxerConfig::new(1920, 1080, rate(30.0)).with_fast_start(false);

    assert!(!config.fast_start);
}

#[test]
fn muxer_config_chaining_works() {
    let metadata = Metadata::new()
        .with_title("Chained Test")
        .with_language("eng");

    let config = MuxerConfig::new(1280, 720, rate(24.0))
        .with_audio(AudioCodec::Opus, 48000, 1)
        .with_metadata(metadata)
        .with_fast_start(false);

    assert_eq!(config.width, 1280);
    assert_eq!(config.height, 720);
    assert_eq!(f64::from_bits(config.framerate.bits), 24.0);
    assert!(config.audio.is_some());
    assert!(config.metadata.is_some());
    assert!(!config.fast_start);

    let audio = config.audio.unwrap();
    assert!(matches!(audio.codec, AudioCodec::Opus));

    let metadata = config.metadata.unwrap();
    assert_eq!(metadata.title, Some("Chained Test".to_string()));
    assert_eq!(metadata.language, Some("eng".to_string()));
}

#[test]
fn names_are_known_in_any_case() {
    assert_eq!(VideoCodec::from_name("H.264"), Ok(VideoCodec::H264));
    assert_eq!(VideoCodec::from_name("hEvC"), Ok(VideoCodec::H265));
    assert_eq!(
        VideoCodec::from_name("VP8"),
        Err("Unknown video codec: VP8".to_string())
    );
    assert_eq!(AudioCodec::from_name("AAC-HEv2"), Ok(AudioCodec::Aac(AacProfile::Hev2)));
    assert!(AudioCodec::from_name("aac ").is_err());
    assert_eq!(SubtitleCodec::from_name("WebVTT"), Ok(SubtitleCodec::WebVtt));
    assert!(SubtitleCodec::from_name("").is_err());
    assert_eq!(ContainerFormat::from_name("MatroSKA"), Ok(ContainerFormat::Matroska));
    assert_eq!(
        ContainerFormat::from_name("AVI"),
        Err("Unknown container format: AVI (expected mp4, mkv, or webm)".to_string())
    );
    // The sign of the kelvin is a letter k in lower case.
    assert_eq!(ContainerFormat::from_name("M\u{212A}V"), Ok(ContainerFormat::Matroska));
}
