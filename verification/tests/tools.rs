//! The rules of the command line.

use muxfin::api::builder::AudioChoice;
use muxfin::api::{
    AacProfile, AudioCodec, ContainerFormat, FrameRate, Metadata, MuxerBuilder, Seconds,
    SubtitleCodec, VideoCodec,
};
use muxfin::time::SampleTime;
use muxfin::tool::boxes::{classify, list_boxes, summarize, BoxEntry, MediaKind};
use muxfin::tool::hex::{decode_hex, read_hex_bytes, valid_message, validate_hex, HexFault};
use muxfin::tool::inputs::{
    check_plan, check_request, detect_audio_container, plan_tracks, AudioContainer, AudioSource,
    MuxRefusal, MuxRequest, TrackBreach,
};
use muxfin::tool::manifest::{
    audio_scale, check_audio_entry, check_manifest, check_output, check_video_entry, interleave,
    manifest_rescale, place_audio, place_video, rescale_sample, video_scale, ManifestFault, Turn,
};
use muxfin::tool::matroska::{
    describe, inspect_matroska, MatroskaFault, SegmentReport, TrackKind, TrackReport,
};

fn rate(framerate: f64) -> FrameRate {
    FrameRate { bits: framerate.to_bits() }
}

fn at(seconds: f64) -> Seconds {
    Seconds { bits: seconds.to_bits() }
}

#[test]
fn digits_make_bytes() {
    assert_eq!(read_hex_bytes("00 ff\n7A\t"), vec![0x00, 0xFF, 0x7A]);
    assert_eq!(decode_hex(""), Some(vec![]));
    assert_eq!(decode_hex("abc"), None);
    assert_eq!(decode_hex("zz"), None);
    // A digit behind a sign makes a byte too.
    assert_eq!(decode_hex("+f"), Some(vec![0x0F]));
    assert_eq!(decode_hex("f+"), None);
}

#[test]
fn digits_are_validated() {
    assert_eq!(validate_hex("00ff7a"), Ok(3));
    assert_eq!(validate_hex(" \n"), Err(HexFault::Empty));
    assert_eq!(validate_hex("abc"), Err(HexFault::OddLength));
    assert_eq!(validate_hex("0g"), Err(HexFault::InvalidCharacter('g')));
    assert_eq!(validate_hex("+f"), Err(HexFault::InvalidCharacter('+')));
    assert_eq!(HexFault::Empty.message("video"), "video file is empty");
    assert_eq!(
        HexFault::OddLength.message("audio"),
        "audio file contains odd number of hex characters"
    );
    assert_eq!(
        HexFault::InvalidCharacter('g').message("video"),
        "video file contains invalid hex character: g"
    );
    assert_eq!(valid_message("video", 3), "video file is valid hex (3 bytes)");
}

#[test]
fn files_are_known_by_their_first_bytes() {
    assert_eq!(classify(b"abc"), MediaKind::TooSmall);
    assert_eq!(classify(&[0x1A, 0x45, 0xDF, 0xA3]), MediaKind::Matroska);
    assert_eq!(classify(b"OggS"), MediaKind::Ogg);
    assert_eq!(classify(b"fLaC"), MediaKind::Flac);
    assert_eq!(classify(b"abcd"), MediaKind::TooSmallForMp4);
    assert_eq!(classify(b"\x00\x00\x00\x08ftyp"), MediaKind::Mp4);
    assert_eq!(detect_audio_container(b"OggS"), Some(AudioContainer::Ogg));
    assert_eq!(detect_audio_container(b"fLaC"), Some(AudioContainer::Flac));
    assert_eq!(detect_audio_container(b"RIFF"), None);
}

#[test]
fn boxes_follow_each_other() {
    let mut file = b"\x00\x00\x00\x10ftypisom\x00\x00\x00\x00".to_vec();
    file.extend_from_slice(b"\x00\x00\x00\x08moov\x00\x00\x00\x08mp4a\x00\x00\x00\x08vp09");
    let boxes = list_boxes(&file);
    let at = |k: usize| match boxes[k] {
        BoxEntry::Known { kind, size, offset } => (kind.to_be_bytes(), size, offset),
        BoxEntry::Overrun { .. } => panic!("box {k} is too long"),
    };
    assert_eq!(boxes.len(), 4);
    assert_eq!(at(0), (*b"ftyp", 16, 0));
    assert_eq!(at(1), (*b"moov", 8, 16));
    assert_eq!(at(3), (*b"vp09", 8, 32));
    let summary = summarize(&boxes);
    assert!(summary.is_valid && summary.has_audio);
    assert_eq!(summary.video_codec, "VP9");

    // A box that is too long ends the list, as does one without a size.
    file.extend_from_slice(b"\x00\x00\x00\x09mdat");
    let boxes = list_boxes(&file);
    assert!(matches!(boxes[4], BoxEntry::Overrun { size: 9, offset: 40 }));
    file.truncate(40);
    file.extend_from_slice(b"\x00\x00\x00\x00mdat\x00\x00\x00\x08free");
    assert_eq!(list_boxes(&file).len(), 4);
    assert!(!summarize(&list_boxes(&file[16..])).is_valid);
}

fn request() -> MuxRequest {
    MuxRequest {
        has_video: true,
        has_audio: true,
        width: Some(640),
        height: Some(480),
        fps: Some(rate(30.0)),
        video_codec: None,
        audio_codec: None,
        sample_rate: None,
        channels: None,
        format: ContainerFormat::Matroska,
        fragmented: false,
        output_exists: false,
        overwrite: false,
        dry_run: false,
    }
}

#[test]
fn options_that_do_not_go_together() {
    assert_eq!(check_request(&request()), None);
    let exists = MuxRequest { output_exists: true, ..request() };
    assert_eq!(check_request(&exists), Some(MuxRefusal::OutputExists));
    assert_eq!(check_request(&MuxRequest { overwrite: true, ..exists }), None);
    assert_eq!(check_request(&MuxRequest { dry_run: true, ..exists }), None);
    let none = MuxRequest { has_video: false, has_audio: false, ..request() };
    assert_eq!(check_request(&none), Some(MuxRefusal::NoInput));
    let no_rate = MuxRequest { fps: None, ..request() };
    assert_eq!(check_request(&no_rate), Some(MuxRefusal::VideoParametersMissing));
    assert_eq!(
        MuxRefusal::OutputExists.message("a.mkv"),
        "output a.mkv exists (use --overwrite to replace)"
    );
    assert_eq!(
        MuxRefusal::NotFlac(AudioCodec::Opus).message(""),
        "--audio-codec Opus conflicts with FLAC input"
    );
}

#[test]
fn tracks_come_from_options_and_input() {
    let ogg = AudioSource::OggOpus { channels: 1 };
    let plan = plan_tracks(&request(), Some(ogg)).unwrap();
    assert_eq!(plan.video.map(|video| video.codec), Some(VideoCodec::H264));
    let expected = AudioChoice { codec: AudioCodec::Opus, sample_rate: 48_000, channels: 1 };
    assert_eq!(plan.audio, Some(expected));
    assert_eq!(check_plan(&plan), None);

    let flac = AudioSource::Flac { sample_rate: 44_100, channels: 2 };
    let six = MuxRequest { channels: Some(6), ..request() };
    let plan = plan_tracks(&six, Some(flac)).unwrap();
    let expected = AudioChoice { codec: AudioCodec::Flac, sample_rate: 44_100, channels: 6 };
    assert_eq!(plan.audio, Some(expected));

    let aac = AudioCodec::Aac(AacProfile::Lc);
    let named = MuxRequest { audio_codec: Some(aac), ..request() };
    assert_eq!(plan_tracks(&named, Some(ogg)), Err(MuxRefusal::NotOggOpus(aac)));
    assert_eq!(plan_tracks(&named, Some(flac)), Err(MuxRefusal::NotFlac(aac)));
    assert_eq!(
        plan_tracks(&request(), Some(AudioSource::Raw)),
        Err(MuxRefusal::AudioParametersMissing)
    );
    let fragmented = MuxRequest { fragmented: true, ..request() };
    assert_eq!(plan_tracks(&fragmented, None), Err(MuxRefusal::Fragmented));
    let in_ogg = MuxRequest { format: ContainerFormat::Ogg, ..request() };
    assert_eq!(plan_tracks(&in_ogg, None), Err(MuxRefusal::VideoInOgg));
    let in_flac = MuxRequest { format: ContainerFormat::Flac, ..request() };
    assert_eq!(plan_tracks(&in_flac, None), Err(MuxRefusal::VideoInFlac));
}

#[test]
fn tracks_stay_within_limits() {
    let breach = |request: MuxRequest| {
        let raw = MuxRequest {
            sample_rate: request.sample_rate.or(Some(48_000)),
            channels: request.channels.or(Some(2)),
            ..request
        };
        check_plan(&plan_tracks(&raw, Some(AudioSource::Raw)).unwrap())
    };
    assert_eq!(breach(request()), None);
    assert_eq!(breach(MuxRequest { width: Some(319), ..request() }), Some(TrackBreach::Dimensions));
    assert_eq!(
        breach(MuxRequest { height: Some(2161), ..request() }),
        Some(TrackBreach::Dimensions)
    );
    for fps in [0.0, -1.0, 120.5, f64::NAN, f64::INFINITY] {
        let wrong = MuxRequest { fps: Some(rate(fps)), ..request() };
        assert_eq!(breach(wrong), Some(TrackBreach::Rate), "{fps}");
    }
    for fps in [5e-324, 29.97, 120.0] {
        assert_eq!(breach(MuxRequest { fps: Some(rate(fps)), ..request() }), None, "{fps}");
    }
    let silent = MuxRequest { audio_codec: Some(AudioCodec::NoAudio), ..request() };
    assert_eq!(breach(silent), Some(TrackBreach::AudioCodec));
    let fast = MuxRequest { sample_rate: Some(192_001), ..request() };
    assert_eq!(breach(fast), Some(TrackBreach::SampleRate));
    let many = MuxRequest { channels: Some(9), ..request() };
    assert_eq!(breach(many), Some(TrackBreach::Channels));
    assert_eq!(
        TrackBreach::Channels.message(),
        "Audio channels must be positive and within reasonable limits"
    );
}

fn timing(pts: i64, dts: i64, duration: u32) -> SampleTime {
    SampleTime { pts, dts, duration }
}

#[test]
fn manifests_are_checked() {
    assert_eq!(check_manifest(0, true, true), Some(ManifestFault::ZeroTimescale));
    assert_eq!(check_manifest(1, false, false), Some(ManifestFault::NoTracks));
    assert_eq!(check_manifest(1, false, true), None);
    let video = check_video_entry;
    assert_eq!(video(None, timing(0, 0, 0)), Some(ManifestFault::ZeroVideoDuration));
    assert_eq!(video(None, timing(0, -1, 1)), Some(ManifestFault::NegativeVideoTime));
    assert_eq!(video(Some(5), timing(9, 5, 1)), Some(ManifestFault::VideoOrder));
    assert_eq!(video(Some(5), timing(9, 6, 1)), None);
    let audio = check_audio_entry;
    assert_eq!(audio(None, timing(0, 0, 0)), Some(ManifestFault::ZeroAudioDuration));
    assert_eq!(audio(None, timing(-1, 0, 1)), Some(ManifestFault::NegativeAudioTime));
    assert_eq!(audio(Some(5), timing(9, 4, 1)), Some(ManifestFault::AudioOrder));
    assert_eq!(audio(Some(5), timing(9, 5, 1)), None);
    assert_eq!(
        ManifestFault::EmptyAudioSample.message("a.raw"),
        "audio sample a.raw is empty"
    );
}

#[test]
fn samples_take_turns_by_decode_time() {
    let video = [timing(0, 0, 3000), timing(3000, 3000, 3000), timing(6000, 6000, 3000)];
    let audio = [timing(0, 0, 1024), timing(1024, 1024, 1024), timing(9000, 9000, 1024)];
    let order = interleave(&video, &audio, 90_000, 48_000);
    // 1024 / 48000 s comes before 3000 / 90000 s; 9000 / 48000 s after all.
    let expected =
        [Turn::Video, Turn::Audio, Turn::Audio, Turn::Video, Turn::Video, Turn::Audio];
    assert_eq!(order, expected);
    assert_eq!(interleave(&[], &audio[..1], 90_000, 48_000), [Turn::Audio]);
}

#[test]
fn manifest_times_are_rescaled() {
    assert_eq!(manifest_rescale(1001, 30_000, 90_000).ok(), Some(3003));
    assert_eq!(manifest_rescale(1, 3, 1).ok(), Some(0));
    assert_eq!(manifest_rescale(-1, 2, 1).ok(), Some(0));
    assert!(manifest_rescale(i64::MAX, 1, 2).is_err());
    let moved = rescale_sample(timing(2002, 1001, 1001), 30_000, 90_000).unwrap();
    assert_eq!(moved, timing(6006, 3003, 3003));
    assert!(rescale_sample(timing(0, 0, 0), 1, 1).is_err());
}

#[test]
fn manifest_output_is_not_replaced() {
    assert_eq!(check_output(true, false, false), Some(ManifestFault::OutputExists));
    assert_eq!(check_output(true, true, false), None);
    assert_eq!(check_output(true, false, true), None);
    assert_eq!(check_output(false, false, false), None);
    assert_eq!(
        ManifestFault::OutputExists.message("out.mp4"),
        "output out.mp4 exists (use --overwrite to replace)"
    );
}

#[test]
fn manifest_samples_are_placed() {
    assert_eq!((video_scale(None), audio_scale(None)), (90_000, 48_000));
    assert_eq!((video_scale(Some(0)), audio_scale(Some(0))), (1, 1));
    assert_eq!((video_scale(Some(30_000)), audio_scale(Some(44_100))), (30_000, 44_100));
    let video = place_video(timing(2002, 1001, 1001), 30_000).unwrap();
    assert_eq!(video, timing(6006, 3003, 3003));
    // Of an audio sample the decode time is that of its sound.
    let audio = place_audio(timing(2048, 7, 1024), 48_000, 96_000).unwrap();
    assert_eq!(audio, timing(4096, 4096, 2048));
}

/// A file of the muxer, as the reader of another crate sees it.
#[test]
fn a_written_file_is_described() {
    let mut muxer = MuxerBuilder::new()
        .video(VideoCodec::Vp9, 100, 80, rate(30.0))
        .audio(AudioCodec::Opus, 48_000, 2)
        .subtitle(SubtitleCodec::MovText, Some("deu".to_string()))
        .with_metadata(Metadata::new().with_title("described"))
        .build_mkv()
        .unwrap();
    let key = [0x82, 0x49, 0x83, 0x42, 0x20, 0x06, 0x30, 0x06, 0x30, 0, 0, 0, 0];
    let inter = [0x84, 0x00, 0x00, 0x00];
    let packet = [0xF8, 0x00, 0x01, 0x02];
    muxer.write_video(at(0.0), &key, &key, true, None).unwrap();
    muxer.write_audio(at(0.0), &packet, None).unwrap();
    muxer.write_subtitle(at(0.25), at(0.5), "text").unwrap();
    muxer.write_video(at(0.5), &inter, &inter, false, None).unwrap();
    muxer.write_video(at(1.0), &key, &key, true, None).unwrap();
    let file = muxer.finish().unwrap();

    let report = inspect_matroska(&file).unwrap();
    assert_eq!(report.doc_type, "matroska");
    assert_eq!(report.title.as_deref(), Some("described"));
    // Two keyframes begin two clusters, each with its cue. The last frame
    // lasts as long as the one before it.
    assert_eq!((report.clusters, report.cues), (2, 2));
    assert_eq!(report.duration.map(f64::from_bits), Some(1500.0));
    let kinds: Vec<TrackKind> = report.tracks.iter().map(|track| track.kind).collect();
    assert_eq!(kinds, [TrackKind::Video, TrackKind::Audio, TrackKind::Subtitle]);
    assert_eq!(report.tracks[0].codec, "V_VP9");
    assert_eq!(report.tracks[0].size, Some((100, 80)));
    assert_eq!(report.tracks[1].sound, Some((48_000.0f64.to_bits(), 2)));
    assert_eq!(report.tracks[2].language.as_deref(), Some("deu"));
}

/// An element with a length of four bytes.
fn element(id: u32, body: &[u8]) -> Vec<u8> {
    let id = id.to_be_bytes();
    let lead = id.iter().position(|byte| *byte != 0).unwrap();
    let mut out = id[lead..].to_vec();
    out.extend_from_slice(&(0x1000_0000 | body.len() as u32).to_be_bytes());
    out.extend_from_slice(body);
    out
}

/// A simple tag in so many others.
fn nested_tag(depth: usize) -> Vec<u8> {
    let name = element(0x45A3, b"name");
    let mut tag = element(0x67C8, &name);
    for _ in 0..depth {
        tag = element(0x67C8, &[name.clone(), tag].concat());
    }
    tag
}

/// A file with one packet, and with further elements in its segment.
fn file_with(more: &[u8]) -> Vec<u8> {
    let mut muxer = MuxerBuilder::new()
        .audio(AudioCodec::Opus, 48_000, 2)
        .build_mkv()
        .unwrap();
    muxer.write_audio(at(0.0), &[0xF8, 0x00, 0x01, 0x02], None).unwrap();
    let file = muxer.finish().unwrap();
    let start = file.windows(4).position(|id| id == [0x18, 0x53, 0x80, 0x67]).unwrap();
    // The length of the segment is of as many bytes as its first one says.
    let body = start + 5 + file[start + 4].leading_zeros() as usize;
    let segment = [&file[body..], more].concat();
    [file[..start].to_vec(), element(0x1853_8067, &segment)].concat()
}

/// Tags around some simple tags.
fn tags(content: Vec<u8>) -> Vec<u8> {
    let tag = [element(0x63C0, &[]), content].concat();
    element(0x1254_C367, &element(0x7373, &tag))
}

/// Chapters around some contents of the innermost chapter.
fn chapters(depth: usize, innermost: &[u8]) -> Vec<u8> {
    let number = element(0x73C4, &[1]);
    let start = element(0x91, &[0]);
    let mut chapter = innermost.to_vec();
    for _ in 0..depth {
        chapter = element(0xB6, &[number.clone(), start.clone(), chapter].concat());
    }
    element(0x1043_A770, &element(0x45B9, &chapter))
}

/// Tags and chapters are read however deep they lie in one another.
#[test]
fn deep_tags_and_chapters_are_read() {
    for depth in [0, 1, 28, 29, 30, 31, 58, 59, 60, 90, 1_000, 20_000] {
        let file = file_with(&tags(nested_tag(depth)));
        assert_eq!(inspect_matroska(&file).unwrap().clusters, 1, "{depth}");
    }
    for depth in [1, 29, 30, 31, 59, 60, 61, 1_000] {
        let file = file_with(&chapters(depth, &[]));
        assert_eq!(inspect_matroska(&file).unwrap().clusters, 1, "{depth}");
    }
    // Two deep runs next to each other.
    let both = [nested_tag(100), nested_tag(70)].concat();
    assert!(inspect_matroska(&file_with(&tags(both))).is_ok());
    // Elements of other kinds lie in one another without harm.
    let mut other = vec![0];
    for _ in 0..40 {
        other = element(0xEC, &other);
    }
    assert!(inspect_matroska(&file_with(&other)).is_ok());
}

/// The number of a duration and of a sample rate comes out as the file has it,
/// in either precision.
#[test]
fn numbers_of_a_file_are_told() {
    let file = file_with(&[]);
    let report = inspect_matroska(&file).unwrap();
    assert_eq!(report.tracks[0].sound, Some((48_000.0f64.to_bits(), 2)));
    let duration = report.duration.map(f64::from_bits);
    let at = file.windows(2).position(|id| id == [0x44, 0x89]).map(|at| at + 3);
    let stored = at.map(|at| match file[at - 1] {
        0x84 => f64::from(f32::from_be_bytes(file[at..at + 4].try_into().unwrap())),
        _ => f64::from_be_bytes(file[at..at + 8].try_into().unwrap()),
    });
    assert_eq!(duration, stored);
    assert!(duration.is_some());
}

/// A fault is found however deep it lies, and the message is that of a fault
/// that does not.
#[test]
fn deep_faults_are_found() {
    let message = |file: &[u8]| match inspect_matroska(file) {
        Err(MatroskaFault::Segment(message)) => message,
        other => panic!("{other:?}"),
    };
    // A tag without its name.
    let nameless = |depth: usize| {
        let mut tag = element(0x67C8, &[]);
        for _ in 0..depth {
            tag = element(0x67C8, &[element(0x45A3, b"name"), tag].concat());
        }
        file_with(&tags(tag))
    };
    let near = message(&nameless(3));
    for depth in [29, 30, 31, 32, 100, 2_000] {
        assert_eq!(message(&nameless(depth)), near);
    }
    // A chapter that says it is longer than what holds it.
    let cut = |depth: usize| file_with(&chapters(depth, &[0xB6, 0x85, 0, 0]));
    let near = message(&cut(3));
    for depth in [29, 30, 31, 200] {
        assert_eq!(message(&cut(depth)), near);
    }
    // A fault in the second of two deep runs.
    let mut second = element(0x67C8, &[]);
    for _ in 0..50 {
        second = element(0x67C8, &[element(0x45A3, b"name"), second].concat());
    }
    let both = [second, nested_tag(70)].concat();
    assert!(inspect_matroska(&file_with(&tags(both))).is_err());
}

/// A number of an element may take more bytes than it needs.
#[test]
fn deep_tags_are_known_by_wide_numbers() {
    let mut tag = element(0x45A3, b"name");
    for k in 0..200 {
        let body = [element(0x45A3, b"name"), tag].concat();
        let mut wide = vec![0x10, 0x00, 0x27, 0xC8];
        wide.extend_from_slice(&(0x1000_0000 | body.len() as u32).to_be_bytes());
        wide.extend_from_slice(&body);
        tag = if k % 2 == 0 { wide } else { element(0x67C8, &body) };
        if k == 0 {
            tag = element(0x67C8, &element(0x45A3, b"name"));
        }
    }
    assert!(inspect_matroska(&file_with(&tags(tag))).is_ok());
}

#[test]
fn unreadable_files_say_where() {
    assert!(matches!(inspect_matroska(&[]), Err(MatroskaFault::Header(_))));
    assert!(matches!(inspect_matroska(b"no element"), Err(MatroskaFault::Header(_))));
    let header = [0x1A, 0x45, 0xDF, 0xA3, 0x80];
    assert!(matches!(inspect_matroska(&header), Err(MatroskaFault::Segment(_))));
}

#[test]
fn of_an_unknown_track_little_is_told() {
    let track = TrackReport::new(
        4,
        3,
        "X".to_string(),
        "und".to_string(),
        Some((1, 2)),
        Some((0, 1)),
    );
    let segment = SegmentReport {
        title: None,
        duration: None,
        tracks: vec![track],
        clusters: 0,
        cues: None,
    };
    let report = describe(None, segment);
    assert_eq!(report.doc_type, "unknown");
    // No cues at all count as none.
    assert_eq!(report.cues, 0);
    let line = &report.tracks[0];
    assert_eq!(line.kind, TrackKind::Unknown(3));
    assert_eq!(line.kind.name(), "unknown(3)");
    assert_eq!((line.number, line.codec.as_str()), (4, "X"));
    assert!(line.language.is_none() && line.size.is_none() && line.sound.is_none());
}
