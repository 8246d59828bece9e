//! What the tool reads from files and requests.

use vstd::prelude::*;
use crate::api::{AacProfile, AudioCodec, ContainerFormat, MuxerError, VideoCodec};
use crate::text;
use crate::time::{self, SampleTime};
use crate::tool::boxes::{self, BoxEntry, MediaKind};
use crate::tool::hex::{self, HexFault};
use crate::tool::inputs::{
    self, AudioContainer, AudioSource, MuxRefusal, MuxRequest, TrackBreach, TrackPlan,
};
use crate::tool::manifest::{self, ManifestFault, Turn};
use crate::tool::matroska::{self, MatroskaReport, SegmentModel, TrackKind, TrackLine, TrackReportModel};
use crate::wire;

verus! {

/// The digits of base 16.
pub open spec fn hex_digit(value: int, large: bool) -> char {
    if value == 0 {
        '0'
    } else if value == 1 {
        '1'
    } else if value == 2 {
        '2'
    } else if value == 3 {
        '3'
    } else if value == 4 {
        '4'
    } else if value == 5 {
        '5'
    } else if value == 6 {
        '6'
    } else if value == 7 {
        '7'
    } else if value == 8 {
        '8'
    } else if value == 9 {
        '9'
    } else if value == 10 {
        if large {
            'A'
        } else {
            'a'
        }
    } else if value == 11 {
        if large {
            'B'
        } else {
            'b'
        }
    } else if value == 12 {
        if large {
            'C'
        } else {
            'c'
        }
    } else if value == 13 {
        if large {
            'D'
        } else {
            'd'
        }
    } else if value == 14 {
        if large {
            'E'
        } else {
            'e'
        }
    } else {
        if large {
            'F'
        } else {
            'f'
        }
    }
}

/// Digits, large or small, have their values, and nothing else has one.
pub proof fn digits_have_their_values(value: int, large: bool, c: char)
    requires
        0 <= value < 16,
    ensures
        hex::digit_value(hex_digit(value, large)) == Some(value as u8),
        hex::digit_value(c) matches Some(v) ==> c == hex_digit(v as int, true) || c == hex_digit(
            v as int,
            false,
        ),
{
}

/// A byte as two digits.
pub open spec fn hex_pair(byte: u8, large: bool) -> Seq<char> {
    seq![hex_digit(byte as int / 16, large), hex_digit(byte as int % 16, large)]
}

/// Bytes as digits.
pub open spec fn hex_text(bytes: Seq<u8>, large: bool) -> Seq<char>
    decreases bytes.len(),
{
    if bytes.len() == 0 {
        Seq::empty()
    } else {
        hex_pair(bytes[0], large) + hex_text(bytes.drop_first(), large)
    }
}

/// Bytes that are written as digits are read back.
pub proof fn hex_digits_are_read_back(bytes: Seq<u8>, large: bool)
    ensures
        hex::pairs(hex_text(bytes, large)) == Some(bytes),
        hex_text(bytes, large).len() == 2 * bytes.len(),
    decreases bytes.len(),
{
    let s = hex_text(bytes, large);
    if bytes.len() > 0 {
        let rest = bytes.drop_first();
        hex_digits_are_read_back(rest, large);
        let b = bytes[0] as int;
        digits_have_their_values(b / 16, large, '0');
        digits_have_their_values(b % 16, large, '0');
        assert(s.skip(2) =~= hex_text(rest, large));
        assert(s[0] == hex_digit(b / 16, large) && s[1] == hex_digit(b % 16, large));
        assert(seq![bytes[0]] + rest =~= bytes);
    } else {
        assert(bytes =~= Seq::empty());
    }
}

/// White space anywhere between the digits makes no difference: it is taken
/// out, and nothing else is.
pub proof fn only_white_space_is_taken_out(a: Seq<char>, b: Seq<char>)
    ensures
        hex::stripped(a + b) == hex::stripped(a) + hex::stripped(b),
        a.len() == 1 && text::is_white(a[0]) ==> hex::stripped(a).len() == 0,
        a.len() == 1 && !text::is_white(a[0]) ==> hex::stripped(a) == a,
    decreases b.len(),
{
    if b.len() == 0 {
        assert(a + b =~= a);
        assert(hex::stripped(a) + hex::stripped(b) =~= hex::stripped(a));
        if a.len() == 1 {
            assert(a.drop_last() =~= Seq::empty());
            assert(hex::stripped(Seq::empty()) =~= Seq::empty());
            assert(!text::is_white(a[0]) ==> hex::stripped(a) =~= a);
        }
    } else {
        only_white_space_is_taken_out(a, b.drop_last());
        assert((a + b).drop_last() =~= a + b.drop_last());
        assert((a + b).last() == b.last());
        assert(hex::stripped(a + b) =~= hex::stripped(a) + hex::stripped(b));
    }
}

proof fn lemma_non_digit(s: Seq<char>)
    ensures
        hex::first_non_digit(s) is None <==> forall|i: int|
            0 <= i < s.len() ==> hex::digit_value(#[trigger] s[i]) is Some,
        hex::first_non_digit(s) matches Some(c) ==> exists|i: int|
            0 <= i < s.len() && #[trigger] s[i] == c && hex::digit_value(c) is None && forall|j: int|
                0 <= j < i ==> hex::digit_value(#[trigger] s[j]) is Some,
    decreases s.len(),
{
    if s.len() > 0 {
        let less = s.drop_last();
        lemma_non_digit(less);
        assert forall|i: int| 0 <= i < less.len() implies less[i] == #[trigger] s[i] by {}
        if hex::first_non_digit(less) is Some {
            let c = hex::first_non_digit(less)->0;
            let i = choose|i: int|
                0 <= i < less.len() && #[trigger] less[i] == c && hex::digit_value(c) is None
                    && forall|j: int| 0 <= j < i ==> hex::digit_value(#[trigger] less[j]) is Some;
            assert(s[i] == c);
            assert forall|j: int| 0 <= j < i implies hex::digit_value(#[trigger] s[j]) is Some by {
                assert(hex::digit_value(less[j]) is Some);
            }
        } else {
            assert forall|j: int| 0 <= j < s.len() - 1 implies hex::digit_value(
                #[trigger] s[j],
            ) is Some by {
                assert(hex::digit_value(less[j]) is Some);
            }
            assert(s[s.len() - 1] == s.last());
        }
    }
}

/// A file of digits is in order if and only if, white space taken out, it has
/// some, an even number of bytes of text, and nothing but digits; else it is
/// told that it is empty, is odd, or which character comes first that is none.
pub proof fn digit_files_are_in_order_when_they_must(contents: Seq<char>)
    ensures
        ({
            let s = hex::stripped(contents);
            let even = vstd::utf8::encode_utf8(s).len() % 2 == 0;
            &&& hex::hex_fault(contents) is None <==> s.len() > 0 && even && forall|i: int|
                0 <= i < s.len() ==> hex::digit_value(#[trigger] s[i]) is Some
            &&& s.len() == 0 ==> hex::hex_fault(contents) == Some(HexFault::Empty)
            &&& s.len() > 0 && !even ==> hex::hex_fault(contents) == Some(HexFault::OddLength)
            &&& hex::hex_fault(contents) matches Some(HexFault::InvalidCharacter(c)) ==> exists|
                i: int,
            |
                0 <= i < s.len() && #[trigger] s[i] == c && hex::digit_value(c) is None && forall|
                    j: int,
                | 0 <= j < i ==> hex::digit_value(#[trigger] s[j]) is Some
        }),
{
    lemma_non_digit(hex::stripped(contents));
}

proof fn lemma_four(p: Seq<u8>, magic: Seq<u8>)
    requires
        magic.len() == 4,
    ensures
        wire::begins_with(p, magic) <==> p.len() >= 4 && p[0] == magic[0] && p[1] == magic[1]
            && p[2] == magic[2] && p[3] == magic[3],
{
    if p.len() >= 4 {
        let front = p.subrange(0, 4);
        assert(front[0] == p[0] && front[1] == p[1] && front[2] == p[2] && front[3] == p[3]);
        if p[0] == magic[0] && p[1] == magic[1] && p[2] == magic[2] && p[3] == magic[3] {
            assert(front =~= magic);
        }
    }
}

/// Files are told apart by their first four bytes: those of EBML, `OggS` and
/// `fLaC`; what is none of these is taken for MP4, which needs eight.
pub proof fn first_bytes_tell_the_kind(b: Seq<u8>)
    ensures
        boxes::kind_of(b) == MediaKind::TooSmall <==> b.len() < 4,
        boxes::kind_of(b) == MediaKind::Matroska <==> b.len() >= 4 && b[0] == 0x1A && b[1] == 0x45
            && b[2] == 0xDF && b[3] == 0xA3,
        boxes::kind_of(b) == MediaKind::Ogg <==> b.len() >= 4 && b[0] == 0x4F && b[1] == 0x67
            && b[2] == 0x67 && b[3] == 0x53,
        boxes::kind_of(b) == MediaKind::Flac <==> b.len() >= 4 && b[0] == 0x66 && b[1] == 0x4C
            && b[2] == 0x61 && b[3] == 0x43,
        boxes::kind_of(b) == MediaKind::Mp4 ==> b.len() >= 8,
        boxes::kind_of(b) == MediaKind::TooSmallForMp4 ==> 4 <= b.len() < 8,
        inputs::container_of(b) == Some(AudioContainer::Ogg) <==> b.len() >= 4 && b[0] == 0x4F
            && b[1] == 0x67 && b[2] == 0x67 && b[3] == 0x53,
        inputs::container_of(b) == Some(AudioContainer::Flac) <==> b.len() >= 4 && b[0] == 0x66
            && b[1] == 0x4C && b[2] == 0x61 && b[3] == 0x43,
{
    lemma_four(b, boxes::EBML_MAGIC@);
    lemma_four(b, boxes::OGG_MAGIC@);
    lemma_four(b, boxes::FLAC_MAGIC@);
}

/// A box is its length in four bytes, the most significant first, and its kind
/// in four. One that ends in the file is followed by the next; the list ends
/// with one that does not, and in front of a length of zero.
pub proof fn boxes_are_read_from_their_bytes(b: Seq<u8>, o: int)
    requires
        0 <= o,
        b.len() <= usize::MAX,
    ensures
        o + 8 > b.len() ==> boxes::boxes_from(b, o).len() == 0,
        o + 8 <= b.len() ==> ({
            let size = 256 * (256 * (256 * b[o] + b[o + 1]) + b[o + 2]) + b[o + 3];
            let kind = 256 * (256 * (256 * b[o + 4] + b[o + 5]) + b[o + 6]) + b[o + 7];
            let all = boxes::boxes_from(b, o);
            &&& size == 0 ==> all.len() == 0
            &&& size > 0 && o + size > b.len() ==> all == seq![
                BoxEntry::Overrun { size: size as u32, offset: o as usize },
            ]
            &&& size > 0 && o + size <= b.len() ==> all.len() > 0 && all[0] == (BoxEntry::Known {
                kind: kind as u32,
                size: size as u32,
                offset: o as usize,
            }) && all.drop_first() == boxes::boxes_from(b, o + size)
        }),
{
    if o + 8 <= b.len() {
        wire::fields_are_read_in_order(b, o);
        wire::fields_are_read_in_order(b, o + 4);
        let size = 256 * (256 * (256 * b[o] + b[o + 1]) + b[o + 2]) + b[o + 3];
        let all = boxes::boxes_from(b, o);
        if size > 0 && o + size <= b.len() {
            assert(all.drop_first() =~= boxes::boxes_from(b, o + size));
        }
    }
}

/// The names of the video codecs by the boxes that tell them, `avc1`, `hvc1`
/// and `vp09`, in this order.
pub proof fn boxes_tell_the_codec(all: Seq<BoxEntry>)
    ensures
        boxes::has_box(all, 0x6176_6331) ==> boxes::codec_name(all) == seq![
            'H', '.', '2', '6', '4', '/', 'A', 'V', 'C',
        ],
        !boxes::has_box(all, 0x6176_6331) && boxes::has_box(all, 0x6876_6331) ==> boxes::codec_name(
            all,
        ) == seq!['H', '.', '2', '6', '5', '/', 'H', 'E', 'V', 'C'],
        !boxes::has_box(all, 0x6176_6331) && !boxes::has_box(all, 0x6876_6331) && boxes::has_box(
            all,
            0x7670_3039,
        ) ==> boxes::codec_name(all) == seq!['V', 'P', '9'],
        !boxes::has_box(all, 0x6176_6331) && !boxes::has_box(all, 0x6876_6331) && !boxes::has_box(
            all,
            0x7670_3039,
        ) ==> boxes::codec_name(all) == seq!['U', 'n', 'k', 'n', 'o', 'w', 'n'],
{
    reveal_strlit("H.264/AVC");
    reveal_strlit("H.265/HEVC");
    reveal_strlit("VP9");
    reveal_strlit("Unknown");
}

/// A request is refused before anything is read where it would overwrite a
/// file that it may not, where it has no input, and where video lacks its size
/// or its rate; for no other reason.
pub proof fn requests_are_refused_when_they_must(request: MuxRequest)
    ensures
        inputs::request_fault(request) is None <==> !(request.output_exists && !request.overwrite
            && !request.dry_run) && (request.has_video || request.has_audio) && (request.has_video
            ==> request.width is Some && request.height is Some && request.fps is Some),
        request.output_exists && !request.overwrite && !request.dry_run ==> inputs::request_fault(
            request,
        ) == Some(MuxRefusal::OutputExists),
        !request.output_exists && !request.has_video && !request.has_audio ==> inputs::request_fault(
            request,
        ) == Some(MuxRefusal::NoInput),
{
}

/// What a track is made of: the codec of the file that it comes from, with
/// which a codec that was asked for must agree; and the rate and the channels
/// that were asked for, or those of the file. Raw audio must be told both, and
/// is AAC-LC unless told otherwise.
pub proof fn audio_tracks_follow_the_source(request: MuxRequest, source: AudioSource)
    ensures
        source matches AudioSource::OggOpus { channels } ==> {
            &&& request.audio_codec is None || request.audio_codec == Some(AudioCodec::Opus) ==> (
            inputs::audio_track_of(request, source) matches Ok(track) && track.codec
                == AudioCodec::Opus && (request.sample_rate is None ==> track.sample_rate == 48_000)
                && (request.sample_rate is Some ==> Some(track.sample_rate) == request.sample_rate)
                && (request.channels is None ==> track.channels == channels) && (
            request.channels is Some ==> track.channels == request.channels->0))
            &&& request.audio_codec is Some && request.audio_codec != Some(AudioCodec::Opus)
                ==> inputs::audio_track_of(request, source) == Err::<
                crate::api::builder::AudioChoice,
                MuxRefusal,
            >(MuxRefusal::NotOggOpus(request.audio_codec->0))
        },
        source matches AudioSource::Flac { sample_rate, channels } ==> {
            &&& request.audio_codec is None || request.audio_codec == Some(AudioCodec::Flac) ==> (
            inputs::audio_track_of(request, source) matches Ok(track) && track.codec
                == AudioCodec::Flac && (request.sample_rate is None ==> track.sample_rate
                == sample_rate) && (request.sample_rate is Some ==> Some(track.sample_rate)
                == request.sample_rate) && (request.channels is None ==> track.channels == channels)
                && (request.channels is Some ==> track.channels == request.channels->0))
            &&& request.audio_codec is Some && request.audio_codec != Some(AudioCodec::Flac)
                ==> inputs::audio_track_of(request, source) == Err::<
                crate::api::builder::AudioChoice,
                MuxRefusal,
            >(MuxRefusal::NotFlac(request.audio_codec->0))
        },
        source is Raw ==> {
            &&& request.sample_rate is None || request.channels is None ==> inputs::audio_track_of(
                request,
                source,
            ) == Err::<crate::api::builder::AudioChoice, MuxRefusal>(
                MuxRefusal::AudioParametersMissing,
            )
            &&& request.sample_rate is Some && request.channels is Some ==> (
            inputs::audio_track_of(request, source) matches Ok(track) && track.sample_rate
                == request.sample_rate->0 && track.channels == request.channels->0 && (
            request.audio_codec is Some ==> track.codec == request.audio_codec->0) && (
            request.audio_codec is None ==> track.codec == AudioCodec::Aac(AacProfile::Lc)))
        },
{
}

/// The tracks of a request: video of the size and the rate that were asked for,
/// H.264 unless told otherwise, and audio where there is some. Audio files take
/// no video, and fragments are not written here.
pub proof fn plans_follow_the_request(request: MuxRequest, source: Option<AudioSource>)
    ensures
        request.fragmented ==> inputs::planned(request, source) == Err::<TrackPlan, MuxRefusal>(
            MuxRefusal::Fragmented,
        ),
        inputs::planned(request, source) is Ok <==> !request.fragmented && (source is Some
            ==> inputs::audio_track_of(request, source->0) is Ok) && !(request.has_video && (
        request.format == ContainerFormat::Ogg || request.format == ContainerFormat::Flac)),
        inputs::planned(request, source) matches Ok(plan) ==> {
            &&& plan.video is Some <==> request.has_video && request.width is Some
                && request.height is Some && request.fps is Some
            &&& plan.video matches Some(video) ==> video.width == request.width->0 && video.height
                == request.height->0 && video.framerate == request.fps->0 && (
            request.video_codec is Some ==> video.codec == request.video_codec->0) && (
            request.video_codec is None ==> video.codec == VideoCodec::H264)
            &&& plan.audio is Some <==> source is Some
            &&& source is Some ==> inputs::audio_track_of(request, source->0)->Ok_0 == plan.audio->0
        },
{
}

/// Tracks are within limits if and only if video is from 320x240 to 4096x2160 at
/// a rate above 0 and no higher than 120, and audio has a codec, a rate up to
/// 192 kHz and one to eight channels.
pub proof fn limits_of_the_tracks(plan: TrackPlan)
    ensures
        inputs::plan_breach(plan) is None <==> {
            &&& plan.video matches Some(video) ==> 320 <= video.width <= 4096 && 240 <= video.height
                <= 2160 && 0 < video.framerate.bits <= 0x405E_0000_0000_0000
            &&& plan.audio matches Some(audio) ==> !(audio.codec is NoAudio) && 1
                <= audio.sample_rate <= 192_000 && 1 <= audio.channels <= 8
        },
        plan.video matches Some(video) ==> !(320 <= video.width <= 4096 && 240 <= video.height
            <= 2160) ==> inputs::plan_breach(plan) == Some(TrackBreach::Dimensions),
{
}

/// A manifest needs a timescale and a track.
pub proof fn manifests_need_a_timescale_and_a_track(
    timescale: u32,
    has_video: bool,
    has_audio: bool,
)
    ensures
        manifest::manifest_fault(timescale, has_video, has_audio) is None <==> timescale > 0 && (
        has_video || has_audio),
        timescale == 0 ==> manifest::manifest_fault(timescale, has_video, has_audio) == Some(
            ManifestFault::ZeroTimescale,
        ),
        timescale > 0 && !has_video && !has_audio ==> manifest::manifest_fault(
            timescale,
            has_video,
            has_audio,
        ) == Some(ManifestFault::NoTracks),
{
}

/// Entries need a duration and times that are not negative. Video is decoded
/// later than before, audio no earlier.
pub proof fn entries_are_taken_when_they_advance(prev: Option<i64>, timing: SampleTime)
    ensures
        manifest::video_entry_fault(prev, timing) is None <==> timing.duration > 0 && timing.pts
            >= 0 && timing.dts >= 0 && (prev matches Some(before) ==> timing.dts > before),
        manifest::audio_entry_fault(prev, timing) is None <==> timing.duration > 0 && timing.pts
            >= 0 && (prev matches Some(before) ==> timing.dts >= before),
        timing.duration == 0 ==> manifest::video_entry_fault(prev, timing) == Some(
            ManifestFault::ZeroVideoDuration,
        ) && manifest::audio_entry_fault(prev, timing) == Some(ManifestFault::ZeroAudioDuration),
        timing.duration > 0 && (timing.pts < 0 || timing.dts < 0) ==> manifest::video_entry_fault(
            prev,
            timing,
        ) == Some(ManifestFault::NegativeVideoTime),
        timing.duration > 0 && timing.pts < 0 ==> manifest::audio_entry_fault(prev, timing) == Some(
            ManifestFault::NegativeAudioTime,
        ),
{
}

/// The scale of a track is the one given, with 1 for 0, or the usual one.
pub proof fn scales_are_never_zero(given: Option<u32>, usual: u32)
    ensures
        given is None ==> manifest::scale_or(given, usual) == usual,
        given matches Some(scale) ==> scale > 0 ==> manifest::scale_or(given, usual) == scale,
        given == Some(0u32) ==> manifest::scale_or(given, usual) == 1,
{
}

/// The sample whose turn it is: that of the track with the earlier time in
/// seconds, video where both are the same, and what is left where one track has
/// run out.
pub proof fn the_earlier_track_has_its_turn(
    video: Seq<SampleTime>,
    audio: Seq<SampleTime>,
    video_scale: u32,
    audio_scale: u32,
)
    requires
        video_scale > 0 && audio_scale > 0,
    ensures
        ({
            let order = manifest::turns(video, audio, video_scale, audio_scale);
            &&& video.len() > 0 && audio.len() > 0 && video[0].dts * audio_scale <= audio[0].dts
                * video_scale ==> order.len() > 0 && order[0] == Turn::Video && order.drop_first()
                == manifest::turns(video.drop_first(), audio, video_scale, audio_scale)
            &&& video.len() > 0 && audio.len() > 0 && video[0].dts * audio_scale > audio[0].dts
                * video_scale ==> order.len() > 0 && order[0] == Turn::Audio && order.drop_first()
                == manifest::turns(video, audio.drop_first(), video_scale, audio_scale)
            &&& video.len() > 0 && audio.len() == 0 ==> order.len() > 0 && order[0] == Turn::Video
            &&& video.len() == 0 && audio.len() > 0 ==> order.len() > 0 && order[0] == Turn::Audio
            &&& video.len() == 0 && audio.len() == 0 ==> order.len() == 0
        }),
{
    let order = manifest::turns(video, audio, video_scale, audio_scale);
    if video.len() > 0 {
        assert(video.skip(1) =~= video.drop_first());
    }
    if audio.len() > 0 {
        assert(audio.skip(1) =~= audio.drop_first());
    }
    if video.len() > 0 && audio.len() > 0 {
        if video[0].dts * audio_scale <= audio[0].dts * video_scale {
            assert(order.drop_first() =~= manifest::turns(
                video.drop_first(),
                audio,
                video_scale,
                audio_scale,
            ));
        } else {
            assert(order.drop_first() =~= manifest::turns(
                video,
                audio.drop_first(),
                video_scale,
                audio_scale,
            ));
        }
    }
}

/// A sample moves to another scale with each of its times to the nearest tick,
/// halves up; on its own scale it stays as it is. Nothing is left without a
/// duration.
pub proof fn samples_move_to_the_nearest_ticks(timing: SampleTime, from: u32, to: u32)
    requires
        from > 0,
        to > 0,
    ensures
        from == to && timing.duration > 0 ==> manifest::rescaled_sample(timing, from, to) == Ok::<
            SampleTime,
            MuxerError,
        >(timing),
        manifest::rescaled_sample(timing, from, to) matches Ok(moved) ==> {
            &&& -from < 2 * (moved.pts * from - timing.pts * to) <= from
            &&& -from < 2 * (moved.dts * from - timing.dts * to) <= from
            &&& moved.duration > 0
            &&& time::rescaled(timing.duration as int, from as int, to as int) <= u32::MAX
                ==> -from < 2 * (moved.duration * from - timing.duration * to) <= from
        },
{
    let f = from as int;
    let t = to as int;
    time::halves_are_rescaled_up(timing.pts as int, f, t);
    time::halves_are_rescaled_up(timing.dts as int, f, t);
    time::halves_are_rescaled_up(timing.duration as int, f, t);
    time::rescaled_to_same_scale(timing.duration as int, f);
    let d = time::rescaled(timing.duration as int, f, t);
    let n = timing.duration as int;
    assert(d >= 0) by (nonlinear_arith)
        requires
            -f < 2 * (d * f - n * t),
            n >= 0,
            t > 0,
            f > 0,
    ;
}

/// The numbers and the names of the kinds of tracks.
pub proof fn kinds_of_tracks(kind: u64)
    ensures
        TrackKind::numbered(kind) == TrackKind::Video <==> kind == 1,
        TrackKind::numbered(kind) == TrackKind::Audio <==> kind == 2,
        TrackKind::numbered(kind) == TrackKind::Subtitle <==> kind == 17,
        kind != 1 && kind != 2 && kind != 17 ==> TrackKind::numbered(kind) == TrackKind::Unknown(
            kind,
        ),
        TrackKind::Video.name_text() == seq!['v', 'i', 'd', 'e', 'o'],
        TrackKind::Audio.name_text() == seq!['a', 'u', 'd', 'i', 'o'],
        TrackKind::Subtitle.name_text() == seq!['s', 'u', 'b', 't', 'i', 't', 'l', 'e'],
{
    reveal_strlit("video");
    reveal_strlit("audio");
    reveal_strlit("subtitle");
}

/// A line of the report tells of its track what the file does: its number, its
/// kind, its codec, its language, and its size or its sound.
pub proof fn lines_tell_of_their_track(line: TrackLine, track: TrackReportModel)
    requires
        matroska::tells(line, track),
    ensures
        line.number == track.number,
        line.codec@ == track.codec,
        track.kind == 1 || track.kind == 2 || track.kind == 17 ==> {
            &&& line.language matches Some(language) && language@ == track.language
            &&& line.size == track.size
            &&& line.sound == track.sound
        },
{
}

/// A report has a line for each track, in order, and counts the clusters and
/// the cue points.
pub proof fn reports_tell_of_every_track(
    report: MatroskaReport,
    doc_type: Option<Seq<char>>,
    segment: SegmentModel,
    i: int,
)
    requires
        report.describes(doc_type, segment),
        0 <= i < segment.tracks.len(),
    ensures
        report.tracks@.len() == segment.tracks.len(),
        report.tracks@[i].number == segment.tracks[i].number,
        report.tracks@[i].codec@ == segment.tracks[i].codec,
        report.clusters == segment.clusters,
        segment.cues is None ==> report.cues == 0,
        segment.cues matches Some(cues) ==> report.cues == cues,
        report.duration == segment.duration,
        doc_type matches Some(name) ==> report.doc_type@ == name,
        segment.title matches Some(title) ==> (report.title matches Some(told) && told@ == title),
{
    assert(matroska::tells(report.tracks@[i], segment.tracks[i]));
}

/// Bits stand for a number unless they are beyond those of infinity, the sign
/// aside.
pub proof fn bits_that_are_no_number(bits: u64)
    ensures
        matroska::number_bits(bits) is None <==> 0x7FF0_0000_0000_0000 < bits
            < 0x8000_0000_0000_0000 || bits > 0xFFF0_0000_0000_0000,
        matroska::number_bits(bits) matches Some(same) ==> same == bits,
{
}

/// Two digits are a byte, the first the upper half; a plus sign in front of one
/// digit is passed over; nothing else is a byte.
pub proof fn pairs_of_digits_are_bytes(a: char, b: char)
    ensures
        hex::digit_value(a) is Some && hex::digit_value(b) is Some ==> hex::pair_value(a, b) == Some(
            (16 * hex::digit_value(a)->0 + hex::digit_value(b)->0) as u8,
        ),
        a == '+' && hex::digit_value(b) is Some ==> hex::pair_value(a, b) == hex::digit_value(b),
        hex::digit_value(b) is None ==> hex::pair_value(a, b) is None,
        hex::digit_value(a) is None && a != '+' ==> hex::pair_value(a, b) is None,
{
}

/// A file of digits is read without its white space.
pub proof fn digit_files_are_read_without_white_space(contents: Seq<char>, bytes: Seq<u8>, large: bool)
    requires
        hex::stripped(contents) == hex_text(bytes, large),
    ensures
        hex::hex_bytes(contents) == Some(bytes),
{
    hex_digits_are_read_back(bytes, large);
}

/// A time moves to another scale to the nearest tick, halves up, unless it does
/// not fit there.
pub proof fn times_move_to_the_nearest_tick(value: i64, from: u32, to: u32)
    requires
        from > 0,
        to > 0,
    ensures
        manifest::rescaled_time(value, from, to) matches Ok(moved) ==> -from < 2 * (moved * from
            - value * to) <= from,
        manifest::rescaled_time(value, from, to) matches Err(error) ==> error
            == MuxerError::TimestampOverflow,
        from == to ==> manifest::rescaled_time(value, from, to) == Ok::<i64, MuxerError>(value),
{
    time::halves_are_rescaled_up(value as int, from as int, to as int);
    time::rescaled_to_same_scale(value as int, from as int);
}

/// The boxes that a file is judged by go by their letters: `ftyp`, `moov` and
/// `mp4a`.
pub proof fn boxes_are_found_by_their_letters(b: Seq<u8>, o: int)
    requires
        0 <= o,
        o + 8 <= b.len() <= usize::MAX,
        0 < 256 * (256 * (256 * b[o] + b[o + 1]) + b[o + 2]) + b[o + 3] <= b.len() - o,
    ensures
        ({
            let all = boxes::boxes_from(b, o);
            let (p, q, r, s) = (b[o + 4], b[o + 5], b[o + 6], b[o + 7]);
            let rest = all.drop_first();
            &&& boxes::has_box(all, boxes::FTYP) <==> (p == 0x66 && q == 0x74 && r == 0x79 && s
                == 0x70) || boxes::has_box(rest, boxes::FTYP)
            &&& boxes::has_box(all, boxes::MOOV) <==> (p == 0x6D && q == 0x6F && r == 0x6F && s
                == 0x76) || boxes::has_box(rest, boxes::MOOV)
            &&& boxes::has_box(all, boxes::MP4A) <==> (p == 0x6D && q == 0x70 && r == 0x34 && s
                == 0x61) || boxes::has_box(rest, boxes::MP4A)
        }),
{
    boxes_are_read_from_their_bytes(b, o);
    let all = boxes::boxes_from(b, o);
    lemma_found(all, boxes::FTYP);
    lemma_found(all, boxes::MOOV);
    lemma_found(all, boxes::MP4A);
}

proof fn lemma_found(all: Seq<BoxEntry>, kind: u32)
    requires
        all.len() > 0,
    ensures
        boxes::has_box(all, kind) <==> (all[0] matches BoxEntry::Known { kind: found, .. } && found
            == kind) || boxes::has_box(all.drop_first(), kind),
{
    let rest = all.drop_first();
    if boxes::has_box(all, kind) {
        let i = choose|i: int|
            0 <= i < all.len() && (#[trigger] all[i] matches BoxEntry::Known { kind: found, .. }
                && found == kind);
        if i > 0 {
            assert(rest[i - 1] == all[i]);
        }
    }
    if boxes::has_box(rest, kind) {
        let i = choose|i: int|
            0 <= i < rest.len() && (#[trigger] rest[i] matches BoxEntry::Known { kind: found, .. }
                && found == kind);
        assert(all[i + 1] == rest[i]);
    }
}

} // verus!
