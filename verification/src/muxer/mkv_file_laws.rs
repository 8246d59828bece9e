//! What a Matroska file tells of its tracks, and how its blocks are ordered.

use vstd::prelude::*;
use crate::api::{AudioCodec, SubtitleCodec, VideoCodec};
use crate::muxer::ebml::{self, TrackModel};
use crate::muxer::mkv::{self, FileModel, MkvContainer, MkvQueue, MkvWriterError};
use crate::muxer::mkv_laws;
use crate::muxer::mkv_layout::{self, BlockModel};
use crate::muxer::mp4::{Mp4AudioTrack, Mp4SubtitleTrack};

verus! {

/// The number that bytes spell, the most significant first.
pub open spec fn spelled(bytes: Seq<u8>) -> int
    decreases bytes.len(),
{
    if bytes.len() == 0 {
        0
    } else {
        256 * spelled(bytes.drop_last()) + bytes.last()
    }
}

/// Numbers are spelled in as few bytes as they need.
pub proof fn numbers_are_spelled_out(value: nat)
    ensures
        spelled(ebml::big_endian(value)) == value,
        ebml::big_endian(value).len() >= 1,
        value >= 256 ==> ebml::big_endian(value)[0] > 0,
        value < 256 ==> ebml::big_endian(value).len() == 1,
    decreases value,
{
    let bytes = ebml::big_endian(value);
    if value < 0x100 {
        assert(bytes.drop_last() =~= Seq::empty());
        reveal_with_fuel(spelled, 2);
    } else {
        numbers_are_spelled_out(value / 0x100);
        assert(bytes.drop_last() =~= ebml::big_endian(value / 0x100));
        assert(bytes[0] == ebml::big_endian(value / 0x100)[0]);
        if value / 0x100 < 0x100 {
            assert(ebml::big_endian(value / 0x100) =~= seq![(value / 0x100) as u8]);
        }
    }
}

/// Lengths are spelled with a marker that tells how many bytes there are: a
/// one in front of seven bits for each byte.
pub proof fn lengths_have_a_marker(length: nat)
    requires
        length < 0x100_0000_0000_0000,
    ensures
        length < 0x7F ==> spelled(ebml::length_bytes(length)) == 0x80 + length,
        0x7F <= length < 0x4000 ==> spelled(ebml::length_bytes(length)) == 0x4000 + length,
        0x4000 <= length < 0x20_0000 ==> spelled(ebml::length_bytes(length)) == 0x20_0000 + length,
        0x20_0000 <= length < 0x1000_0000 ==> spelled(ebml::length_bytes(length)) == 0x1000_0000
            + length,
        0x1000_0000 <= length < 0x8_0000_0000 ==> spelled(ebml::length_bytes(length))
            == 0x8_0000_0000 + length,
        0x8_0000_0000 <= length < 0x400_0000_0000 ==> spelled(ebml::length_bytes(length))
            == 0x400_0000_0000 + length,
        0x400_0000_0000 <= length < 0x2_0000_0000_0000 ==> spelled(ebml::length_bytes(length))
            == 0x2_0000_0000_0000 + length,
        0x2_0000_0000_0000 <= length ==> spelled(ebml::length_bytes(length)) == 0x100_0000_0000_0000
            + length,
{
    numbers_are_spelled_out(0x80 + length);
    numbers_are_spelled_out(0x4000 + length);
    numbers_are_spelled_out(0x20_0000 + length);
    numbers_are_spelled_out(0x1000_0000 + length);
    numbers_are_spelled_out(0x8_0000_0000 + length);
    numbers_are_spelled_out(0x400_0000_0000 + length);
    numbers_are_spelled_out(0x2_0000_0000_0000 + length);
    numbers_are_spelled_out(0x100_0000_0000_0000 + length);
}

/// An element is its number, its length and its body.
pub proof fn elements_hold_their_body(id: u64, body: Seq<u8>) -> (parts: (int, int))
    ensures
        0 <= parts.0 <= parts.1 <= ebml::element(id, body).len(),
        spelled(ebml::element(id, body).take(parts.0)) == id,
        ebml::element(id, body).subrange(parts.0, parts.1) == ebml::length_bytes(body.len()),
        ebml::element(id, body).skip(parts.1) == body,
{
    numbers_are_spelled_out(id as nat);
    let bytes = ebml::element(id, body);
    let number = ebml::big_endian(id as nat);
    let length = ebml::length_bytes(body.len());
    let a = number.len() as int;
    let b = a + length.len();
    reveal(ebml::element_header);
    assert(bytes == number + length + body);
    assert(bytes.take(a) =~= number);
    assert(bytes.subrange(a, b) =~= length);
    assert(bytes.skip(b) =~= body);
    (a, b)
}

/// The names of the video codecs.
pub proof fn names_of_video_codecs()
    ensures
        mkv::video_codec_text(VideoCodec::H264) == seq![
            'V', '_', 'M', 'P', 'E', 'G', '4', '/', 'I', 'S', 'O', '/', 'A', 'V', 'C',
        ],
        mkv::video_codec_text(VideoCodec::H265) == seq![
            'V', '_', 'M', 'P', 'E', 'G', 'H', '/', 'I', 'S', 'O', '/', 'H', 'E', 'V', 'C',
        ],
        mkv::video_codec_text(VideoCodec::Av1) == seq!['V', '_', 'A', 'V', '1'],
        mkv::video_codec_text(VideoCodec::Vp9) == seq!['V', '_', 'V', 'P', '9'],
{
    reveal_strlit("V_MPEG4/ISO/AVC");
    reveal_strlit("V_MPEGH/ISO/HEVC");
    reveal_strlit("V_AV1");
    reveal_strlit("V_VP9");
}

/// The names of the audio codecs.
pub proof fn names_of_audio_codecs(codec: AudioCodec)
    ensures
        codec is Aac ==> mkv::audio_codec_text(codec) == seq!['A', '_', 'A', 'A', 'C'],
        codec is Opus ==> mkv::audio_codec_text(codec) == seq!['A', '_', 'O', 'P', 'U', 'S'],
        codec is Flac ==> mkv::audio_codec_text(codec) == seq!['A', '_', 'F', 'L', 'A', 'C'],
{
    reveal_strlit("A_AAC");
    reveal_strlit("A_OPUS");
    reveal_strlit("A_FLAC");
}

/// The names of the subtitle codecs.
pub proof fn names_of_subtitle_codecs(codec: SubtitleCodec)
    ensures
        codec is Ssa ==> mkv::subtitle_codec_text(codec) == seq![
            'S', '_', 'T', 'E', 'X', 'T', '/', 'S', 'S', 'A',
        ],
        codec is Ass ==> mkv::subtitle_codec_text(codec) == seq![
            'S', '_', 'T', 'E', 'X', 'T', '/', 'A', 'S', 'S',
        ],
        !(codec is Ssa) && !(codec is Ass) ==> mkv::subtitle_codec_text(codec) == seq![
            'S', '_', 'T', 'E', 'X', 'T', '/', 'U', 'T', 'F', '8',
        ],
{
    reveal_strlit("S_TEXT/SSA");
    reveal_strlit("S_TEXT/ASS");
    reveal_strlit("S_TEXT/UTF8");
}

/// The private data of an audio track: with AAC the object type, the rate and
/// the channels of the first frame; with Opus an identification header with the
/// channels, at most eight; with FLAC the STREAMINFO block.
pub proof fn audio_private_data(track: Mp4AudioTrack, adts: Option<Seq<u8>>)
    requires
        adts matches Some(header) ==> header.len() >= 4,
    ensures
        track.codec is Aac && adts is Some ==> {
            let fields = adts->0[2] * 0x100 + adts->0[3];
            mkv::audio_private(track, adts) matches Some(config) && config.len() == 2
                && mkv_laws::object_type(config) == fields / 0x4000 + 1 && mkv_laws::rate_index(
                config,
            ) == fields / 0x400 % 0x10 && mkv_laws::channel_configuration(config) == fields / 0x40
                % 8
        },
        track.codec is Aac && adts is None ==> mkv::audio_private(track, adts) == Some(
            seq![0x12u8, 0x10],
        ),
        track.codec is Opus ==> (mkv::audio_private(track, adts) matches Some(head) && head.len()
            == 19 && head[9] == (if track.channels < 8 {
            track.channels as int
        } else {
            8int
        })),
        track.codec is Flac ==> (match track.flac_streaminfo {
            Some(info) => mkv::audio_private(track, adts) == Some(info@),
            None => mkv::audio_private(track, adts) is None,
        }),
{
    if adts is Some {
        mkv_laws::aac_configuration_is_that_of_the_header(adts->0);
    }
    mkv_laws::opus_private_data(
        if track.channels > 8 {
            8
        } else {
            track.channels as u8
        },
    );
}

/// The entry of a video track: number 1, of kind 1, without lacing, with its
/// language, its codec, its private data, and its size.
pub proof fn video_entries(
    codec: VideoCodec,
    private: Option<Seq<u8>>,
    language: Seq<char>,
    width: u32,
    height: u32,
)
    ensures
        mkv::video_entry(codec, private, language, width, height) == (TrackModel {
            number: 1,
            uid: 1,
            kind: 1,
            lacing: 0,
            language,
            codec_id: mkv::video_codec_text(codec),
            delay: 0,
            pre_roll: 0,
            private,
        }).entry(ebml::video_settings(0, width as u64, height as u64)),
{
}

/// The entry of an audio track: number 2, of kind 2, with its rate and its
/// channels; with Opus a delay of 6.5 ms and a pre-roll of 80 ms.
pub proof fn audio_entries(track: Mp4AudioTrack, adts: Option<Seq<u8>>, language: Seq<char>)
    ensures
        mkv::audio_entry(track, adts, language) == (TrackModel {
            number: 2,
            uid: 2,
            kind: 2,
            lacing: 0,
            language,
            codec_id: mkv::audio_codec_text(track.codec),
            delay: if track.codec is Opus {
                6_500_000
            } else {
                0
            },
            pre_roll: if track.codec is Opus {
                80_000_000
            } else {
                0
            },
            private: mkv::audio_private(track, adts),
        }).entry(ebml::audio_settings(track.sample_rate, track.channels as u64)),
{
}

/// The entry of a subtitle track: number 3, of kind 17, in its own language
/// where it has one, with private data for scripts alone.
pub proof fn subtitle_entries(track: Mp4SubtitleTrack, language: Seq<char>)
    ensures
        ({
            let own = match track.language {
                Some(own) => own@,
                None => language,
            };
            let private = if track.codec is Ssa || track.codec is Ass {
                match track.codec_private {
                    Some(bytes) => Some(bytes@),
                    None => None,
                }
            } else {
                None
            };
            mkv::subtitle_entry(track, language) == (TrackModel {
                number: 3,
                uid: 3,
                kind: 17,
                lacing: 0,
                language: own,
                codec_id: mkv::subtitle_codec_text(track.codec),
                delay: 0,
                pre_roll: 0,
                private,
            }).entry(Seq::empty())
        }),
{
}

/// The tracks of a file, in order: video where there is a configuration and a
/// size, audio and subtitles where they are set. The language is that of the
/// file, or `und`.
pub proof fn tracks_are_told_in_order(queue: MkvQueue, file: FileModel)
    ensures
        ({
            let language = match file.language {
                Some(language) => language,
                None => seq!['u', 'n', 'd'],
            };
            let video = if queue.effective_setup() is Some && file.size is Some {
                let (width, height) = file.size->0;
                mkv::video_entry(
                    queue.video_codec->0,
                    queue.effective_setup()->0,
                    language,
                    width,
                    height,
                )
            } else {
                Seq::empty()
            };
            let audio = if queue.audio_track is Some {
                mkv::audio_entry(queue.audio_track->0, queue.adts, language)
            } else {
                Seq::empty()
            };
            let subtitle = if queue.subtitle_track is Some {
                mkv::subtitle_entry(queue.subtitle_track->0, language)
            } else {
                Seq::empty()
            };
            queue.track_entries(file) == video + audio + subtitle
        }),
{
    reveal_strlit("und");
    assert("und"@ =~= seq!['u', 'n', 'd']);
}

/// A file is an EBML head, which names the kind of document, and a segment
/// with the information, the tracks and the media. Times count in
/// milliseconds.
pub proof fn files_are_laid_out(queue: MkvQueue, file: FileModel)
    ensures
        ({
            let kind = if file.container is WebM {
                seq!['w', 'e', 'b', 'm']
            } else {
                seq!['m', 'a', 't', 'r', 'o', 's', 'k', 'a']
            };
            let info = ebml::info_element(
                1_000_000,
                mkv::WRITING_APP@,
                mkv::WRITING_APP@,
                match queue.end_ms() {
                    Some(end) => Some(end as u64),
                    None => None,
                },
                match file.creation_time {
                    Some(time) => Some(mkv::date_of(time)),
                    None => None,
                },
                file.title,
            );
            let front = info + ebml::element(0x1654_AE6B, queue.track_entries(file));
            let media = mkv_layout::media_bytes(queue.clusters(), front.len() as int);
            queue.file(file) == ebml::ebml_element(4, 8, kind, 4, 2) + ebml::element(
                0x1853_8067,
                front + media,
            )
        }),
{
    reveal_strlit("webm");
    reveal_strlit("matroska");
    assert("webm"@ =~= seq!['w', 'e', 'b', 'm']);
    assert("matroska"@ =~= seq!['m', 'a', 't', 'r', 'o', 's', 'k', 'a']);
}

/// Milliseconds in ticks: ninety for each, where they fit.
pub proof fn milliseconds_in_ticks(ms: Option<int>)
    ensures
        ms is None ==> mkv::ticks_of(ms) is None,
        ms matches Some(t) ==> 0 <= t <= 0x7FFF_FFFF_FFFF ==> mkv::ticks_of(ms) == Some(90 * t),
{
}

/// A file can be written if and only if that has not been tried, there is a
/// track, video has its size, audio is of a codec and FLAC has its STREAMINFO,
/// and, in WebM, video is VP9 or AV1, audio is Opus and there are no subtitles.
pub proof fn files_are_written_when_they_can_be(queue: MkvQueue, file: FileModel)
    ensures
        queue.file_fault(file) is None <==> {
            &&& !queue.finalized
            &&& queue.effective_setup() is Some ==> file.size is Some
            &&& queue.effective_setup() is Some || queue.audio_track is Some
                || queue.subtitle_track is Some
            &&& queue.audio_track matches Some(track) ==> !(track.codec is NoAudio) && (
            track.codec is Flac ==> track.flac_streaminfo is Some)
            &&& file.container is WebM ==> {
                &&& queue.effective_setup() is Some ==> (queue.video_codec matches Some(codec)
                    ==> codec is Vp9 || codec is Av1)
                &&& queue.audio_track matches Some(track) ==> track.codec is Opus
                &&& queue.subtitle_track is None
            }
        },
        queue.finalized ==> queue.file_fault(file) == Some(MkvWriterError::FinalizedTwice),
        !queue.finalized && queue.effective_setup() is Some && file.size is None
            ==> queue.file_fault(file) == Some(MkvWriterError::ConfigWithoutVideoTrack),
        !queue.finalized && queue.effective_setup() is None && queue.audio_track is None
            && queue.subtitle_track is None ==> queue.file_fault(file) == Some(
            MkvWriterError::NoTracks,
        ),
{
}

/// A track that has no video yet and is H.264 has a configuration all the
/// same: the usual one.
pub proof fn empty_h264_tracks_have_a_configuration(queue: MkvQueue)
    ensures
        queue.setup is Some ==> queue.effective_setup() == queue.setup,
        queue.setup is None && (queue.video.len() > 0 || queue.video_codec != Some(
            VideoCodec::H264,
        )) ==> queue.effective_setup() is None,
        queue.setup is None && queue.video.len() == 0 && queue.video_codec == Some(VideoCodec::H264)
            ==> (queue.effective_setup() matches Some(Some(record)) && record.len() == 25
            && record[0] == 1 && record[1] == 0x42 && record[3] == 0x1E && record[4] == 0xFF
            && record[5] == 0xE1 && record[6] * 256 + record[7] == 10 && record[8] == 0x67
            && record[18] == 1 && record[19] * 256 + record[20] == 4 && record[21] == 0x68),
{
}

/// Which codecs a container takes: Matroska all of them, WebM VP9, AV1 and
/// Opus.
pub proof fn containers_take_their_codecs(video: VideoCodec, audio: AudioCodec)
    ensures
        MkvContainer::Matroska.takes_video(video),
        MkvContainer::WebM.takes_video(video) <==> video == VideoCodec::Vp9 || video
            == VideoCodec::Av1,
        MkvContainer::Matroska.takes_audio(audio) <==> audio is Aac || audio is Opus || audio is Flac,
        MkvContainer::WebM.takes_audio(audio) <==> audio is Opus,
{
}

/// Whether a block may stand in front of another: it is decoded earlier, or at
/// the same time on a track with no higher number.
pub open spec fn may_precede(a: BlockModel, b: BlockModel) -> bool {
    a.sample.dts_ms < b.sample.dts_ms || (a.sample.dts_ms == b.sample.dts_ms && a.track <= b.track)
}

proof fn lemma_lead(
    video: Seq<BlockModel>,
    audio: Seq<BlockModel>,
    text: Seq<BlockModel>,
    floor: BlockModel,
)
    requires
        mkv_layout::in_decode_order(video),
        mkv_layout::in_decode_order(audio),
        mkv_layout::in_decode_order(text),
        mkv_layout::all_on(video, 1),
        mkv_layout::all_on(audio, 2),
        mkv_layout::all_on(text, 3),
        video.len() > 0 ==> may_precede(floor, video[0]),
        audio.len() > 0 ==> may_precede(floor, audio[0]),
        text.len() > 0 ==> may_precede(floor, text[0]),
    ensures
        forall|j: int|
            0 <= j < mkv_layout::merged(video, audio, text).len() ==> may_precede(
                floor,
                #[trigger] mkv_layout::merged(video, audio, text)[j],
            ),
        forall|i: int, j: int|
            0 <= i <= j < mkv_layout::merged(video, audio, text).len() ==> may_precede(
                #[trigger] mkv_layout::merged(video, audio, text)[i],
                #[trigger] mkv_layout::merged(video, audio, text)[j],
            ),
    decreases video.len() + audio.len() + text.len(),
{
    let all = mkv_layout::merged(video, audio, text);
    if video.len() > 0 && !mkv_layout::comes_before(audio, video[0]) && !mkv_layout::comes_before(
        text,
        video[0],
    ) {
        let less = video.drop_first();
        lemma_less(video, 1);
        lemma_lead(less, audio, text, video[0]);
        lemma_chain(all, mkv_layout::merged(less, audio, text), floor, video[0]);
    } else if audio.len() > 0 && !mkv_layout::comes_before(text, audio[0]) {
        let less = audio.drop_first();
        lemma_less(audio, 2);
        lemma_lead(video, less, text, audio[0]);
        lemma_chain(all, mkv_layout::merged(video, less, text), floor, audio[0]);
    } else if text.len() > 0 {
        let less = text.drop_first();
        lemma_less(text, 3);
        lemma_lead(video, audio, less, text[0]);
        lemma_chain(all, mkv_layout::merged(video, audio, less), floor, text[0]);
    }
}

proof fn lemma_less(blocks: Seq<BlockModel>, track: u64)
    requires
        blocks.len() > 0,
        mkv_layout::in_decode_order(blocks),
        mkv_layout::all_on(blocks, track),
    ensures
        mkv_layout::in_decode_order(blocks.drop_first()),
        mkv_layout::all_on(blocks.drop_first(), track),
        blocks[0].track == track,
        blocks.drop_first().len() > 0 ==> may_precede(blocks[0], blocks.drop_first()[0]),
{
    let less = blocks.drop_first();
    assert forall|i: int, j: int| 0 <= i <= j < less.len() implies (
    #[trigger] less[i]).sample.dts_ms <= (#[trigger] less[j]).sample.dts_ms by {
        assert(less[i] == blocks[i + 1] && less[j] == blocks[j + 1]);
    }
    assert forall|i: int| 0 <= i < less.len() implies (#[trigger] less[i]).track == track by {
        assert(less[i] == blocks[i + 1]);
    }
    if less.len() > 0 {
        assert(less[0] == blocks[1]);
    }
}

proof fn lemma_chain(
    all: Seq<BlockModel>,
    rest: Seq<BlockModel>,
    floor: BlockModel,
    head: BlockModel,
)
    requires
        all == seq![head] + rest,
        may_precede(floor, head),
        forall|j: int| 0 <= j < rest.len() ==> may_precede(head, #[trigger] rest[j]),
        forall|i: int, j: int|
            0 <= i <= j < rest.len() ==> may_precede(#[trigger] rest[i], #[trigger] rest[j]),
    ensures
        forall|j: int| 0 <= j < all.len() ==> may_precede(floor, #[trigger] all[j]),
        forall|i: int, j: int|
            0 <= i <= j < all.len() ==> may_precede(#[trigger] all[i], #[trigger] all[j]),
{
    assert forall|j: int| 0 <= j < all.len() implies may_precede(floor, #[trigger] all[j]) by {
        if j > 0 {
            assert(all[j] == rest[j - 1]);
            assert(may_precede(head, rest[j - 1]));
        }
    }
    assert forall|i: int, j: int| 0 <= i <= j < all.len() implies may_precede(
        #[trigger] all[i],
        #[trigger] all[j],
    ) by {
        if j > 0 {
            assert(all[j] == rest[j - 1]);
        }
        if i > 0 {
            assert(all[i] == rest[i - 1]);
        }
    }
}

/// Blocks of all tracks are stored in decode order; of those decoded at the
/// same time video comes first, then audio, then subtitles.
pub proof fn blocks_of_one_time_are_ordered_by_track(
    video: Seq<BlockModel>,
    audio: Seq<BlockModel>,
    text: Seq<BlockModel>,
    i: int,
    j: int,
)
    requires
        mkv_layout::in_decode_order(video),
        mkv_layout::in_decode_order(audio),
        mkv_layout::in_decode_order(text),
        mkv_layout::all_on(video, 1),
        mkv_layout::all_on(audio, 2),
        mkv_layout::all_on(text, 3),
        0 <= i < j < mkv_layout::merged(video, audio, text).len(),
    ensures
        ({
            let all = mkv_layout::merged(video, audio, text);
            &&& all[i].sample.dts_ms <= all[j].sample.dts_ms
            &&& all[i].sample.dts_ms == all[j].sample.dts_ms ==> all[i].track <= all[j].track
        }),
{
    let all = mkv_layout::merged(video, audio, text);
    let floor = BlockModel {
        track: 0,
        sample: mkv_layout::SampleModel {
            pts_ms: 0,
            dts_ms: 0,
            data: Seq::empty(),
            is_keyframe: false,
            duration_ms: None,
        },
    };
    lemma_lead(video, audio, text, floor);
    assert(may_precede(all[i], all[j]));
}

/// Tracks are numbered 1, 2 and 3, and samples keep their order on them.
pub proof fn samples_are_put_on_their_tracks(queue: MkvQueue)
    ensures
        queue.blocks() == mkv_layout::merged(
            mkv_layout::on_track(queue.video, 1),
            mkv_layout::on_track(queue.audio, 2),
            mkv_layout::on_track(queue.subtitles, 3),
        ),
{
}

/// Elements of blocks stand one behind the other.
pub proof fn block_elements_follow_each_other(blocks: Seq<BlockModel>, block: BlockModel, base: u64)
    ensures
        mkv_layout::block_elements(blocks.push(block), base) == mkv_layout::block_elements(
            blocks,
            base,
        ) + mkv_layout::block_element(block, base),
        mkv_layout::block_elements(Seq::empty(), base) == Seq::<u8>::empty(),
{
    assert(blocks.push(block).drop_last() =~= blocks);
}

/// The media of a file: its clusters, one behind the other, and, where a cluster
/// begins with a keyframe, the seek points.
pub proof fn media_are_clusters_and_seek_points(
    clusters: Seq<mkv_layout::ClusterModel>,
    front: int,
    k: int,
)
    requires
        0 <= k < clusters.len(),
    ensures
        clusters[k].blocks[0].track == 1 && clusters[k].blocks[0].sample.is_keyframe
            ==> mkv_layout::media_bytes(clusters, front) == mkv_layout::cluster_elements(clusters)
            + ebml::element(
            0x1C53_BB6B,
            mkv_layout::cue_points(clusters, front, clusters.len() as int),
        ),
        (forall|i: int|
            0 <= i < clusters.len() ==> !((#[trigger] clusters[i]).blocks[0].track == 1
                && clusters[i].blocks[0].sample.is_keyframe)) ==> mkv_layout::media_bytes(
            clusters,
            front,
        ) == mkv_layout::cluster_elements(clusters),
{
    if clusters[k].blocks[0].track == 1 && clusters[k].blocks[0].sample.is_keyframe {
        assert(mkv_layout::is_video_key(clusters[k].blocks[0]));
        assert(mkv_layout::has_cues(clusters, clusters.len() as int));
    }
    if forall|i: int|
        0 <= i < clusters.len() ==> !((#[trigger] clusters[i]).blocks[0].track == 1
            && clusters[i].blocks[0].sample.is_keyframe) {
        assert(!mkv_layout::has_cues(clusters, clusters.len() as int));
        assert(mkv_layout::media_bytes(clusters, front) =~= mkv_layout::cluster_elements(clusters));
    }
}

/// The bytes written so far grow by the length of the file.
pub proof fn written_bytes_are_counted(queue: MkvQueue, len: nat)
    requires
        queue.bytes_written + len <= u64::MAX,
    ensures
        queue.bytes_with(len) == queue.bytes_written + len,
{
}

} // verus!
