//! What a Matroska file says of the samples and tracks that it is made from.

use vstd::prelude::*;
use crate::api::{AudioCodec, VideoCodec};
use crate::codec::{flac, opus, vp9};
use crate::muxer::ebml;
use crate::muxer::mkv::{self, FileModel, MkvContainer, MkvQueue, MkvWriterError};
use crate::muxer::mkv_layout::{self, BlockModel, ClusterModel, SampleModel};
use crate::wire;

verus! {

/// The object type of an AAC configuration: its first five bits.
pub open spec fn object_type(config: Seq<u8>) -> int {
    (config[0] * 0x100 + config[1]) / 0x800
}

/// The index of the sample rate of an AAC configuration: the next four bits.
pub open spec fn rate_index(config: Seq<u8>) -> int {
    (config[0] * 0x100 + config[1]) / 0x80 % 0x10
}

/// The channel configuration of an AAC configuration: the next four bits.
pub open spec fn channel_configuration(config: Seq<u8>) -> int {
    (config[0] * 0x100 + config[1]) / 8 % 0x10
}

/// An AAC configuration, read bit by bit, gives back what the ADTS header
/// holds behind its first sixteen bits: the profile, which is one less than the
/// object type, in two bits, the index of the sample rate in four, and behind a
/// private bit the channel configuration in three.
pub proof fn aac_configuration_is_that_of_the_header(header: Seq<u8>)
    requires
        header.len() >= 4,
    ensures
        ({
            let fields = header[2] * 0x100 + header[3];
            let config = mkv::asc_of(header);
            &&& config.len() == 2
            &&& object_type(config) == fields / 0x4000 + 1
            &&& rate_index(config) == fields / 0x400 % 0x10
            &&& channel_configuration(config) == fields / 0x40 % 8
            &&& config[1] % 8 == 0
        }),
{
    let second = header[2] as int;
    let third = header[3] as int;
    let fields = second * 0x100 + third;
    let config = mkv::asc_of(header);
    let object = second / 0x40 + 1;
    let rate = second / 4 % 0x10;
    let channels = second % 2 * 4 + third / 0x40;
    assert(fields / 0x4000 == second / 0x40);
    assert(fields / 0x400 == second / 4);
    assert(fields / 0x40 == second * 4 + third / 0x40);
    assert(fields / 0x40 % 8 == channels);
    assert(config[0] == object * 8 + rate / 2);
    assert(config[1] == rate % 2 * 0x80 + channels * 8);
    let both = config[0] * 0x100 + config[1];
    assert(both == object * 0x800 + rate * 0x80 + channels * 8);
}

/// The configuration of an AAC track without frames is that of low complexity
/// at 44.1 kHz with two channels.
pub proof fn default_aac_configuration()
    ensures
        mkv::default_asc().len() == 2,
        object_type(mkv::default_asc()) == 2,
        rate_index(mkv::default_asc()) == 4,
        channel_configuration(mkv::default_asc()) == 2,
{
}

/// The private data of an AAC track is the configuration of its first frame.
pub proof fn aac_private_data_is_of_the_first_frame(
    queue: MkvQueue,
    pts: u64,
    data: Seq<u8>,
    raw: Seq<u8>,
)
    requires
        queue.audio_track matches Some(track) && track.codec is Aac,
        data.len() >= 4,
    ensures
        ({
            let after = queue.with_audio(pts, data, Some(raw));
            &&& after.audio.last().data == raw
            &&& queue.adts is None ==> after.adts == Some(data.take(4))
            &&& queue.adts is Some ==> after.adts == queue.adts
            &&& mkv::audio_private(queue.audio_track->0, after.adts) is Some
        }),
{
}

/// A time in milliseconds is the whole number of them that has passed.
pub proof fn milliseconds_are_whole(ticks: u64)
    requires
        ticks <= u64::MAX / 1000,
    ensures
        90 * mkv::ms_of(ticks) <= ticks < 90 * (mkv::ms_of(ticks) + 1),
{
}

/// A date counts nanoseconds from the start of 2001, 11323 days after that of
/// 1970.
pub proof fn dates_count_from_2001(unix_secs: u64)
    requires
        unix_secs <= 9_000_000_000,
    ensures
        mkv::date_of(unix_secs) == (unix_secs - 11323 * 86400) * 1_000_000_000,
{
}

/// The private data of an Opus track: the magic, version 1, the channels, a
/// delay of 312 samples, 48 kHz, no gain and the plain mapping.
pub proof fn opus_private_data(channels: u8)
    ensures
        ({
            let head = mkv::opus_head_bytes(channels);
            &&& head.len() == 19
            &&& head.take(9) == seq![0x4Fu8, 0x70, 0x75, 0x73, 0x48, 0x65, 0x61, 0x64, 1]
            &&& head[9] == channels
            &&& head[10] + 0x100 * head[11] == 312
            &&& head[12] + 0x100 * head[13] + 0x1_0000 * head[14] + 0x100_0000 * head[15] == 48_000
            &&& head[16] == 0 && head[17] == 0 && head[18] == 0
        }),
{
    let head = mkv::opus_head_bytes(channels);
    assert(head.take(9) =~= seq![0x4Fu8, 0x70, 0x75, 0x73, 0x48, 0x65, 0x61, 0x64, 1]);
}

/// A video sample is queued with its own times, in milliseconds, its own data
/// and its own flag, behind the others. The sample before it lasts from its
/// decode time to that of the new one; nothing else of it changes.
pub proof fn video_samples_are_queued_as_they_are(
    queue: MkvQueue,
    pts: u64,
    dts: u64,
    data: Seq<u8>,
    is_keyframe: bool,
    record: Option<Seq<u8>>,
)
    requires
        queue.is_sound(),
        queue.video_fault(dts, data, is_keyframe, record) is None,
        pts <= u64::MAX / 1000 && dts <= u64::MAX / 1000,
    ensures
        ({
            let n = queue.video.len() as int;
            let after = queue.with_video(pts, dts, data, is_keyframe, record);
            let sample = after.video[n];
            &&& after.video.len() == n + 1
            &&& 90 * sample.pts_ms <= pts < 90 * (sample.pts_ms + 1)
            &&& 90 * sample.dts_ms <= dts < 90 * (sample.dts_ms + 1)
            &&& sample.data == data && sample.is_keyframe == is_keyframe
            &&& sample.duration_ms is None
            &&& after.video_prev == Some(dts)
            &&& forall|i: int|
                0 <= i < n ==> (#[trigger] after.video[i]).pts_ms == queue.video[i].pts_ms
                    && after.video[i].dts_ms == queue.video[i].dts_ms && after.video[i].data
                    == queue.video[i].data && after.video[i].is_keyframe
                    == queue.video[i].is_keyframe
            &&& forall|i: int|
                0 <= i < n - 1 ==> (#[trigger] after.video[i]).duration_ms
                    == queue.video[i].duration_ms
            &&& n > 0 && sample.dts_ms > queue.video[n - 1].dts_ms ==> after.video[n
                - 1].duration_ms == Some((sample.dts_ms - queue.video[n - 1].dts_ms) as u64)
            &&& n > 0 && sample.dts_ms == queue.video[n - 1].dts_ms ==> after.video[n
                - 1].duration_ms == Some(1u64)
            &&& n > 0 ==> after.video_delta == after.video[n - 1].duration_ms
            &&& n == 0 ==> after.video_delta == queue.video_delta
            &&& after.audio == queue.audio && after.subtitles == queue.subtitles
        }),
{
    milliseconds_are_whole(pts);
    milliseconds_are_whole(dts);
    if let Some(prev) = queue.video_prev {
        mkv::ms_of_is_monotone(prev, dts);
    }
}

/// The decode times of a video track grow: a sample that is decoded no later
/// than the one before it is refused, and the first one has to be a keyframe
/// with a decoder configuration.
pub proof fn video_samples_are_in_decode_order(
    queue: MkvQueue,
    dts: u64,
    data: Seq<u8>,
    is_keyframe: bool,
    record: Option<Seq<u8>>,
)
    requires
        queue.is_sound(),
        !queue.finalized && queue.video_codec is Some,
    ensures
        queue.video.len() > 0 ==> (queue.video_fault(dts, data, is_keyframe, record) is None
            <==> dts > queue.video_prev->0),
        queue.video.len() == 0 && !is_keyframe ==> queue.video_fault(
            dts,
            data,
            is_keyframe,
            record,
        ) == Some(MkvWriterError::FirstFrameMustBeKeyframe),
        queue.video.len() == 0 && is_keyframe ==> (queue.video_fault(dts, data, is_keyframe, record)
            is None <==> (if queue.video_codec == Some(VideoCodec::Vp9) {
            vp9::config_of(data) is Some
        } else {
            record is Some
        })),
{
}

/// An audio sample is queued with its own time and its own data, behind the
/// others; the sample before it lasts until then.
pub proof fn audio_samples_are_queued_as_they_are(
    queue: MkvQueue,
    pts: u64,
    data: Seq<u8>,
    raw: Option<Seq<u8>>,
)
    requires
        queue.is_sound(),
        queue.audio_time_fault(pts) is None,
        queue.audio_data_fault(data, raw) is None,
        pts <= u64::MAX / 1000,
    ensures
        ({
            let n = queue.audio.len() as int;
            let after = queue.with_audio(pts, data, raw);
            let sample = after.audio[n];
            &&& after.audio.len() == n + 1
            &&& 90 * sample.pts_ms <= pts < 90 * (sample.pts_ms + 1)
            &&& sample.dts_ms == sample.pts_ms && !sample.is_keyframe
            &&& sample.duration_ms is None
            &&& queue.audio_track->0.codec is Aac ==> Some(sample.data) == raw
            &&& !(queue.audio_track->0.codec is Aac) ==> sample.data == data
            &&& forall|i: int|
                0 <= i < n ==> (#[trigger] after.audio[i]).pts_ms == queue.audio[i].pts_ms
                    && after.audio[i].data == queue.audio[i].data
            &&& n > 0 ==> sample.dts_ms >= queue.audio[n - 1].dts_ms
            &&& n > 0 && sample.dts_ms > queue.audio[n - 1].dts_ms ==> after.audio[n
                - 1].duration_ms == Some((sample.dts_ms - queue.audio[n - 1].dts_ms) as u64)
            &&& n > 0 && sample.dts_ms == queue.audio[n - 1].dts_ms ==> after.audio[n
                - 1].duration_ms == Some(1u64)
            &&& n > 0 ==> after.audio_delta == after.audio[n - 1].duration_ms
            &&& n == 0 ==> after.audio_delta == queue.audio_delta
            &&& after.audio_prev == Some(sample.pts_ms)
            &&& after.video == queue.video && after.subtitles == queue.subtitles
        }),
{
    milliseconds_are_whole(pts);
}

/// A subtitle is queued with its own time, its own duration of at least one
/// millisecond, and its own text.
pub proof fn subtitles_are_queued_as_they_are(
    queue: MkvQueue,
    pts: u64,
    duration: u32,
    data: Seq<u8>,
)
    requires
        queue.subtitle_fault(pts, data) is None,
        pts <= u64::MAX / 1000,
    ensures
        ({
            let n = queue.subtitles.len() as int;
            let after = queue.with_subtitle(pts, duration, data);
            let sample = after.subtitles[n];
            &&& after.subtitles.len() == n + 1
            &&& 90 * sample.pts_ms <= pts < 90 * (sample.pts_ms + 1)
            &&& sample.dts_ms == sample.pts_ms && sample.data == data && data.len() > 0
            &&& sample.duration_ms matches Some(lasts) && (if duration < 180 {
                lasts == 1
            } else {
                90 * lasts <= duration < 90 * (lasts + 1)
            })
            &&& forall|i: int|
                0 <= i < n ==> (#[trigger] after.subtitles[i]) == queue.subtitles[i]
            &&& after.video == queue.video && after.audio == queue.audio
        }),
{
    milliseconds_are_whole(pts);
    milliseconds_are_whole(duration as u64);
}

/// A signed number of 16 bits, the most significant byte first.
pub open spec fn signed16(high: u8, low: u8) -> int {
    let value = high * 0x100 + low;
    if value >= 0x8000 {
        value - 0x1_0000
    } else {
        value
    }
}

/// A block read back: behind the number of its track, in one byte, stands its
/// time less that of the cluster, then a flag that is set for keyframes, then
/// the data.
pub proof fn blocks_are_read_back(block: BlockModel, base: u64)
    requires
        block.track < 0x7F,
        -0x8000 <= block.sample.pts_ms - base < 0x8000,
    ensures
        ({
            let payload = mkv_layout::block_payload_bytes(block, base);
            &&& payload.len() == 4 + block.sample.data.len()
            &&& payload[0] - 0x80 == block.track
            &&& base + signed16(payload[1], payload[2]) == block.sample.pts_ms
            &&& payload[3] / 0x80 == 1 <==> block.sample.is_keyframe
            &&& payload[3] % 0x80 == 0
            &&& payload.skip(4) == block.sample.data
        }),
{
    let payload = mkv_layout::block_payload_bytes(block, base);
    let relative = ((block.sample.pts_ms - base) % 0x1_0000) as u16;
    wire::big_endian_bytes(relative, 0, 0, 0);
    assert(payload[1] == wire::be16(relative)[0]);
    assert(payload[2] == wire::be16(relative)[1]);
    assert(payload.skip(4) =~= block.sample.data);
}

/// Tracks 1, 2 and 3 are video, audio and subtitles. Audio, and video
/// keyframes that are shown when they are decoded, are simple blocks; the
/// others are groups, with the duration where it is known, and a reference
/// where other frames are needed.
pub proof fn blocks_have_their_element(block: BlockModel, base: u64)
    ensures
        ({
            let payload = mkv_layout::block_payload_bytes(block, base);
            let simple = (block.track == 1 && block.sample.is_keyframe || block.track == 2)
                && block.sample.pts_ms == block.sample.dts_ms;
            let reference: Option<i64> = if block.sample.is_keyframe {
                None
            } else {
                Some(0i64)
            };
            &&& simple ==> mkv_layout::block_element(block, base) == ebml::element(0xA3, payload)
            &&& 1 <= block.track <= 3 && !simple ==> mkv_layout::block_element(block, base)
                == ebml::block_group_element(payload, block.sample.duration_ms, reference)
        }),
{
}

/// A cluster holds up to 1000 blocks that begin within five seconds, and
/// begins with the only video keyframe in it, if it has one. Where a cluster
/// ends before the last block, the next block is a video keyframe, comes too
/// late or too early for it, or finds it full.
pub proof fn clusters_begin_where_they_must(blocks: Seq<BlockModel>, start: int)
    requires
        0 <= start < blocks.len(),
    ensures
        ({
            let end = mkv_layout::cluster_end(blocks, start, start);
            let base = blocks[start].sample.pts_ms;
            &&& start < end <= blocks.len()
            &&& end - start <= 1000
            &&& forall|k: int|
                start < k < end ==> !((#[trigger] blocks[k]).track == 1
                    && blocks[k].sample.is_keyframe) && blocks[k].sample.pts_ms - base <= 5000
                    && base - blocks[k].sample.pts_ms <= 0x8000
            &&& end < blocks.len() ==> (blocks[end].track == 1 && blocks[end].sample.is_keyframe)
                || blocks[end].sample.pts_ms - base > 5000 || base - blocks[end].sample.pts_ms
                > 0x8000 || end - start == 1000
        }),
{
    mkv_layout::lemma_cluster_end(blocks, start, start);
    let end = mkv_layout::cluster_end(blocks, start, start);
    let base = blocks[start].sample.pts_ms;
    if end - start > 1000 {
        assert(!mkv_layout::splits(blocks[end - 1], base, end - 1 - start));
    }
    assert forall|k: int| start < k < end implies !((#[trigger] blocks[k]).track == 1
        && blocks[k].sample.is_keyframe) && blocks[k].sample.pts_ms - base <= 5000 && base
        - blocks[k].sample.pts_ms <= 0x8000 by {
        assert(!mkv_layout::splits(blocks[k], base, k - start));
    }
}

/// The time of a cluster is that of its first block, and its blocks are stored
/// relative to it.
pub proof fn clusters_are_stored_with_their_time(cluster: ClusterModel)
    ensures
        mkv_layout::cluster_element(cluster) == ebml::element(
            0x1F43_B675,
            ebml::element(0xE7, ebml::big_endian(cluster.base as nat))
                + mkv_layout::block_elements(cluster.blocks, cluster.base),
        ),
{
}

/// A cluster that begins with a video keyframe has one seek point: at the time
/// of that frame, for track 1, at the bytes that stand before the cluster. The
/// others have none.
pub proof fn keyframes_have_seek_points(clusters: Seq<ClusterModel>, front: int, n: int)
    requires
        0 <= n < clusters.len(),
    ensures
        ({
            let first = clusters[n].blocks[0];
            let before = front + mkv_layout::cluster_elements(clusters.take(n)).len();
            mkv_layout::cue_points(clusters, front, n + 1) == mkv_layout::cue_points(
                clusters,
                front,
                n,
            ) + if first.track == 1 && first.sample.is_keyframe {
                ebml::cue_point_element(clusters[n].base, 1, before as u64)
            } else {
                Seq::empty()
            }
        }),
        mkv_layout::cue_points(clusters, front, 0) == Seq::<u8>::empty(),
{
    reveal_with_fuel(mkv_layout::cue_points, 2);
    assert(mkv_layout::cue_points(clusters, front, n) + Seq::<u8>::empty()
        =~= mkv_layout::cue_points(clusters, front, n));
}

/// The duration of a file reaches to the end of the sample that ends last: no
/// sample is decoded behind it, no subtitle is shown behind it, and some
/// sample ends there.
pub proof fn duration_reaches_to_the_last_end(queue: MkvQueue)
    requires
        queue.is_sound(),
    ensures
        queue.end_ms() is None <==> queue.video.len() == 0 && queue.audio.len() == 0
            && queue.subtitles.len() == 0,
        queue.end_ms() matches Some(end) ==> {
            &&& forall|i: int|
                0 <= i < queue.video.len() ==> (#[trigger] queue.video[i]).dts_ms <= end
            &&& forall|i: int|
                0 <= i < queue.audio.len() ==> (#[trigger] queue.audio[i]).dts_ms <= end
            &&& forall|i: int|
                0 <= i < queue.subtitles.len() ==> (#[trigger] queue.subtitles[i]).pts_ms + (
                match queue.subtitles[i].duration_ms {
                    Some(lasts) => lasts as int,
                    None => 0,
                }) <= end
            &&& queue.video.len() > 0 && queue.video_delta is Some ==> queue.video.last().dts_ms
                + queue.video_delta->0 <= end
            &&& queue.audio.len() > 0 && queue.audio_delta is Some ==> queue.audio.last().dts_ms
                + queue.audio_delta->0 <= end
        },
        queue.end_ms() matches Some(end) ==> {
            ||| queue.video.len() > 0 && end == queue.video.last().dts_ms + (
            match queue.video_delta {
                Some(delta) => delta as int,
                None => 0,
            })
            ||| queue.audio.len() > 0 && end == queue.audio.last().dts_ms + (
            match queue.audio_delta {
                Some(delta) => delta as int,
                None => 0,
            })
            ||| exists|i: int|
                0 <= i < queue.subtitles.len() && end == (#[trigger] queue.subtitles[i]).pts_ms + (
                match queue.subtitles[i].duration_ms {
                    Some(lasts) => lasts as int,
                    None => 0,
                })
        },
{
    lemma_subtitles_end(queue.subtitles);
    if let Some(end) = queue.end_ms() {
        assert forall|i: int| 0 <= i < queue.video.len() implies (
        #[trigger] queue.video[i]).dts_ms <= end by {
            assert(queue.video[i].dts_ms <= queue.video[queue.video.len() - 1].dts_ms);
        }
        assert forall|i: int| 0 <= i < queue.audio.len() implies (
        #[trigger] queue.audio[i]).dts_ms <= end by {
            assert(queue.audio[i].dts_ms <= queue.audio[queue.audio.len() - 1].dts_ms);
        }
    }
}

proof fn lemma_subtitles_end(samples: Seq<SampleModel>)
    ensures
        mkv::subtitles_end(samples) is None <==> samples.len() == 0,
        mkv::subtitles_end(samples) matches Some(end) ==> {
            &&& forall|i: int|
                0 <= i < samples.len() ==> (#[trigger] samples[i]).pts_ms + (
                match samples[i].duration_ms {
                    Some(lasts) => lasts as int,
                    None => 0,
                }) <= end
            &&& exists|i: int|
                0 <= i < samples.len() && end == (#[trigger] samples[i]).pts_ms + (
                match samples[i].duration_ms {
                    Some(lasts) => lasts as int,
                    None => 0,
                })
        },
    decreases samples.len(),
{
    if samples.len() > 0 {
        let before = samples.drop_last();
        let last = samples[samples.len() - 1];
        lemma_subtitles_end(before);
        let end = mkv::subtitles_end(samples)->0;
        assert forall|i: int| 0 <= i < samples.len() implies (#[trigger] samples[i]).pts_ms + (
        match samples[i].duration_ms {
            Some(lasts) => lasts as int,
            None => 0,
        }) <= end by {
            if i < before.len() {
                assert(before[i] == samples[i]);
            }
        }
        let own = last.pts_ms + (match last.duration_ms {
            Some(lasts) => lasts as int,
            None => 0,
        });
        if end != own {
            let i = choose|i: int|
                0 <= i < before.len() && end == (#[trigger] before[i]).pts_ms + (
                match before[i].duration_ms {
                    Some(lasts) => lasts as int,
                    None => 0,
                });
            assert(before[i] == samples[i]);
        }
    }
}

/// WebM takes VP9 and AV1, Opus, and no subtitles; Matroska takes every codec.
/// A file that is refused for its container is one of WebM with another codec
/// or with subtitles.
pub proof fn webm_takes_few_codecs(queue: MkvQueue, file: FileModel)
    requires
        !queue.finalized,
    ensures
        (queue.file_fault(file) matches Some(MkvWriterError::UnsupportedForWebM { .. }))
            ==> file.container == MkvContainer::WebM,
        file.container == MkvContainer::WebM && queue.file_fault(file) is None ==> {
            &&& queue.subtitle_track is None
            &&& queue.audio_track matches Some(track) ==> track.codec == AudioCodec::Opus
            &&& queue.effective_setup() is Some ==> (queue.video_codec matches Some(codec) ==> codec
                == VideoCodec::Vp9 || codec == VideoCodec::Av1)
        },
        file.container == MkvContainer::WebM && file.size is Some && queue.effective_setup() is Some
            && (queue.video_codec == Some(VideoCodec::Vp9) || queue.video_codec == Some(
            VideoCodec::Av1,
        )) && (queue.audio_track matches Some(track) ==> track.codec == AudioCodec::Opus)
            && queue.subtitle_track is None ==> queue.file_fault(file) is None,
        file.container == MkvContainer::Matroska && file.size is Some && queue.effective_setup()
            is Some && (queue.audio_track matches Some(track) ==> track.codec is Aac
            || track.codec is Opus || track.codec is Flac && track.flac_streaminfo is Some)
            ==> queue.file_fault(file) is None,
{
}

/// Audio and subtitles may stay at a time, but not go back behind the last one
/// of their track, in milliseconds. An empty subtitle is refused.
pub proof fn audio_and_subtitles_do_not_go_back(queue: MkvQueue, pts: u64, data: Seq<u8>)
    requires
        queue.is_sound(),
        pts <= u64::MAX / 1000,
    ensures
        queue.audio_time_fault(pts) is None <==> !queue.finalized && queue.audio_track is Some && (
        queue.audio.len() > 0 ==> queue.audio.last().dts_ms <= pts / 90),
        queue.finalized ==> queue.audio_time_fault(pts) == Some(MkvWriterError::AlreadyFinalized),
        !queue.finalized && queue.audio_track is None ==> queue.audio_time_fault(pts) == Some(
            MkvWriterError::AudioNotEnabled,
        ),
        queue.subtitle_fault(pts, data) is None <==> !queue.finalized && queue.subtitle_track is Some
            && data.len() > 0 && (queue.subtitles.len() > 0 ==> queue.subtitles.last().dts_ms
            <= pts / 90),
        queue.finalized ==> queue.subtitle_fault(pts, data) == Some(
            MkvWriterError::AlreadyFinalized,
        ),
        !queue.finalized && queue.subtitle_track is None ==> queue.subtitle_fault(pts, data) == Some(
            MkvWriterError::SubtitleNotEnabled,
        ),
{
    milliseconds_are_whole(pts);
}

/// An audio frame is refused where its codec cannot read it; a track of no codec
/// takes none.
pub proof fn audio_frames_are_sound(queue: MkvQueue, data: Seq<u8>, raw: Option<Seq<u8>>)
    requires
        queue.audio_track is Some,
    ensures
        ({
            let codec = queue.audio_track->0.codec;
            let fault = queue.audio_data_fault(data, raw);
            &&& codec is Aac ==> (fault is None <==> raw is Some)
            &&& codec is Aac && raw is None ==> fault == Some(MkvWriterError::InvalidAdtsDetailed)
            &&& codec is Opus ==> (fault is None <==> opus::packet_samples(data) is Some)
            &&& codec is Opus && fault is Some ==> fault == Some(MkvWriterError::InvalidOpusPacket)
            &&& codec is Flac ==> (fault is None <==> flac::frame_header_of(data) is Some)
            &&& codec is Flac && fault is Some ==> fault == Some(MkvWriterError::InvalidFlacFrame)
            &&& codec is NoAudio ==> fault == Some(MkvWriterError::AudioNotEnabled)
        }),
{
}

/// A refused audio frame leaves its time behind: the sample before it lasts
/// until then. Nothing is queued.
pub proof fn refused_audio_frames_leave_their_time(queue: MkvQueue, pts: u64)
    requires
        queue.is_sound(),
        queue.audio_time_fault(pts) is None,
        pts <= u64::MAX / 1000,
    ensures
        ({
            let n = queue.audio.len() as int;
            let after = queue.audio_timed(pts);
            &&& after.audio.len() == n
            &&& n == 0 ==> after == queue
            &&& n > 0 ==> after.audio_delta == after.audio[n - 1].duration_ms
            &&& n > 0 && pts / 90 > queue.audio[n - 1].dts_ms ==> after.audio_delta == Some(
                (pts / 90 - queue.audio[n - 1].dts_ms) as u64,
            )
            &&& n > 0 && pts / 90 == queue.audio[n - 1].dts_ms ==> after.audio_delta == Some(1u64)
            &&& after.audio_prev == queue.audio_prev
            &&& after.video == queue.video && after.subtitles == queue.subtitles && after.adts
                == queue.adts
            &&& forall|i: int|
                0 <= i < n ==> (#[trigger] after.audio[i]).pts_ms == queue.audio[i].pts_ms
                    && after.audio[i].dts_ms == queue.audio[i].dts_ms && after.audio[i].data
                    == queue.audio[i].data
        }),
{
    milliseconds_are_whole(pts);
}

/// A date outside of what 64 bits hold is the nearest one that they do; what does
/// not fit a signed number counts as lying before 1970.
pub proof fn far_dates_are_clipped(unix_secs: u64)
    ensures
        unix_secs < 10_201_679_237 ==> mkv::date_of(unix_secs) == (unix_secs - 978_307_200)
            * 1_000_000_000,
        10_201_679_237 <= unix_secs <= i64::MAX ==> mkv::date_of(unix_secs) == i64::MAX,
        i64::MAX < unix_secs < u64::MAX - 10_000_000_000 ==> mkv::date_of(unix_secs) == i64::MIN,
        mkv::date_of(u64::MAX) == -978_307_201 * 1_000_000_000,
{
}

} // verus!
