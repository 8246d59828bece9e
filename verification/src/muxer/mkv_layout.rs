//! How queued samples become blocks, clusters and seek points of a Matroska
//! segment.
//!
//! Blocks are interleaved in decode order. A cluster starts at every video
//! keyframe, and where the one before it would grow past its span or its
//! block count, or where a block time would not fit 16 bits.

use vstd::prelude::*;
use crate::muxer::ebml::{
    self, encode_block_group, encode_cue_point, encode_header, encode_simple_block,
    encode_timestamp, encode_vint, CLUSTER_ID, CUES_ID, MAX_BODY,
};
use crate::wire::{self, put_be16, put_slice};

verus! {

/// Number of the video track.
pub const VIDEO_TRACK_NUMBER: u64 = 1;

/// Number of the audio track.
pub const AUDIO_TRACK_NUMBER: u64 = 2;

/// Number of the subtitle track.
pub const SUBTITLE_TRACK_NUMBER: u64 = 3;

/// Longest span of a cluster in milliseconds.
pub const MAX_CLUSTER_SPAN_MS: u64 = 5000;

/// Most blocks of a cluster.
pub const MAX_CLUSTER_BLOCKS: usize = 1000;

/// Times in milliseconds stay below this.
pub const MAX_TIME_MS: u64 = 0x2_0000_0000_0000;

/// A queued sample, times in milliseconds.
pub struct MkvSample {
    /// Presentation time.
    pub pts_ms: u64,
    /// Decode time.
    pub dts_ms: u64,
    /// The bytes that are stored.
    pub data: Vec<u8>,
    /// Whether the sample depends on no other.
    pub is_keyframe: bool,
    /// The duration, once known.
    pub duration_ms: Option<u64>,
}

/// A queued sample, its bytes as a sequence.
#[verifier::ext_equal]
pub struct SampleModel {
    pub pts_ms: u64,
    pub dts_ms: u64,
    pub data: Seq<u8>,
    pub is_keyframe: bool,
    pub duration_ms: Option<u64>,
}

impl View for MkvSample {
    type V = SampleModel;

    open spec fn view(&self) -> SampleModel {
        SampleModel {
            pts_ms: self.pts_ms,
            dts_ms: self.dts_ms,
            data: self.data@,
            is_keyframe: self.is_keyframe,
            duration_ms: self.duration_ms,
        }
    }
}

/// The views of a run of samples.
pub open spec fn sample_models(samples: Seq<MkvSample>) -> Seq<SampleModel> {
    samples.map_values(|sample: MkvSample| sample@)
}

/// A sample on its track.
#[verifier::ext_equal]
pub struct BlockModel {
    pub track: u64,
    pub sample: SampleModel,
}

/// The samples of a track as blocks.
pub open spec fn on_track(samples: Seq<SampleModel>, track: u64) -> Seq<BlockModel> {
    samples.map_values(|sample: SampleModel| BlockModel { track, sample })
}

/// The blocks of three tracks, interleaved by decode time. Of blocks with the
/// same time, those of the earlier track come first.
pub open spec fn merged(
    video: Seq<BlockModel>,
    audio: Seq<BlockModel>,
    text: Seq<BlockModel>,
) -> Seq<BlockModel>
    decreases video.len() + audio.len() + text.len(),
{
    if video.len() > 0 && !comes_before(audio, video[0]) && !comes_before(text, video[0]) {
        seq![video[0]] + merged(video.drop_first(), audio, text)
    } else if audio.len() > 0 && !comes_before(text, audio[0]) {
        seq![audio[0]] + merged(video, audio.drop_first(), text)
    } else if text.len() > 0 {
        seq![text[0]] + merged(video, audio, text.drop_first())
    } else {
        Seq::empty()
    }
}

/// Whether the first of some blocks is decoded before `block`.
pub open spec fn comes_before(blocks: Seq<BlockModel>, block: BlockModel) -> bool {
    blocks.len() > 0 && blocks[0].sample.dts_ms < block.sample.dts_ms
}

/// Whether blocks are in decode order.
pub open spec fn in_decode_order(blocks: Seq<BlockModel>) -> bool {
    forall|i: int, j: int|
        0 <= i <= j < blocks.len() ==> (#[trigger] blocks[i]).sample.dts_ms <= (
        #[trigger] blocks[j]).sample.dts_ms
}

/// Interleaving keeps every block.
pub proof fn merged_length(
    video: Seq<BlockModel>,
    audio: Seq<BlockModel>,
    text: Seq<BlockModel>,
)
    ensures
        merged(video, audio, text).len() == video.len() + audio.len() + text.len(),
    decreases video.len() + audio.len() + text.len(),
{
    if video.len() > 0 && !comes_before(audio, video[0]) && !comes_before(text, video[0]) {
        merged_length(video.drop_first(), audio, text);
    } else if audio.len() > 0 && !comes_before(text, audio[0]) {
        merged_length(video, audio.drop_first(), text);
    } else if text.len() > 0 {
        merged_length(video, audio, text.drop_first());
    }
}

proof fn lemma_tail_in_order(blocks: Seq<BlockModel>)
    requires
        in_decode_order(blocks),
        blocks.len() > 0,
    ensures
        in_decode_order(blocks.drop_first()),
{
    let tail = blocks.drop_first();
    assert forall|i: int, j: int| 0 <= i <= j < tail.len() implies (
    #[trigger] tail[i]).sample.dts_ms <= (#[trigger] tail[j]).sample.dts_ms by {
        assert(tail[i] == blocks[i + 1] && tail[j] == blocks[j + 1]);
    }
}

/// Tracks that are each in decode order are in decode order when interleaved,
/// and no block is decoded before time `floor` if none was.
pub proof fn merged_in_decode_order(
    video: Seq<BlockModel>,
    audio: Seq<BlockModel>,
    text: Seq<BlockModel>,
    floor: u64,
)
    requires
        in_decode_order(video),
        in_decode_order(audio),
        in_decode_order(text),
        video.len() > 0 ==> video[0].sample.dts_ms >= floor,
        audio.len() > 0 ==> audio[0].sample.dts_ms >= floor,
        text.len() > 0 ==> text[0].sample.dts_ms >= floor,
    ensures
        in_decode_order(merged(video, audio, text)),
        merged(video, audio, text).len() > 0 ==> merged(video, audio, text)[0].sample.dts_ms
            >= floor,
    decreases video.len() + audio.len() + text.len(),
{
    let all = merged(video, audio, text);
    if video.len() > 0 && !comes_before(audio, video[0]) && !comes_before(text, video[0]) {
        let first = video[0];
        lemma_tail_in_order(video);
        merged_in_decode_order(video.drop_first(), audio, text, first.sample.dts_ms);
        lemma_prepended(first, merged(video.drop_first(), audio, text));
    } else if audio.len() > 0 && !comes_before(text, audio[0]) {
        let first = audio[0];
        lemma_tail_in_order(audio);
        merged_in_decode_order(video, audio.drop_first(), text, first.sample.dts_ms);
        lemma_prepended(first, merged(video, audio.drop_first(), text));
    } else if text.len() > 0 {
        let first = text[0];
        lemma_tail_in_order(text);
        merged_in_decode_order(video, audio, text.drop_first(), first.sample.dts_ms);
        lemma_prepended(first, merged(video, audio, text.drop_first()));
    }
}

proof fn lemma_prepended(first: BlockModel, rest: Seq<BlockModel>)
    requires
        in_decode_order(rest),
        rest.len() > 0 ==> first.sample.dts_ms <= rest[0].sample.dts_ms,
    ensures
        in_decode_order(seq![first] + rest),
{
    let all = seq![first] + rest;
    assert forall|i: int, j: int| 0 <= i <= j < all.len() implies (
    #[trigger] all[i]).sample.dts_ms <= (#[trigger] all[j]).sample.dts_ms by {
        if i > 0 {
            assert(all[i] == rest[i - 1] && all[j] == rest[j - 1]);
        } else if j > 0 {
            assert(all[j] == rest[j - 1]);
            assert(rest[0].sample.dts_ms <= rest[j - 1].sample.dts_ms);
        }
    }
}

/// The blocks of one track among others.
pub open spec fn of_track(blocks: Seq<BlockModel>, track: u64) -> Seq<BlockModel>
    decreases blocks.len(),
{
    if blocks.len() == 0 {
        Seq::empty()
    } else if blocks[0].track == track {
        seq![blocks[0]] + of_track(blocks.drop_first(), track)
    } else {
        of_track(blocks.drop_first(), track)
    }
}

/// Whether every block is on a track.
pub open spec fn all_on(blocks: Seq<BlockModel>, track: u64) -> bool {
    forall|i: int| 0 <= i < blocks.len() ==> (#[trigger] blocks[i]).track == track
}

/// Interleaving keeps the blocks of each track, in their order.
pub proof fn merged_keeps_tracks(
    video: Seq<BlockModel>,
    audio: Seq<BlockModel>,
    text: Seq<BlockModel>,
)
    requires
        all_on(video, VIDEO_TRACK_NUMBER),
        all_on(audio, AUDIO_TRACK_NUMBER),
        all_on(text, SUBTITLE_TRACK_NUMBER),
    ensures
        of_track(merged(video, audio, text), VIDEO_TRACK_NUMBER) == video,
        of_track(merged(video, audio, text), AUDIO_TRACK_NUMBER) == audio,
        of_track(merged(video, audio, text), SUBTITLE_TRACK_NUMBER) == text,
    decreases video.len() + audio.len() + text.len(),
{
    let all = merged(video, audio, text);
    if video.len() > 0 && !comes_before(audio, video[0]) && !comes_before(text, video[0]) {
        merged_keeps_tracks(video.drop_first(), audio, text);
        assert(all.drop_first() =~= merged(video.drop_first(), audio, text));
        assert(video =~= seq![video[0]] + video.drop_first());
    } else if audio.len() > 0 && !comes_before(text, audio[0]) {
        merged_keeps_tracks(video, audio.drop_first(), text);
        assert(all.drop_first() =~= merged(video, audio.drop_first(), text));
        assert(audio =~= seq![audio[0]] + audio.drop_first());
    } else if text.len() > 0 {
        merged_keeps_tracks(video, audio, text.drop_first());
        assert(all.drop_first() =~= merged(video, audio, text.drop_first()));
        assert(text =~= seq![text[0]] + text.drop_first());
    } else {
        assert(video =~= Seq::empty());
        assert(audio =~= Seq::empty());
        assert(text =~= Seq::empty());
    }
}

/// Whether a block is a video keyframe.
pub open spec fn is_video_key(block: BlockModel) -> bool {
    block.track == VIDEO_TRACK_NUMBER && block.sample.is_keyframe
}

/// Whether a block does not go into a cluster that started at time `base` and
/// has `count` blocks.
pub open spec fn splits(block: BlockModel, base: u64, count: int) -> bool {
    ||| is_video_key(block)
    ||| block.sample.pts_ms - base > MAX_CLUSTER_SPAN_MS
    ||| count >= MAX_CLUSTER_BLOCKS
    ||| base - block.sample.pts_ms > 0x8000
}

/// The block behind the cluster that starts at block `start` and has taken
/// those up to `i`.
pub open spec fn cluster_end(blocks: Seq<BlockModel>, start: int, i: int) -> int
    decreases blocks.len() - i,
{
    if 0 <= start <= i < blocks.len() && (i == start || !splits(
        blocks[i],
        blocks[start].sample.pts_ms,
        i - start,
    )) {
        cluster_end(blocks, start, i + 1)
    } else {
        i
    }
}

/// A cluster: its time and its blocks.
#[verifier::ext_equal]
pub struct ClusterModel {
    pub base: u64,
    pub blocks: Seq<BlockModel>,
}

/// The clusters of the blocks from `start` on.
pub open spec fn clusters_from(blocks: Seq<BlockModel>, start: int) -> Seq<ClusterModel>
    decreases blocks.len() - start,
{
    let end = cluster_end(blocks, start, start);
    if 0 <= start < end <= blocks.len() {
        seq![ClusterModel { base: blocks[start].sample.pts_ms, blocks: blocks.subrange(start, end) }]
            + clusters_from(blocks, end)
    } else {
        Seq::empty()
    }
}

/// A cluster ends behind its first block, and no block in it would have
/// split it.
pub proof fn lemma_cluster_end(blocks: Seq<BlockModel>, start: int, i: int)
    requires
        0 <= start <= i <= blocks.len(),
        start < blocks.len(),
        forall|k: int|
            start < k < i ==> !splits(
                #[trigger] blocks[k],
                blocks[start].sample.pts_ms,
                k - start,
            ),
    ensures
        i <= cluster_end(blocks, start, i) <= blocks.len(),
        i == start ==> cluster_end(blocks, start, i) > start,
        forall|k: int|
            start < k < cluster_end(blocks, start, i) ==> !splits(
                #[trigger] blocks[k],
                blocks[start].sample.pts_ms,
                k - start,
            ),
        cluster_end(blocks, start, i) < blocks.len() ==> splits(
            blocks[cluster_end(blocks, start, i)],
            blocks[start].sample.pts_ms,
            cluster_end(blocks, start, i) - start,
        ),
    decreases blocks.len() - i,
{
    if i < blocks.len() && (i == start || !splits(
        blocks[i],
        blocks[start].sample.pts_ms,
        i - start,
    )) {
        lemma_cluster_end(blocks, start, i + 1);
    }
}

/// The blocks of some clusters, one cluster after the other.
pub open spec fn cluster_blocks(clusters: Seq<ClusterModel>) -> Seq<BlockModel>
    decreases clusters.len(),
{
    if clusters.len() == 0 {
        Seq::empty()
    } else {
        clusters[0].blocks + cluster_blocks(clusters.drop_first())
    }
}

/// Clusters hold every block, in order.
pub proof fn clusters_hold_all_blocks(blocks: Seq<BlockModel>, start: int)
    requires
        0 <= start <= blocks.len(),
    ensures
        cluster_blocks(clusters_from(blocks, start)) == blocks.skip(start),
    decreases blocks.len() - start,
{
    if start < blocks.len() {
        lemma_cluster_end(blocks, start, start);
        let end = cluster_end(blocks, start, start);
        clusters_hold_all_blocks(blocks, end);
        let all = clusters_from(blocks, start);
        assert(all.drop_first() =~= clusters_from(blocks, end));
        assert(blocks.subrange(start, end) + blocks.skip(end) =~= blocks.skip(start));
    } else {
        assert(blocks.skip(start) =~= Seq::empty());
    }
}

/// Every cluster has at least one block and at most as many as allowed, spans
/// no more than allowed, and each of its block times, relative to its own,
/// fits 16 bits.
pub proof fn clusters_stay_in_bounds(blocks: Seq<BlockModel>, start: int, k: int)
    requires
        0 <= start <= blocks.len(),
        0 <= k < clusters_from(blocks, start).len(),
    ensures
        ({
            let cluster = clusters_from(blocks, start)[k];
            &&& 1 <= cluster.blocks.len() <= MAX_CLUSTER_BLOCKS
            &&& cluster.base == cluster.blocks[0].sample.pts_ms
            &&& forall|j: int|
                0 <= j < cluster.blocks.len() ==> (#[trigger] cluster.blocks[j]).sample.pts_ms
                    - cluster.base <= MAX_CLUSTER_SPAN_MS && -0x8000 <= (
                #[trigger] cluster.blocks[j]).sample.pts_ms - cluster.base <= 0x7FFF
            &&& forall|j: int|
                0 < j < cluster.blocks.len() ==> !is_video_key(#[trigger] cluster.blocks[j])
        }),
    decreases blocks.len() - start,
{
    lemma_cluster_end(blocks, start, start);
    let end = cluster_end(blocks, start, start);
    let cluster = clusters_from(blocks, start)[k];
    if k > 0 {
        clusters_stay_in_bounds(blocks, end, k - 1);
        assert(clusters_from(blocks, start)[k] == clusters_from(blocks, end)[k - 1]);
    } else {
        assert(cluster.blocks == blocks.subrange(start, end));
        assert forall|j: int| 0 <= j < cluster.blocks.len() implies (
        #[trigger] cluster.blocks[j]).sample.pts_ms - cluster.base <= MAX_CLUSTER_SPAN_MS
            && -0x8000 <= cluster.blocks[j].sample.pts_ms - cluster.base <= 0x7FFF by {
            assert(cluster.blocks[j] == blocks[start + j]);
        }
        assert forall|j: int| 0 < j < cluster.blocks.len() implies !is_video_key(
            #[trigger] cluster.blocks[j],
        ) by {
            assert(cluster.blocks[j] == blocks[start + j]);
        }
        if end - start > MAX_CLUSTER_BLOCKS {
            assert(!splits(
                blocks[end - 1],
                blocks[start].sample.pts_ms,
                end - 1 - start,
            ));
        }
    }
}

/// The two bytes of a relative block time.
pub open spec fn relative_time(pts_ms: u64, base: u64) -> Seq<u8> {
    wire::be16(((pts_ms - base) % 0x1_0000) as u16)
}

/// The payload of a block: its track, its time relative to the cluster, a
/// keyframe flag, and the data.
pub open spec fn block_payload_bytes(block: BlockModel, base: u64) -> Seq<u8> {
    seq![(0x80 + block.track) as u8] + relative_time(block.sample.pts_ms, base) + seq![
        if block.sample.is_keyframe {
            0x80u8
        } else {
            0u8
        },
    ] + block.sample.data
}

/// The relative time of a block that another refers to, where it is unknown.
pub const UNKNOWN_REFERENCE: i64 = 0;

/// Whether a block needs a group: subtitles for their duration, and video
/// that is out of order or depends on other frames.
pub open spec fn is_grouped(block: BlockModel) -> bool {
    ||| block.track == SUBTITLE_TRACK_NUMBER
    ||| block.sample.pts_ms != block.sample.dts_ms
    ||| block.track == VIDEO_TRACK_NUMBER && !block.sample.is_keyframe
}

/// The element of a block.
pub open spec fn block_element(block: BlockModel, base: u64) -> Seq<u8> {
    let payload = block_payload_bytes(block, base);
    if is_grouped(block) {
        ebml::block_group_element(
            payload,
            block.sample.duration_ms,
            if block.sample.is_keyframe {
                None
            } else {
                Some(UNKNOWN_REFERENCE)
            },
        )
    } else {
        ebml::element(ebml::SIMPLE_BLOCK_ID, payload)
    }
}

/// The elements of some blocks, one after the other.
pub open spec fn block_elements(blocks: Seq<BlockModel>, base: u64) -> Seq<u8>
    decreases blocks.len(),
{
    if blocks.len() == 0 {
        Seq::empty()
    } else {
        block_elements(blocks.drop_last(), base) + block_element(blocks.last(), base)
    }
}

/// The element of a cluster.
pub open spec fn cluster_element(cluster: ClusterModel) -> Seq<u8> {
    ebml::element(
        CLUSTER_ID,
        ebml::timestamp_element(cluster.base) + block_elements(cluster.blocks, cluster.base),
    )
}

/// The elements of some clusters, one after the other.
pub open spec fn cluster_elements(clusters: Seq<ClusterModel>) -> Seq<u8>
    decreases clusters.len(),
{
    if clusters.len() == 0 {
        Seq::empty()
    } else {
        cluster_elements(clusters.drop_last()) + cluster_element(clusters.last())
    }
}

/// Where the `k`-th cluster starts in the segment, behind `front` bytes.
pub open spec fn cluster_position(clusters: Seq<ClusterModel>, front: int, k: int) -> int {
    front + cluster_elements(clusters.take(k)).len()
}

/// The seek points for those of the first `n` clusters that begin with a
/// video keyframe.
pub open spec fn cue_points(clusters: Seq<ClusterModel>, front: int, n: int) -> Seq<u8>
    decreases n,
{
    if n <= 0 {
        Seq::empty()
    } else if is_video_key(clusters[n - 1].blocks[0]) {
        cue_points(clusters, front, n - 1) + ebml::cue_point_element(
            clusters[n - 1].base,
            VIDEO_TRACK_NUMBER,
            cluster_position(clusters, front, n - 1) as u64,
        )
    } else {
        cue_points(clusters, front, n - 1)
    }
}

/// Whether one of the first `n` clusters begins with a video keyframe.
pub open spec fn has_cues(clusters: Seq<ClusterModel>, n: int) -> bool {
    exists|k: int| 0 <= k < n && is_video_key((#[trigger] clusters[k]).blocks[0])
}

/// The clusters and the seek points behind `front` bytes of the segment. A
/// segment without video keyframes has no seek points.
pub open spec fn media_bytes(clusters: Seq<ClusterModel>, front: int) -> Seq<u8> {
    let n = clusters.len() as int;
    cluster_elements(clusters) + if has_cues(clusters, n) {
        ebml::element(CUES_ID, cue_points(clusters, front, n))
    } else {
        Seq::empty()
    }
}

/// At the position that a seek point gives stands the cluster that it is for.
pub proof fn cluster_stands_at_its_position(
    front: Seq<u8>,
    clusters: Seq<ClusterModel>,
    k: int,
)
    requires
        0 <= k < clusters.len(),
    ensures
        ({
            let body = front + media_bytes(clusters, front.len() as int);
            let at = cluster_position(clusters, front.len() as int, k);
            let cluster = cluster_element(clusters[k]);
            &&& 0 <= at
            &&& at + cluster.len() <= body.len()
            &&& body.subrange(at, at + cluster.len()) == cluster
        }),
{
    let media = media_bytes(clusters, front.len() as int);
    let body = front + media;
    let at = cluster_elements(clusters.take(k)).len() as int;
    let cluster = cluster_element(clusters[k]);
    lemma_clusters_split(clusters, k + 1);
    assert(clusters.take(k + 1).drop_last() =~= clusters.take(k));
    assert(clusters.take(k + 1).last() == clusters[k]);
    let upto = cluster_elements(clusters.take(k + 1));
    assert(upto =~= cluster_elements(clusters.take(k)) + cluster);
    assert(body.subrange(front.len() + at, front.len() + at + cluster.len()) =~= upto.subrange(
        at,
        at + cluster.len(),
    )) by {
        assert forall|i: int| 0 <= i < upto.len() implies cluster_elements(clusters)[i]
            == upto[i] by {
            assert(cluster_elements(clusters).take(upto.len() as int)[i] == upto[i]);
        }
    }
    assert(upto.subrange(at, at + cluster.len()) =~= cluster);
}

/// The elements of all clusters begin with those of the first ones.
proof fn lemma_clusters_split(clusters: Seq<ClusterModel>, n: int)
    requires
        0 <= n <= clusters.len(),
    ensures
        cluster_elements(clusters.take(n)).len() <= cluster_elements(clusters).len(),
        cluster_elements(clusters).take(cluster_elements(clusters.take(n)).len() as int)
            == cluster_elements(clusters.take(n)),
    decreases clusters.len(),
{
    let all = cluster_elements(clusters);
    if n == clusters.len() {
        assert(clusters.take(n) =~= clusters);
        assert(all.take(all.len() as int) =~= all);
    } else {
        let front = clusters.drop_last();
        lemma_clusters_split(front, n);
        assert(front.take(n) =~= clusters.take(n));
        let m = cluster_elements(clusters.take(n)).len() as int;
        assert(all.take(m) =~= cluster_elements(front).take(m));
    }
}

/// What a block may add to the file, its share of clusters and seek points
/// included.
pub open spec fn weight(blocks: Seq<BlockModel>) -> int
    decreases blocks.len(),
{
    if blocks.len() == 0 {
        0
    } else {
        weight(blocks.drop_last()) + blocks.last().sample.data.len() + 1024
    }
}

/// The weight of some samples.
pub open spec fn samples_weight(samples: Seq<SampleModel>) -> int
    decreases samples.len(),
{
    if samples.len() == 0 {
        0
    } else {
        samples_weight(samples.drop_last()) + samples.last().data.len() + 1024
    }
}

proof fn lemma_weight_concat(a: Seq<BlockModel>, b: Seq<BlockModel>)
    ensures
        weight(a + b) == weight(a) + weight(b),
        weight(a) >= 0,
    decreases b.len(),
{
    if b.len() == 0 {
        assert(a + b =~= a);
        lemma_weight_nonnegative(a);
    } else {
        lemma_weight_concat(a, b.drop_last());
        assert((a + b).drop_last() =~= a + b.drop_last());
        assert((a + b).last() == b.last());
    }
}

proof fn lemma_weight_nonnegative(a: Seq<BlockModel>)
    ensures
        weight(a) >= 1024 * a.len(),
    decreases a.len(),
{
    if a.len() > 0 {
        lemma_weight_nonnegative(a.drop_last());
    }
}

/// The weight of a track is that of its samples.
pub proof fn lemma_track_weight(samples: Seq<SampleModel>, track: u64)
    ensures
        weight(on_track(samples, track)) == samples_weight(samples),
    decreases samples.len(),
{
    if samples.len() > 0 {
        lemma_track_weight(samples.drop_last(), track);
        assert(on_track(samples, track).drop_last() =~= on_track(samples.drop_last(), track));
    }
}

/// Interleaving adds no weight.
pub proof fn lemma_merged_weight(
    video: Seq<BlockModel>,
    audio: Seq<BlockModel>,
    text: Seq<BlockModel>,
)
    ensures
        weight(merged(video, audio, text)) == weight(video) + weight(audio) + weight(text),
    decreases video.len() + audio.len() + text.len(),
{
    if video.len() > 0 && !comes_before(audio, video[0]) && !comes_before(text, video[0]) {
        lemma_merged_weight(video.drop_first(), audio, text);
        lemma_weight_concat(seq![video[0]], video.drop_first());
        lemma_weight_concat(seq![video[0]], merged(video.drop_first(), audio, text));
        assert(video =~= seq![video[0]] + video.drop_first());
    } else if audio.len() > 0 && !comes_before(text, audio[0]) {
        lemma_merged_weight(video, audio.drop_first(), text);
        lemma_weight_concat(seq![audio[0]], audio.drop_first());
        lemma_weight_concat(seq![audio[0]], merged(video, audio.drop_first(), text));
        assert(audio =~= seq![audio[0]] + audio.drop_first());
    } else if text.len() > 0 {
        lemma_merged_weight(video, audio, text.drop_first());
        lemma_weight_concat(seq![text[0]], text.drop_first());
        lemma_weight_concat(seq![text[0]], merged(video, audio, text.drop_first()));
        assert(text =~= seq![text[0]] + text.drop_first());
    }
}

/// A block on its way into a cluster.
pub struct PendingBlock<'a> {
    /// Number of the track.
    pub track: u64,
    /// The sample.
    pub sample: &'a MkvSample,
}

impl<'a> View for PendingBlock<'a> {
    type V = BlockModel;

    open spec fn view(&self) -> BlockModel {
        BlockModel { track: self.track, sample: self.sample@ }
    }
}

/// The views of a run of blocks.
pub open spec fn block_models(blocks: Seq<PendingBlock>) -> Seq<BlockModel> {
    blocks.map_values(|block: PendingBlock| block@)
}

/// Whether the sample at `i`, if there is one, is decoded before `time`.
fn is_earlier(samples: &Vec<MkvSample>, i: usize, time: u64) -> (earlier: bool)
    requires
        i <= samples@.len(),
    ensures
        earlier == (i < samples@.len() && samples@[i as int].dts_ms < time),
{
    i < samples.len() && samples[i].dts_ms < time
}

/// Interleaves the samples of three tracks in decode order.
pub fn collect_blocks<'a>(
    video: &'a Vec<MkvSample>,
    audio: &'a Vec<MkvSample>,
    text: &'a Vec<MkvSample>,
) -> (blocks: Vec<PendingBlock<'a>>)
    ensures
        block_models(blocks@) == merged(
            on_track(sample_models(video@), VIDEO_TRACK_NUMBER),
            on_track(sample_models(audio@), AUDIO_TRACK_NUMBER),
            on_track(sample_models(text@), SUBTITLE_TRACK_NUMBER),
        ),
{
    let ghost v = on_track(sample_models(video@), VIDEO_TRACK_NUMBER);
    let ghost a = on_track(sample_models(audio@), AUDIO_TRACK_NUMBER);
    let ghost t = on_track(sample_models(text@), SUBTITLE_TRACK_NUMBER);
    let mut blocks: Vec<PendingBlock<'a>> = Vec::new();
    let mut i: usize = 0;
    let mut j: usize = 0;
    let mut k: usize = 0;
    assert(text.len() == text@.len());
    assert(v.skip(0) =~= v && a.skip(0) =~= a && t.skip(0) =~= t);
    assert(block_models(blocks@) + merged(v, a, t) =~= merged(v, a, t));
    while i < video.len() || j < audio.len() || k < text.len()
        invariant
            i <= video@.len(),
            j <= audio@.len(),
            k <= text@.len(),
            text.len() == text@.len(),
            v == on_track(sample_models(video@), VIDEO_TRACK_NUMBER),
            a == on_track(sample_models(audio@), AUDIO_TRACK_NUMBER),
            t == on_track(sample_models(text@), SUBTITLE_TRACK_NUMBER),
            block_models(blocks@) + merged(
                v.skip(i as int),
                a.skip(j as int),
                t.skip(k as int),
            ) == merged(v, a, t),
        decreases video@.len() - i + audio@.len() - j + text@.len() - k,
    {
        let ghost vs = v.skip(i as int);
        let ghost as_ = a.skip(j as int);
        let ghost ts = t.skip(k as int);
        let ghost before = blocks@;
        proof {
            if i < video@.len() {
                assert(vs[0] == BlockModel {
                    track: VIDEO_TRACK_NUMBER,
                    sample: video@[i as int]@,
                });
            }
            if j < audio@.len() {
                assert(as_[0] == BlockModel {
                    track: AUDIO_TRACK_NUMBER,
                    sample: audio@[j as int]@,
                });
            }
            if k < text@.len() {
                assert(ts[0] == BlockModel {
                    track: SUBTITLE_TRACK_NUMBER,
                    sample: text@[k as int]@,
                });
            }
        }
        let video_next = i < video.len() && !is_earlier(audio, j, video[i].dts_ms) && !is_earlier(
            text,
            k,
            video[i].dts_ms,
        );
        if video_next {
            blocks.push(PendingBlock { track: VIDEO_TRACK_NUMBER, sample: &video[i] });
            i += 1;
            proof {
                assert(vs.drop_first() =~= v.skip(i as int));
                assert(block_models(blocks@) =~= block_models(before).push(vs[0]));
                assert(block_models(blocks@) + merged(v.skip(i as int), as_, ts)
                    =~= block_models(before) + (seq![vs[0]] + merged(v.skip(i as int), as_, ts)));
            }
        } else if j < audio.len() && !is_earlier(text, k, audio[j].dts_ms) {
            blocks.push(PendingBlock { track: AUDIO_TRACK_NUMBER, sample: &audio[j] });
            j += 1;
            proof {
                assert(as_.drop_first() =~= a.skip(j as int));
                assert(block_models(blocks@) =~= block_models(before).push(as_[0]));
                assert(block_models(blocks@) + merged(vs, a.skip(j as int), ts)
                    =~= block_models(before) + (seq![as_[0]] + merged(vs, a.skip(j as int), ts)));
            }
        } else {
            assert(k < text@.len());
            blocks.push(PendingBlock { track: SUBTITLE_TRACK_NUMBER, sample: &text[k] });
            k += 1;
            proof {
                assert(ts.drop_first() =~= t.skip(k as int));
                assert(block_models(blocks@) =~= block_models(before).push(ts[0]));
                assert(block_models(blocks@) + merged(vs, as_, t.skip(k as int))
                    =~= block_models(before) + (seq![ts[0]] + merged(vs, as_, t.skip(k as int))));
            }
        }
    }
    assert(merged(v.skip(i as int), a.skip(j as int), t.skip(k as int)) =~= Seq::empty());
    assert(block_models(blocks@) + Seq::empty() =~= block_models(blocks@));
    blocks
}

/// Whether a block needs a group.
fn needs_block_group(block: &PendingBlock<'_>) -> (yes: bool)
    ensures
        yes == is_grouped(block@),
{
    block.track == SUBTITLE_TRACK_NUMBER || block.sample.pts_ms != block.sample.dts_ms || (
    block.track == VIDEO_TRACK_NUMBER && !block.sample.is_keyframe)
}

/// Builds the payload of a block.
fn block_payload(block: &PendingBlock<'_>, base: u64) -> (payload: Vec<u8>)
    requires
        1 <= block.track <= 3,
        -0x8000 <= block.sample.pts_ms - base <= 0x7FFF,
        block.sample.pts_ms < MAX_TIME_MS,
        base < MAX_TIME_MS,
    ensures
        payload@ == block_payload_bytes(block@, base),
{
    let mut payload: Vec<u8> = vec![encode_vint(block.track) as u8];
    let relative: i64 = block.sample.pts_ms as i64 - base as i64;
    let bits: u16 = if relative < 0 {
        (relative + 0x1_0000) as u16
    } else {
        relative as u16
    };
    put_be16(&mut payload, bits);
    payload.push(
        if block.sample.is_keyframe {
            0x80
        } else {
            0
        },
    );
    put_slice(&mut payload, block.sample.data.as_slice());
    proof {
        assert(bits == (block.sample.pts_ms - base) % 0x1_0000);
        assert(payload@ =~= block_payload_bytes(block@, base));
    }
    payload
}

/// Encodes a block for a cluster with the given time.
fn pending_to_cluster_block(block: &PendingBlock<'_>, base: u64) -> (bytes: Vec<u8>)
    requires
        1 <= block.track <= 3,
        -0x8000 <= block.sample.pts_ms - base <= 0x7FFF,
        block.sample.pts_ms < MAX_TIME_MS,
        base < MAX_TIME_MS,
        block.sample.data@.len() <= MAX_BODY / 4,
    ensures
        bytes@ == block_element(block@, base),
        bytes@.len() <= block.sample.data@.len() + 260,
{
    let payload = block_payload(block, base);
    if needs_block_group(block) {
        let reference: Option<i64> = if block.sample.is_keyframe {
            None
        } else {
            Some(UNKNOWN_REFERENCE)
        };
        proof {
            ebml::block_group_overhead(payload@, block.sample.duration_ms, reference);
        }
        encode_block_group(payload.as_slice(), block.sample.duration_ms, reference)
    } else {
        proof {
            ebml::element_overhead(ebml::SIMPLE_BLOCK_ID, payload@);
        }
        encode_simple_block(payload.as_slice())
    }
}

/// Whether blocks can be written: known tracks, and times and sizes within
/// bounds.
pub open spec fn is_writable(blocks: Seq<BlockModel>) -> bool {
    &&& weight(blocks) <= MAX_BODY / 8
    &&& forall|i: int|
        0 <= i < blocks.len() ==> 1 <= (#[trigger] blocks[i]).track <= 3
            && blocks[i].sample.pts_ms < MAX_TIME_MS
}

/// A run of blocks weighs no more than all of them.
proof fn lemma_weight_subrange(blocks: Seq<BlockModel>, from: int, to: int)
    requires
        0 <= from <= to <= blocks.len(),
    ensures
        weight(blocks.take(from)) + weight(blocks.subrange(from, to)) == weight(blocks.take(to)),
        weight(blocks.take(to)) <= weight(blocks),
        weight(blocks.subrange(from, to)) >= 1024 * (to - from),
        weight(blocks.take(from)) >= 0,
{
    assert(blocks.take(to) =~= blocks.take(from) + blocks.subrange(from, to));
    lemma_weight_concat(blocks.take(from), blocks.subrange(from, to));
    assert(blocks =~= blocks.take(to) + blocks.skip(to));
    lemma_weight_concat(blocks.take(to), blocks.skip(to));
    lemma_weight_nonnegative(blocks.skip(to));
    lemma_weight_nonnegative(blocks.subrange(from, to));
}

/// Encodes the cluster of the blocks from `start` to `end`.
fn encode_cluster(blocks: &Vec<PendingBlock<'_>>, start: usize, end: usize) -> (bytes: Vec<u8>)
    requires
        start < end <= blocks@.len(),
        is_writable(block_models(blocks@)),
        forall|k: int|
            start <= k < end ==> -0x8000 <= (#[trigger] blocks@[k]).sample.pts_ms
                - blocks@[start as int].sample.pts_ms <= 0x7FFF,
    ensures
        bytes@ == cluster_element(
            ClusterModel {
                base: blocks@[start as int].sample.pts_ms,
                blocks: block_models(blocks@).subrange(start as int, end as int),
            },
        ),
        bytes@.len() + 512 <= weight(
            block_models(blocks@).subrange(start as int, end as int),
        ),
{
    let ghost all = block_models(blocks@);
    let base: u64 = blocks[start].sample.pts_ms;
    assert(all[start as int] == blocks@[start as int]@);
    let mut body = encode_timestamp(base);
    let ghost time = body@;
    proof {
        ebml::timestamp_overhead(base);
    }
    let mut i: usize = start;
    assert(all.subrange(start as int, start as int) =~= Seq::empty());
    assert(time + block_elements(Seq::empty(), base) =~= time);
    while i < end
        invariant
            start <= i <= end <= blocks@.len(),
            all == block_models(blocks@),
            is_writable(all),
            base < MAX_TIME_MS,
            base == blocks@[start as int].sample.pts_ms,
            forall|k: int|
                start <= k < end ==> -0x8000 <= (#[trigger] blocks@[k]).sample.pts_ms - base
                    <= 0x7FFF,
            time == ebml::timestamp_element(base),
            time.len() <= 32,
            body@ == time + block_elements(all.subrange(start as int, i as int), base),
            body@.len() + 700 * (i - start) <= 32 + weight(
                all.subrange(start as int, i as int),
            ),
        decreases end - i,
    {
        proof {
            assert(all[i as int] == blocks@[i as int]@);
            let wider = all.subrange(start as int, i + 1);
            assert(wider.drop_last() =~= all.subrange(start as int, i as int));
            assert(wider.last() == all[i as int]);
            lemma_weight_subrange(all, start as int, i as int);
            lemma_weight_subrange(all, start as int, i + 1);
        }
        let block = pending_to_cluster_block(&blocks[i], base);
        put_slice(&mut body, block.as_slice());
        assert(body@ =~= time + block_elements(all.subrange(start as int, i + 1), base));
        i += 1;
    }
    proof {
        lemma_weight_subrange(all, start as int, end as int);
    }
    assert(body.len() == body@.len());
    let mut bytes = encode_header(CLUSTER_ID, body.len() as u64);
    proof {
        ebml::element_overhead(CLUSTER_ID, body@);
    }
    put_slice(&mut bytes, body.as_slice());
    bytes
}

/// Finds where the cluster that starts at `start` ends.
fn find_cluster_end(blocks: &Vec<PendingBlock<'_>>, start: usize) -> (end: usize)
    requires
        start < blocks@.len(),
    ensures
        end == cluster_end(block_models(blocks@), start as int, start as int),
        start < end <= blocks@.len(),
{
    let ghost all = block_models(blocks@);
    let base: u64 = blocks[start].sample.pts_ms;
    assert(all[start as int] == blocks@[start as int]@);
    assert(blocks.len() == blocks@.len());
    let mut i: usize = start + 1;
    while i < blocks.len()
        invariant
            start < i <= blocks@.len(),
            all == block_models(blocks@),
            base == all[start as int].sample.pts_ms,
            cluster_end(all, start as int, start as int) == cluster_end(
                all,
                start as int,
                i as int,
            ),
        decreases blocks@.len() - i,
    {
        assert(all[i as int] == blocks@[i as int]@);
        let block = &blocks[i];
        let pts: u64 = block.sample.pts_ms;
        let keyframe = block.track == VIDEO_TRACK_NUMBER && block.sample.is_keyframe;
        let too_long = pts > base && pts - base > MAX_CLUSTER_SPAN_MS;
        let too_many = i - start >= MAX_CLUSTER_BLOCKS;
        let too_early = base > pts && base - pts > 0x8000;
        if keyframe || too_long || too_many || too_early {
            return i;
        }
        i += 1;
    }
    i
}

/// Encodes the clusters and the seek points of a segment, behind `front`
/// bytes of it.
pub fn encode_media(blocks: &Vec<PendingBlock<'_>>, front: u64) -> (media: Vec<u8>)
    requires
        is_writable(block_models(blocks@)),
        front <= MAX_BODY / 2,
    ensures
        media@ == media_bytes(clusters_from(block_models(blocks@), 0), front as int),
        media@.len() <= weight(block_models(blocks@)) + 16,
{
    let ghost all = block_models(blocks@);
    let ghost clusters = clusters_from(all, 0);
    let mut media: Vec<u8> = Vec::new();
    let mut points: Vec<u8> = Vec::new();
    let mut any = false;
    let mut start: usize = 0;
    let ghost mut n: int = 0;
    proof {
        assert(clusters.skip(0) =~= clusters);
        assert(clusters.take(0) =~= Seq::empty());
        assert(all.take(0) =~= Seq::empty());
    }
    while start < blocks.len()
        invariant
            start <= blocks@.len(),
            all == block_models(blocks@),
            clusters == clusters_from(all, 0),
            is_writable(all),
            front <= MAX_BODY / 2,
            0 <= n <= clusters.len(),
            clusters.skip(n) == clusters_from(all, start as int),
            media@ == cluster_elements(clusters.take(n)),
            points@ == cue_points(clusters, front as int, n),
            any == has_cues(clusters, n),
            media@.len() + points@.len() <= weight(all.take(start as int)),
        decreases blocks@.len() - start,
    {
        let end: usize = find_cluster_end(blocks, start);
        let ghost cluster = ClusterModel {
            base: all[start as int].sample.pts_ms,
            blocks: all.subrange(start as int, end as int),
        };
        proof {
            assert(all[start as int] == blocks@[start as int]@);
            assert(clusters.skip(n)[0] == cluster);
            assert(clusters.skip(n).len() > 0);
            assert(clusters[n] == cluster);
            clusters_stay_in_bounds(all, start as int, 0);
            assert(clusters_from(all, start as int)[0] == cluster);
            assert forall|k: int| start <= k < end implies -0x8000 <= (
            #[trigger] blocks@[k]).sample.pts_ms - blocks@[start as int].sample.pts_ms
                <= 0x7FFF by {
                assert(cluster.blocks[k - start] == all[k]);
                assert(all[k] == blocks@[k]@);
            }
            lemma_weight_subrange(all, start as int, end as int);
            assert(clusters.take(n + 1).drop_last() =~= clusters.take(n));
            assert(clusters.take(n + 1).last() == cluster);
        }
        let bytes = encode_cluster(blocks, start, end);
        let first = &blocks[start];
        let keyframe = first.track == VIDEO_TRACK_NUMBER && first.sample.is_keyframe;
        if keyframe {
            assert(media.len() == media@.len());
            proof {
                ebml::cue_point_overhead(
                    first.sample.pts_ms,
                    VIDEO_TRACK_NUMBER,
                    (front + media@.len()) as u64,
                );
            }
            let point = encode_cue_point(
                first.sample.pts_ms,
                VIDEO_TRACK_NUMBER,
                front + media.len() as u64,
            );
            put_slice(&mut points, point.as_slice());
            any = true;
        }
        proof {
            assert(cluster.blocks[0] == all[start as int]);
            if keyframe {
                assert(is_video_key(clusters[n].blocks[0]));
            } else {
                assert(!is_video_key(clusters[n].blocks[0]));
                assert(has_cues(clusters, n + 1) == has_cues(clusters, n));
            }
            assert(clusters.skip(n + 1) =~= clusters.skip(n).drop_first());
            assert(clusters_from(all, start as int).drop_first() =~= clusters_from(
                all,
                end as int,
            ));
            n = n + 1;
        }
        put_slice(&mut media, bytes.as_slice());
        start = end;
    }
    proof {
        assert(clusters.skip(n).len() == 0);
        assert(clusters.take(n) =~= clusters);
        assert(all.take(start as int) =~= all);
    }
    if any {
        assert(points.len() == points@.len());
        let header = encode_header(CUES_ID, points.len() as u64);
        proof {
            ebml::element_overhead(CUES_ID, points@);
        }
        put_slice(&mut media, header.as_slice());
        put_slice(&mut media, points.as_slice());
        assert(media@ =~= media_bytes(clusters, front as int));
    } else {
        assert(media@ =~= media_bytes(clusters, front as int));
    }
    media
}

} // verus!
