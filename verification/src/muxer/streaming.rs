//! MP4 writer that hands sample bytes on as they arrive and keeps only what
//! the sample tables need.
//!
//! The file is laid out as `ftyp`, `mdat`, `moov`. The `mdat` header has a
//! fixed length of 16 bytes, so filling in the size at the end moves no
//! sample.

use vstd::prelude::*;
use crate::api::{InputFault, VideoCodec};
use crate::muxer::mp4::{Mp4WriterError, SampleMeta};
use crate::wire::{self, put_be32, put_be64};

verus! {

/// Length of the `mdat` header.
pub const STREAM_MDAT_HEADER_LEN: u64 = 16;

/// The type of the media data box.
pub const MDAT: [u8; 4] = [0x6D, 0x64, 0x61, 0x74];

/// A sample that was handed on, and where it stands in the file.
#[derive(Debug, Clone, Copy, PartialEq, Eq, Structural)]
pub struct StreamEntry {
    pub meta: SampleMeta,
    /// Offset of the first byte in the file.
    pub offset: u64,
}

impl StreamEntry {
    /// The offset behind the last byte.
    pub open spec fn end(self) -> int {
        self.offset + self.meta.size
    }
}

/// The samples of a stream and the positions in its file.
pub struct StreamModel {
    /// Where the `mdat` header stands.
    pub header_pos: u64,
    /// Where the next sample goes.
    pub cursor: u64,
    /// Bytes handed on so far.
    pub bytes_written: u64,
    pub video: Seq<StreamEntry>,
    pub audio: Seq<StreamEntry>,
    pub subtitles: Seq<StreamEntry>,
    pub finished: bool,
}

/// A sum that stops at the largest 64-bit number.
pub open spec fn capped_sum(a: int, b: int) -> int {
    if a + b > u64::MAX {
        u64::MAX as int
    } else {
        a + b
    }
}

/// The bytes that the samples of a track take.
pub open spec fn total_size(entries: Seq<StreamEntry>) -> int
    decreases entries.len(),
{
    if entries.len() == 0 {
        0
    } else {
        total_size(entries.drop_last()) + entries.last().meta.size
    }
}

/// `entries` with the duration of the last one set.
pub open spec fn with_last_duration(
    entries: Seq<StreamEntry>,
    duration: Option<u32>,
) -> Seq<StreamEntry> {
    if entries.len() == 0 {
        entries
    } else {
        entries.update(
            entries.len() - 1,
            StreamEntry {
                meta: SampleMeta { duration, ..entries.last().meta },
                ..entries.last()
            },
        )
    }
}

/// The `mdat` header with a size.
pub open spec fn mdat_header(size: u64) -> Seq<u8> {
    wire::be32(1) + MDAT@ + wire::be64(size)
}

/// A stream without samples behind an `ftyp` box of some bytes. The box and
/// the header behind it are written.
pub open spec fn empty_stream(ftyp_len: nat) -> StreamModel {
    StreamModel {
        header_pos: ftyp_len as u64,
        cursor: (ftyp_len + STREAM_MDAT_HEADER_LEN) as u64,
        bytes_written: (ftyp_len + STREAM_MDAT_HEADER_LEN) as u64,
        video: Seq::empty(),
        audio: Seq::empty(),
        subtitles: Seq::empty(),
        finished: false,
    }
}

impl StreamModel {
    /// What stands in the way of a sample of `len` bytes, if anything.
    pub open spec fn fault(self, len: nat) -> Option<Mp4WriterError> {
        if self.finished {
            Some(Mp4WriterError::AlreadyFinalized)
        } else if len > u32::MAX {
            Some(Mp4WriterError::DurationOverflow)
        } else {
            None
        }
    }

    /// The stream after `len` more bytes.
    pub open spec fn advanced(self, len: nat) -> StreamModel {
        StreamModel {
            cursor: capped_sum(self.cursor as int, len as int) as u64,
            bytes_written: capped_sum(self.bytes_written as int, len as int) as u64,
            ..self
        }
    }

    /// What the table remembers of a video sample that goes to the cursor.
    pub open spec fn video_entry(
        self,
        pts: u64,
        dts: u64,
        len: nat,
        is_keyframe: bool,
    ) -> StreamEntry {
        StreamEntry {
            meta: SampleMeta { pts, dts, size: len as u32, is_keyframe, duration: None },
            offset: self.cursor,
        }
    }

    /// What the table remembers of an audio sample that goes to the cursor.
    pub open spec fn audio_entry(self, pts: u64, len: nat) -> StreamEntry {
        self.video_entry(pts, pts, len, false)
    }

    /// What the table remembers of a subtitle that goes to the cursor.
    pub open spec fn subtitle_entry(self, pts: u64, duration: u32, len: nat) -> StreamEntry {
        StreamEntry {
            meta: SampleMeta {
                pts,
                dts: pts,
                size: len as u32,
                is_keyframe: false,
                duration: Some(duration),
            },
            offset: self.cursor,
        }
    }

    /// The stream once the last video sample has a duration.
    pub open spec fn video_timed(self, duration: Option<u32>) -> StreamModel {
        StreamModel { video: with_last_duration(self.video, duration), ..self }
    }

    /// The stream once the last audio sample has a duration.
    pub open spec fn audio_timed(self, duration: Option<u32>) -> StreamModel {
        StreamModel { audio: with_last_duration(self.audio, duration), ..self }
    }

    /// The stream with a video sample behind the others.
    pub open spec fn with_video(self, entry: StreamEntry) -> StreamModel {
        StreamModel { video: self.video.push(entry), ..self.advanced(entry.meta.size as nat) }
    }

    /// The stream with an audio sample behind the others.
    pub open spec fn with_audio(self, entry: StreamEntry) -> StreamModel {
        StreamModel { audio: self.audio.push(entry), ..self.advanced(entry.meta.size as nat) }
    }

    /// The stream with a subtitle behind the others.
    pub open spec fn with_subtitle(self, entry: StreamEntry) -> StreamModel {
        StreamModel {
            subtitles: self.subtitles.push(entry),
            ..self.advanced(entry.meta.size as nat)
        }
    }

    /// The size of the media data box.
    pub open spec fn mdat_size(self) -> int {
        capped_sum(
            STREAM_MDAT_HEADER_LEN as int,
            capped_sum(
                capped_sum(total_size(self.video), total_size(self.audio)),
                total_size(self.subtitles),
            ),
        )
    }

    /// Whether no two samples of different tracks share a byte, the samples of
    /// a track stand one behind the other, all lie between the header and the
    /// cursor, and together they fill that space.
    pub open spec fn laid_out(self) -> bool {
        self.cursor < u64::MAX ==> {
            let start = self.header_pos + STREAM_MDAT_HEADER_LEN;
            &&& start <= self.cursor
            &&& track_between(self.video, start, self.cursor as int)
            &&& track_between(self.audio, start, self.cursor as int)
            &&& track_between(self.subtitles, start, self.cursor as int)
            &&& tracks_apart(self.video, self.audio)
            &&& tracks_apart(self.video, self.subtitles)
            &&& tracks_apart(self.audio, self.subtitles)
            &&& total_size(self.video) + total_size(self.audio) + total_size(self.subtitles)
                == self.cursor - start
            &&& self.audio.len() == 0 && self.subtitles.len() == 0 ==> back_to_back(
                self.video,
                start,
            )
            &&& self.video.len() == 0 && self.subtitles.len() == 0 ==> back_to_back(
                self.audio,
                start,
            )
        }
    }
}

/// Whether the samples of a track stand one behind the other between two
/// offsets.
pub open spec fn track_between(entries: Seq<StreamEntry>, start: int, end: int) -> bool {
    &&& forall|i: int|
        0 <= i < entries.len() ==> start <= (#[trigger] entries[i]).offset && entries[i].end()
            <= end
    &&& forall|i: int, j: int|
        0 <= i < j < entries.len() ==> (#[trigger] entries[i]).end() <= (
        #[trigger] entries[j]).offset
}

/// Whether no sample of one track shares a byte with a sample of the other.
pub open spec fn tracks_apart(a: Seq<StreamEntry>, b: Seq<StreamEntry>) -> bool {
    forall|i: int, j: int|
        0 <= i < a.len() && 0 <= j < b.len() ==> (#[trigger] a[i]).end() <= (
        #[trigger] b[j]).offset || b[j].end() <= a[i].offset
}

/// Whether each sample starts where the one before it ends.
pub open spec fn back_to_back(entries: Seq<StreamEntry>, start: int) -> bool
    decreases entries.len(),
{
    entries.len() > 0 ==> {
        &&& entries.last().offset == start + total_size(entries.drop_last())
        &&& back_to_back(entries.drop_last(), start)
    }
}

/// A longer duration moves no sample.
proof fn lemma_duration_moves_nothing(entries: Seq<StreamEntry>, duration: Option<u32>, start: int)
    ensures
        total_size(with_last_duration(entries, duration)) == total_size(entries),
        with_last_duration(entries, duration).len() == entries.len(),
        forall|i: int|
            0 <= i < entries.len() ==> (#[trigger] with_last_duration(entries, duration)[i]).offset
                == entries[i].offset && with_last_duration(entries, duration)[i].meta.size
                == entries[i].meta.size,
        back_to_back(with_last_duration(entries, duration), start) == back_to_back(entries, start),
{
    let next = with_last_duration(entries, duration);
    if entries.len() > 0 {
        assert(next.drop_last() =~= entries.drop_last());
    }
}

/// The samples of a stream keep their layout whatever is written to the
/// cursor.
pub proof fn stream_stays_laid_out(stream: StreamModel, entry: StreamEntry)
    requires
        stream.laid_out(),
        entry.offset == stream.cursor,
    ensures
        stream.with_video(entry).laid_out(),
        stream.with_audio(entry).laid_out(),
        stream.with_subtitle(entry).laid_out(),
{
    let video = stream.with_video(entry);
    assert(video.video.drop_last() =~= stream.video);
    let audio = stream.with_audio(entry);
    assert(audio.audio.drop_last() =~= stream.audio);
    let subtitle = stream.with_subtitle(entry);
    assert(subtitle.subtitles.drop_last() =~= stream.subtitles);
    reveal_with_fuel(total_size, 2);
    reveal_with_fuel(back_to_back, 2);
}

/// Setting the duration of the last sample of a track moves no sample.
pub proof fn durations_move_nothing(stream: StreamModel, duration: Option<u32>)
    requires
        stream.laid_out(),
    ensures
        stream.video_timed(duration).laid_out(),
        stream.audio_timed(duration).laid_out(),
{
    let start = stream.header_pos + STREAM_MDAT_HEADER_LEN;
    lemma_duration_moves_nothing(stream.video, duration, start);
    lemma_duration_moves_nothing(stream.audio, duration, start);
    reveal_with_fuel(total_size, 2);
    reveal_with_fuel(back_to_back, 2);
}

/// The size that the `mdat` header ends up with reaches to where `moov`
/// starts.
pub proof fn mdat_ends_at_the_cursor(stream: StreamModel)
    requires
        stream.laid_out(),
        stream.cursor < u64::MAX,
    ensures
        stream.header_pos + stream.mdat_size() == stream.cursor,
{
    lemma_sizes_are_not_negative(stream.video);
    lemma_sizes_are_not_negative(stream.audio);
    lemma_sizes_are_not_negative(stream.subtitles);
}

proof fn lemma_sizes_are_not_negative(entries: Seq<StreamEntry>)
    ensures
        total_size(entries) >= 0,
    decreases entries.len(),
{
    if entries.len() > 0 {
        lemma_sizes_are_not_negative(entries.drop_last());
    }
}

/// What the sample tables of a track are made from.
#[derive(Debug)]
pub struct TablePlan {
    /// The samples, in decode order.
    pub samples: Vec<SampleMeta>,
    /// Offsets of the chunks.
    pub chunk_offsets: Vec<u64>,
    /// Samples in each chunk.
    pub samples_per_chunk: u32,
    /// The distance of the last two samples.
    pub last_delta: Option<u32>,
}

/// The contents of a table plan.
pub struct TableModel {
    pub samples: Seq<SampleMeta>,
    pub chunk_offsets: Seq<u64>,
    pub samples_per_chunk: int,
    pub last_delta: Option<u32>,
}

impl View for TablePlan {
    type V = TableModel;

    open spec fn view(&self) -> TableModel {
        TableModel {
            samples: self.samples@,
            chunk_offsets: self.chunk_offsets@,
            samples_per_chunk: self.samples_per_chunk as int,
            last_delta: self.last_delta,
        }
    }
}

/// An optional plan as its contents.
pub open spec fn plan_of(plan: Option<TablePlan>) -> Option<TableModel> {
    match plan {
        Some(plan) => Some(plan@),
        None => None,
    }
}

/// The samples of a track without their offsets.
pub open spec fn metas(entries: Seq<StreamEntry>) -> Seq<SampleMeta> {
    Seq::new(entries.len(), |i: int| entries[i].meta)
}

/// The offsets of the samples of a track.
pub open spec fn offsets(entries: Seq<StreamEntry>) -> Seq<u64> {
    Seq::new(entries.len(), |i: int| entries[i].offset)
}

/// Tables with one chunk for all samples.
pub open spec fn one_chunk(entries: Seq<StreamEntry>, last_delta: Option<u32>) -> TableModel {
    TableModel {
        samples: metas(entries),
        chunk_offsets: if entries.len() == 0 {
            Seq::empty()
        } else {
            seq![entries[0].offset]
        },
        samples_per_chunk: if entries.len() > u32::MAX {
            u32::MAX as int
        } else {
            entries.len() as int
        },
        last_delta,
    }
}

/// Tables with a chunk for each sample.
pub open spec fn chunk_per_sample(entries: Seq<StreamEntry>, last_delta: Option<u32>) -> TableModel {
    TableModel {
        samples: metas(entries),
        chunk_offsets: offsets(entries),
        samples_per_chunk: 1,
        last_delta,
    }
}

/// What the state of the tracks says at the end of a stream.
#[derive(Debug, Clone, Copy)]
pub struct TrackSummary {
    /// Whether a decoder configuration was found.
    pub has_video_config: bool,
    /// Whether the video track has parameters.
    pub has_video_track: bool,
    pub has_audio_track: bool,
    pub has_subtitle_track: bool,
    /// The distance of the last two samples of each track.
    pub video_delta: Option<u32>,
    pub audio_delta: Option<u32>,
    pub subtitle_delta: Option<u32>,
}

/// What `moov` is made from.
#[derive(Debug)]
pub enum MoovPlan {
    /// A video track, with the tracks beside it.
    Video {
        /// Whether the decoder configuration is the default one.
        default_config: bool,
        video: TablePlan,
        audio: Option<TablePlan>,
        subtitle: Option<TablePlan>,
    },
    /// An audio track alone.
    AudioOnly { audio: TablePlan },
}

/// The contents of a plan for `moov`.
pub enum MoovModel {
    Video {
        default_config: bool,
        video: TableModel,
        audio: Option<TableModel>,
        subtitle: Option<TableModel>,
    },
    AudioOnly { audio: TableModel },
}

impl View for MoovPlan {
    type V = MoovModel;

    open spec fn view(&self) -> MoovModel {
        match self {
            MoovPlan::Video { default_config, video, audio, subtitle } => MoovModel::Video {
                default_config: *default_config,
                video: video@,
                audio: plan_of(*audio),
                subtitle: plan_of(*subtitle),
            },
            MoovPlan::AudioOnly { audio } => MoovModel::AudioOnly { audio: audio@ },
        }
    }
}

/// The last steps of a stream: overwrite the `mdat` header, go to the end of
/// the media data, and write `moov`.
#[derive(Debug)]
pub struct FinishPlan {
    /// Where the header is overwritten.
    pub header_pos: u64,
    /// The header with its size.
    pub header: Vec<u8>,
    /// Where `moov` goes.
    pub end: u64,
    /// What `moov` is made from, or why there is none.
    pub moov: Result<MoovPlan, InputFault>,
}

impl StreamModel {
    /// What `moov` is made from.
    pub open spec fn moov(self, tracks: TrackSummary, codec: Option<VideoCodec>) -> Result<
        MoovModel,
        InputFault,
    > {
        let default_config = !tracks.has_video_config && self.video.len() == 0
            && codec == Some(VideoCodec::H264);
        if tracks.has_video_config || default_config {
            if !tracks.has_video_track {
                Err(InputFault::ConfigWithoutVideoTrack)
            } else if !tracks.has_audio_track && !tracks.has_subtitle_track {
                Ok(
                    MoovModel::Video {
                        default_config,
                        video: one_chunk(self.video, tracks.video_delta),
                        audio: None,
                        subtitle: None,
                    },
                )
            } else {
                Ok(
                    MoovModel::Video {
                        default_config,
                        video: chunk_per_sample(self.video, tracks.video_delta),
                        audio: if tracks.has_audio_track {
                            Some(chunk_per_sample(self.audio, tracks.audio_delta))
                        } else {
                            None
                        },
                        subtitle: if tracks.has_subtitle_track {
                            Some(chunk_per_sample(self.subtitles, tracks.subtitle_delta))
                        } else {
                            None
                        },
                    },
                )
            }
        } else if !tracks.has_audio_track {
            Err(InputFault::NoAudioTrack)
        } else {
            Ok(MoovModel::AudioOnly { audio: one_chunk(self.audio, tracks.audio_delta) })
        }
    }
}

/// The sample data of a single track is one chunk: each sample starts where
/// the sizes of those before it lead.
pub proof fn lone_track_is_one_chunk(stream: StreamModel, k: int)
    requires
        stream.laid_out(),
        stream.cursor < u64::MAX,
    ensures
        stream.audio.len() == 0 && stream.subtitles.len() == 0 && 0 <= k < stream.video.len()
            ==> stream.video[k].offset == stream.video[0].offset + total_size(
            stream.video.take(k),
        ),
        stream.video.len() == 0 && stream.subtitles.len() == 0 && 0 <= k < stream.audio.len()
            ==> stream.audio[k].offset == stream.audio[0].offset + total_size(
            stream.audio.take(k),
        ),
{
    let start = stream.header_pos + STREAM_MDAT_HEADER_LEN;
    if stream.audio.len() == 0 && stream.subtitles.len() == 0 && 0 <= k < stream.video.len() {
        lemma_back_to_back_at(stream.video, start, k);
        lemma_back_to_back_at(stream.video, start, 0);
        assert(stream.video.take(0) =~= Seq::empty());
    }
    if stream.video.len() == 0 && stream.subtitles.len() == 0 && 0 <= k < stream.audio.len() {
        lemma_back_to_back_at(stream.audio, start, k);
        lemma_back_to_back_at(stream.audio, start, 0);
        assert(stream.audio.take(0) =~= Seq::empty());
    }
}

proof fn lemma_back_to_back_at(entries: Seq<StreamEntry>, start: int, k: int)
    requires
        back_to_back(entries, start),
        0 <= k < entries.len(),
    ensures
        entries[k].offset == start + total_size(entries.take(k)),
    decreases entries.len(),
{
    if k == entries.len() - 1 {
        assert(entries.take(k) =~= entries.drop_last());
    } else {
        lemma_back_to_back_at(entries.drop_last(), start, k);
        assert(entries.drop_last().take(k) =~= entries.take(k));
    }
}

/// Whether a table says of its sample `i` what was handed over: the times, the
/// number of bytes and whether it is a keyframe.
pub open spec fn tells_of(
    table: TableModel,
    i: int,
    pts: u64,
    dts: u64,
    len: nat,
    is_keyframe: bool,
) -> bool {
    &&& 0 <= i < table.samples.len()
    &&& table.samples[i].pts == pts
    &&& table.samples[i].dts == dts
    &&& table.samples[i].size == len
    &&& table.samples[i].is_keyframe == is_keyframe
}

/// Where sample `i` of a table starts: in a chunk of its own, or behind the
/// others of the one chunk.
pub open spec fn place_in(table: TableModel, i: int) -> int {
    if table.samples_per_chunk == 1 && i < table.chunk_offsets.len() {
        table.chunk_offsets[i] as int
    } else {
        table.chunk_offsets[0] + sizes_before(table.samples, i)
    }
}

/// The bytes of the first `n` samples.
pub open spec fn sizes_before(samples: Seq<SampleMeta>, n: int) -> int
    decreases n,
{
    if n <= 0 {
        0
    } else {
        sizes_before(samples, n - 1) + samples[n - 1].size
    }
}

/// The video table of what `moov` is made from.
pub open spec fn video_table(moov: MoovModel) -> Option<TableModel> {
    match moov {
        MoovModel::Video { video, .. } => Some(video),
        MoovModel::AudioOnly { .. } => None,
    }
}

/// The audio table of what `moov` is made from.
pub open spec fn audio_table(moov: MoovModel) -> Option<TableModel> {
    match moov {
        MoovModel::Video { audio, .. } => audio,
        MoovModel::AudioOnly { audio } => Some(audio),
    }
}

/// The subtitle table of what `moov` is made from.
pub open spec fn subtitle_table(moov: MoovModel) -> Option<TableModel> {
    match moov {
        MoovModel::Video { subtitle, .. } => subtitle,
        MoovModel::AudioOnly { .. } => None,
    }
}

/// A video sample keeps its times: once it is stored, the tables say of it the
/// presentation time, the decode time, the number of bytes and the keyframe
/// flag that it was written with, and it is the last of its track. What they
/// say of the samples before it stays, but for the duration of the last one,
/// which is now known.
pub proof fn video_samples_keep_their_times(
    stream: StreamModel,
    pts: u64,
    dts: u64,
    len: nat,
    is_keyframe: bool,
    last_delta: Option<u32>,
    tracks: TrackSummary,
    codec: Option<VideoCodec>,
)
    requires
        stream.fault(len) is None,
    ensures
        ({
            let n = stream.video.len() as int;
            let entry = stream.video_entry(pts, dts, len, is_keyframe);
            let after = stream.video_timed(last_delta).with_video(entry);
            &&& entry.meta.pts == pts && entry.meta.dts == dts && entry.meta.size == len
            &&& entry.meta.is_keyframe == is_keyframe && entry.meta.duration is None
            &&& entry.offset == stream.cursor
            &&& after.moov(tracks, codec) matches Ok(moov) ==> (video_table(moov) matches Some(
                table,
            ) ==> {
                &&& table.samples.len() == n + 1
                &&& tells_of(table, n, pts, dts, len, is_keyframe)
                &&& forall|i: int|
                    0 <= i < n ==> #[trigger] tells_of(
                        table,
                        i,
                        stream.video[i].meta.pts,
                        stream.video[i].meta.dts,
                        stream.video[i].meta.size as nat,
                        stream.video[i].meta.is_keyframe,
                    )
                &&& forall|i: int|
                    0 <= i < n - 1 ==> (#[trigger] table.samples[i]).duration
                        == stream.video[i].meta.duration
                &&& n > 0 ==> table.samples[n - 1].duration == last_delta
            })
            &&& after.audio == stream.audio && after.subtitles == stream.subtitles
        }),
{
}

/// An audio sample keeps its time, as a video sample does.
pub proof fn audio_samples_keep_their_times(
    stream: StreamModel,
    pts: u64,
    len: nat,
    last_delta: Option<u32>,
    tracks: TrackSummary,
    codec: Option<VideoCodec>,
)
    requires
        stream.fault(len) is None,
    ensures
        ({
            let n = stream.audio.len() as int;
            let entry = stream.audio_entry(pts, len);
            let after = stream.audio_timed(last_delta).with_audio(entry);
            &&& entry.meta.pts == pts && entry.meta.dts == pts && entry.meta.size == len
            &&& entry.meta.duration is None && entry.offset == stream.cursor
            &&& after.moov(tracks, codec) matches Ok(moov) ==> (audio_table(moov) matches Some(
                table,
            ) ==> {
                &&& table.samples.len() == n + 1
                &&& tells_of(table, n, pts, pts, len, false)
                &&& forall|i: int|
                    0 <= i < n ==> #[trigger] tells_of(
                        table,
                        i,
                        stream.audio[i].meta.pts,
                        stream.audio[i].meta.dts,
                        stream.audio[i].meta.size as nat,
                        stream.audio[i].meta.is_keyframe,
                    )
                &&& n > 0 ==> table.samples[n - 1].duration == last_delta
            })
            &&& after.video == stream.video && after.subtitles == stream.subtitles
        }),
{
}

/// A subtitle keeps its time and its own duration.
pub proof fn subtitles_keep_their_times(
    stream: StreamModel,
    pts: u64,
    duration: u32,
    len: nat,
    tracks: TrackSummary,
    codec: Option<VideoCodec>,
)
    requires
        stream.fault(len) is None,
    ensures
        ({
            let n = stream.subtitles.len() as int;
            let entry = stream.subtitle_entry(pts, duration, len);
            let after = stream.with_subtitle(entry);
            &&& entry.meta.pts == pts && entry.meta.dts == pts && entry.meta.size == len
            &&& entry.meta.duration == Some(duration) && entry.offset == stream.cursor
            &&& after.moov(tracks, codec) matches Ok(moov) ==> (subtitle_table(moov) matches Some(
                table,
            ) ==> {
                &&& table.samples.len() == n + 1
                &&& tells_of(table, n, pts, pts, len, false)
                &&& table.samples[n].duration == Some(duration)
                &&& forall|i: int|
                    0 <= i < n ==> (#[trigger] table.samples[i]) == stream.subtitles[i].meta
            })
            &&& after.video == stream.video && after.audio == stream.audio
        }),
{
}

/// The tables lead to each sample: by them sample `i` starts at the offset at
/// which it was written, and no tables are left out that the tracks ask for.
pub proof fn tables_lead_to_the_samples(
    stream: StreamModel,
    tracks: TrackSummary,
    codec: Option<VideoCodec>,
    i: int,
)
    requires
        stream.laid_out(),
        stream.cursor < u64::MAX,
        !tracks.has_audio_track ==> stream.audio.len() == 0,
        !tracks.has_subtitle_track ==> stream.subtitles.len() == 0,
        tracks.has_video_config || stream.video.len() == 0,
        tracks.has_subtitle_track ==> tracks.has_video_track,
        stream.video.len() <= u32::MAX && stream.audio.len() <= u32::MAX,
        stream.moov(tracks, codec) is Ok,
        stream.moov(tracks, codec)->Ok_0 is AudioOnly ==> stream.subtitles.len() == 0,
    ensures
        ({
            let moov = stream.moov(tracks, codec)->Ok_0;
            &&& tracks.has_audio_track ==> audio_table(moov) is Some
            &&& video_table(moov) matches Some(table) ==> (0 <= i < stream.video.len()
                ==> place_in(table, i) == stream.video[i].offset)
            &&& audio_table(moov) matches Some(table) ==> (0 <= i < stream.audio.len()
                ==> place_in(table, i) == stream.audio[i].offset)
            &&& subtitle_table(moov) matches Some(table) ==> (0 <= i < stream.subtitles.len()
                ==> place_in(table, i) == stream.subtitles[i].offset)
        }),
{
    lone_track_is_one_chunk(stream, i);
    if 0 <= i < stream.video.len() {
        lemma_sizes_before(stream.video, i);
    }
    if 0 <= i < stream.audio.len() {
        lemma_sizes_before(stream.audio, i);
    }
}

proof fn lemma_sizes_before(entries: Seq<StreamEntry>, n: int)
    requires
        0 <= n <= entries.len(),
    ensures
        sizes_before(metas(entries), n) == total_size(entries.take(n)),
    decreases n,
{
    if n > 0 {
        lemma_sizes_before(entries, n - 1);
        assert(entries.take(n).drop_last() =~= entries.take(n - 1));
    }
}

/// The `mdat` header in bytes: a 32-bit size of 1, which announces a 64-bit
/// one, the type, and the size.
pub proof fn mdat_header_bytes(size: u64)
    ensures
        mdat_header(size).len() == 16,
        mdat_header(size).take(8) == seq![0u8, 0, 0, 1, 0x6D, 0x64, 0x61, 0x74],
        wire::be32_at(mdat_header(size), 8) * 0x1_0000_0000 + wire::be32_at(mdat_header(size), 12)
            == size,
{
    let header = mdat_header(size);
    let high = (size / 0x1_0000_0000) as u32;
    let low = (size % 0x1_0000_0000) as u32;
    assert(header.take(8) =~= seq![0u8, 0, 0, 1, 0x6D, 0x64, 0x61, 0x74]);
    wire::be32_round_trip(high, header.take(8), wire::be32(low));
    wire::be32_round_trip(low, header.take(12), Seq::empty());
    assert(header =~= header.take(8) + wire::be32(high) + wire::be32(low));
    assert(header =~= header.take(12) + wire::be32(low) + Seq::empty());
}

/// Streaming MP4 writer.
#[derive(Debug)]
pub struct SeekableStreamingWriter {
    header_pos: u64,
    cursor: u64,
    bytes_written: u64,
    video_entries: Vec<StreamEntry>,
    audio_entries: Vec<StreamEntry>,
    subtitle_entries: Vec<StreamEntry>,
    finished: bool,
}

impl View for SeekableStreamingWriter {
    type V = StreamModel;

    closed spec fn view(&self) -> StreamModel {
        StreamModel {
            header_pos: self.header_pos,
            cursor: self.cursor,
            bytes_written: self.bytes_written,
            video: self.video_entries@,
            audio: self.audio_entries@,
            subtitles: self.subtitle_entries@,
            finished: self.finished,
        }
    }
}

/// The `mdat` header with a size.
fn write_mdat_header(out: &mut Vec<u8>, size: u64)
    ensures
        final(out)@ == old(out)@ + mdat_header(size),
{
    put_be32(out, 1);
    let ghost before = out@;
    out.push(0x6D);
    out.push(0x64);
    out.push(0x61);
    out.push(0x74);
    assert(out@ =~= before + MDAT@);
    put_be64(out, size);
    assert(out@ =~= old(out)@ + mdat_header(size));
}

/// Sets the duration of the last sample of a track.
fn set_last_duration(entries: &mut Vec<StreamEntry>, duration: Option<u32>)
    ensures
        final(entries)@ == with_last_duration(old(entries)@, duration),
{
    match entries.pop() {
        None => {
            assert(entries@ =~= old(entries)@);
        },
        Some(mut last) => {
            last.meta.duration = duration;
            entries.push(last);
            assert(entries@ =~= with_last_duration(old(entries)@, duration));
        },
    }
}

/// The bytes that the samples of a track take, on top of others.
fn add_sizes(start: u64, entries: &Vec<StreamEntry>) -> (total: u64)
    ensures
        total == capped_sum(start as int, total_size(entries@)),
{
    let mut total: u64 = start;
    let mut i: usize = 0;
    assert(entries@.take(0) =~= Seq::empty());
    while i < entries.len()
        invariant
            i <= entries@.len(),
            total == capped_sum(start as int, total_size(entries@.take(i as int))),
            total_size(entries@.take(i as int)) >= 0,
        decreases entries@.len() - i,
    {
        total = total.saturating_add(entries[i].meta.size as u64);
        i = i + 1;
        assert(entries@.take(i as int).drop_last() =~= entries@.take(i - 1));
    }
    assert(entries@.take(i as int) =~= entries@);
    total
}

/// The samples of a track without their offsets.
fn collect_metas(entries: &Vec<StreamEntry>) -> (all: Vec<SampleMeta>)
    ensures
        all@ == metas(entries@),
{
    let mut all: Vec<SampleMeta> = Vec::new();
    let mut i: usize = 0;
    while i < entries.len()
        invariant
            i <= entries@.len(),
            all@ =~= metas(entries@).take(i as int),
        decreases entries@.len() - i,
    {
        all.push(entries[i].meta);
        i = i + 1;
    }
    assert(all@ =~= metas(entries@));
    all
}

/// The offsets of the samples of a track.
fn collect_offsets(entries: &Vec<StreamEntry>) -> (all: Vec<u64>)
    ensures
        all@ == offsets(entries@),
{
    let mut all: Vec<u64> = Vec::new();
    let mut i: usize = 0;
    while i < entries.len()
        invariant
            i <= entries@.len(),
            all@ =~= offsets(entries@).take(i as int),
        decreases entries@.len() - i,
    {
        all.push(entries[i].offset);
        i = i + 1;
    }
    assert(all@ =~= offsets(entries@));
    all
}

/// Tables with one chunk for all samples.
fn plan_one_chunk(entries: &Vec<StreamEntry>, last_delta: Option<u32>) -> (plan: TablePlan)
    ensures
        plan@ == one_chunk(entries@, last_delta),
{
    let mut chunk_offsets: Vec<u64> = Vec::new();
    if entries.len() > 0 {
        chunk_offsets.push(entries[0].offset);
    }
    let samples_per_chunk: u32 = if entries.len() > u32::MAX as usize {
        u32::MAX
    } else {
        entries.len() as u32
    };
    let plan = TablePlan {
        samples: collect_metas(entries),
        chunk_offsets,
        samples_per_chunk,
        last_delta,
    };
    assert(plan@.chunk_offsets =~= one_chunk(entries@, last_delta).chunk_offsets);
    plan
}

/// Tables with a chunk for each sample.
fn plan_chunk_per_sample(entries: &Vec<StreamEntry>, last_delta: Option<u32>) -> (plan: TablePlan)
    ensures
        plan@ == chunk_per_sample(entries@, last_delta),
{
    TablePlan {
        samples: collect_metas(entries),
        chunk_offsets: collect_offsets(entries),
        samples_per_chunk: 1,
        last_delta,
    }
}

impl SeekableStreamingWriter {
    /// A stream that starts with the given `ftyp` box, and the bytes to write
    /// first: that box and an `mdat` header that reaches to the end of the
    /// file.
    pub fn begin(ftyp: &[u8]) -> (begun: (Self, Vec<u8>))
        requires
            ftyp@.len() + STREAM_MDAT_HEADER_LEN <= u64::MAX,
        ensures
            begun.0@ == empty_stream(ftyp@.len()),
            begun.0@.laid_out(),
            begun.1@ == ftyp@ + mdat_header(0),
    {
        let mut head: Vec<u8> = vstd::slice::slice_to_vec(ftyp);
        let header_pos: u64 = ftyp.len() as u64;
        write_mdat_header(&mut head, 0);
        let writer = SeekableStreamingWriter {
            header_pos,
            cursor: header_pos + STREAM_MDAT_HEADER_LEN,
            bytes_written: header_pos + STREAM_MDAT_HEADER_LEN,
            video_entries: Vec::new(),
            audio_entries: Vec::new(),
            subtitle_entries: Vec::new(),
            finished: false,
        };
        (writer, head)
    }

    fn advance(&mut self, len: u32)
        ensures
            final(self)@ == old(self)@.advanced(len as nat),
    {
        self.cursor = self.cursor.saturating_add(len as u64);
        self.bytes_written = self.bytes_written.saturating_add(len as u64);
    }

    /// Why a sample of `len` bytes is not taken, if so.
    fn check(&self, len: usize) -> (result: Result<u32, Mp4WriterError>)
        ensures
            match result {
                Ok(size) => self@.fault(len as nat) is None && size == len,
                Err(error) => self@.fault(len as nat) == Some(error),
            },
    {
        if self.finished {
            return Err(Mp4WriterError::AlreadyFinalized);
        }
        if len as u64 > u32::MAX as u64 {
            return Err(Mp4WriterError::DurationOverflow);
        }
        Ok(len as u32)
    }

    /// Prepares a video sample, in decode order. `converted` is the sample as
    /// the file stores it, and `last_delta` its distance from the sample
    /// before. The sample is to be written at the offset of the entry, which is
    /// then handed to [`SeekableStreamingWriter::video_stored`].
    pub fn write_video_sample_with_dts(
        &mut self,
        pts: u64,
        dts: u64,
        converted: &[u8],
        is_keyframe: bool,
        last_delta: Option<u32>,
    ) -> (result: Result<StreamEntry, Mp4WriterError>)
        ensures
            match result {
                Ok(entry) => old(self)@.fault(converted@.len()) is None && entry
                    == old(self)@.video_entry(pts, dts, converted@.len(), is_keyframe)
                    && entry.meta.pts == pts && entry.meta.dts == dts && entry.meta.size
                    == converted@.len() && entry.meta.is_keyframe == is_keyframe && entry.offset
                    == old(self)@.cursor && final(self)@ == old(self)@.video_timed(last_delta),
                Err(error) => old(self)@.fault(converted@.len()) == Some(error) && final(self)@
                    == old(self)@,
            },
            old(self)@.laid_out() ==> final(self)@.laid_out(),
    {
        let size: u32 = match self.check(converted.len()) {
            Ok(size) => size,
            Err(error) => return Err(error),
        };
        proof {
            if self@.laid_out() {
                durations_move_nothing(self@, last_delta);
            }
        }
        set_last_duration(&mut self.video_entries, last_delta);
        Ok(
            StreamEntry {
                meta: SampleMeta { pts, dts, size, is_keyframe, duration: None },
                offset: self.cursor,
            },
        )
    }

    /// Prepares a video sample that is shown when it is decoded.
    pub fn write_video_sample(
        &mut self,
        pts: u64,
        converted: &[u8],
        is_keyframe: bool,
        last_delta: Option<u32>,
    ) -> (result: Result<StreamEntry, Mp4WriterError>)
        ensures
            match result {
                Ok(entry) => old(self)@.fault(converted@.len()) is None && entry
                    == old(self)@.video_entry(pts, pts, converted@.len(), is_keyframe)
                    && entry.meta.pts == pts && entry.meta.dts == pts && entry.meta.size
                    == converted@.len() && entry.meta.is_keyframe == is_keyframe && entry.offset
                    == old(self)@.cursor && final(self)@ == old(self)@.video_timed(last_delta),
                Err(error) => old(self)@.fault(converted@.len()) == Some(error) && final(self)@
                    == old(self)@,
            },
            old(self)@.laid_out() ==> final(self)@.laid_out(),
    {
        self.write_video_sample_with_dts(pts, pts, converted, is_keyframe, last_delta)
    }

    /// Takes a video sample that has been written.
    pub fn video_stored(&mut self, entry: StreamEntry)
        ensures
            final(self)@ == old(self)@.with_video(entry),
            old(self)@.laid_out() && entry.offset == old(self)@.cursor ==> final(self)@.laid_out(),
            final(self)@.video.len() <= u64::MAX,
    {
        proof {
            if self@.laid_out() && entry.offset == self@.cursor {
                stream_stays_laid_out(self@, entry);
            }
        }
        self.advance(entry.meta.size);
        self.video_entries.push(entry);
        assert(self.video_entries.len() == self.video_entries@.len());
    }

    /// Prepares an audio sample. It is to be written at the offset of the
    /// entry, which is then handed to [`SeekableStreamingWriter::audio_stored`].
    pub fn write_audio_sample(&mut self, pts: u64, converted: &[u8], last_delta: Option<u32>) -> (
        result: Result<StreamEntry, Mp4WriterError>)
        ensures
            match result {
                Ok(entry) => old(self)@.fault(converted@.len()) is None && entry
                    == old(self)@.audio_entry(pts, converted@.len()) && entry.meta.pts == pts
                    && entry.meta.dts == pts && entry.meta.size == converted@.len()
                    && entry.offset == old(self)@.cursor && final(self)@
                    == old(self)@.audio_timed(last_delta),
                Err(error) => old(self)@.fault(converted@.len()) == Some(error) && final(self)@
                    == old(self)@,
            },
            old(self)@.laid_out() ==> final(self)@.laid_out(),
    {
        let size: u32 = match self.check(converted.len()) {
            Ok(size) => size,
            Err(error) => return Err(error),
        };
        proof {
            if self@.laid_out() {
                durations_move_nothing(self@, last_delta);
            }
        }
        set_last_duration(&mut self.audio_entries, last_delta);
        Ok(
            StreamEntry {
                meta: SampleMeta { pts, dts: pts, size, is_keyframe: false, duration: None },
                offset: self.cursor,
            },
        )
    }

    /// Takes an audio sample that has been written.
    pub fn audio_stored(&mut self, entry: StreamEntry)
        ensures
            final(self)@ == old(self)@.with_audio(entry),
            old(self)@.laid_out() && entry.offset == old(self)@.cursor ==> final(self)@.laid_out(),
            final(self)@.audio.len() <= u64::MAX,
    {
        proof {
            if self@.laid_out() && entry.offset == self@.cursor {
                stream_stays_laid_out(self@, entry);
            }
        }
        self.advance(entry.meta.size);
        self.audio_entries.push(entry);
        assert(self.audio_entries.len() == self.audio_entries@.len());
    }

    /// Prepares a subtitle, which has a duration of its own. It is to be
    /// written at the offset of the entry, which is then handed to
    /// [`SeekableStreamingWriter::subtitle_stored`].
    pub fn write_subtitle_sample(&self, pts: u64, duration: u32, converted: &[u8]) -> (result:
        Result<StreamEntry, Mp4WriterError>)
        ensures
            match result {
                Ok(entry) => self@.fault(converted@.len()) is None && entry
                    == self@.subtitle_entry(pts, duration, converted@.len()) && entry.meta.pts
                    == pts && entry.meta.dts == pts && entry.meta.size == converted@.len()
                    && entry.meta.duration == Some(duration) && entry.offset == self@.cursor,
                Err(error) => self@.fault(converted@.len()) == Some(error),
            },
    {
        let size: u32 = match self.check(converted.len()) {
            Ok(size) => size,
            Err(error) => return Err(error),
        };
        Ok(
            StreamEntry {
                meta: SampleMeta {
                    pts,
                    dts: pts,
                    size,
                    is_keyframe: false,
                    duration: Some(duration),
                },
                offset: self.cursor,
            },
        )
    }

    /// Takes a subtitle that has been written.
    pub fn subtitle_stored(&mut self, entry: StreamEntry)
        ensures
            final(self)@ == old(self)@.with_subtitle(entry),
            old(self)@.laid_out() && entry.offset == old(self)@.cursor ==> final(self)@.laid_out(),
            final(self)@.subtitles.len() <= u64::MAX,
    {
        proof {
            if self@.laid_out() && entry.offset == self@.cursor {
                stream_stays_laid_out(self@, entry);
            }
        }
        self.advance(entry.meta.size);
        self.subtitle_entries.push(entry);
        assert(self.subtitle_entries.len() == self.subtitle_entries@.len());
    }

    /// Sets the duration of the last video sample.
    pub fn set_last_video_duration(&mut self, duration: u32)
        ensures
            final(self)@ == old(self)@.video_timed(Some(duration)),
            old(self)@.laid_out() ==> final(self)@.laid_out(),
    {
        proof {
            if self@.laid_out() {
                durations_move_nothing(self@, Some(duration));
            }
        }
        set_last_duration(&mut self.video_entries, Some(duration));
    }

    /// Sets the duration of the last audio sample.
    pub fn set_last_audio_duration(&mut self, duration: u32)
        ensures
            final(self)@ == old(self)@.audio_timed(Some(duration)),
            old(self)@.laid_out() ==> final(self)@.laid_out(),
    {
        proof {
            if self@.laid_out() {
                durations_move_nothing(self@, Some(duration));
            }
        }
        set_last_duration(&mut self.audio_entries, Some(duration));
    }

    /// What `moov` is made from.
    fn plan_moov(&self, tracks: TrackSummary, codec: Option<VideoCodec>) -> (plan: Result<
        MoovPlan,
        InputFault,
    >)
        ensures
            match plan {
                Ok(plan) => self@.moov(tracks, codec) == Ok::<MoovModel, InputFault>(plan@),
                Err(fault) => self@.moov(tracks, codec) == Err::<MoovModel, InputFault>(fault),
            },
    {
        let is_h264: bool = match codec {
            Some(VideoCodec::H264) => true,
            _ => false,
        };
        let default_config: bool = !tracks.has_video_config && self.video_entries.len() == 0
            && is_h264;
        if !tracks.has_video_config && !default_config {
            if !tracks.has_audio_track {
                return Err(InputFault::NoAudioTrack);
            }
            return Ok(
                MoovPlan::AudioOnly {
                    audio: plan_one_chunk(&self.audio_entries, tracks.audio_delta),
                },
            );
        }
        if !tracks.has_video_track {
            return Err(InputFault::ConfigWithoutVideoTrack);
        }
        if !tracks.has_audio_track && !tracks.has_subtitle_track {
            return Ok(
                MoovPlan::Video {
                    default_config,
                    video: plan_one_chunk(&self.video_entries, tracks.video_delta),
                    audio: None,
                    subtitle: None,
                },
            );
        }
        let audio: Option<TablePlan> = if tracks.has_audio_track {
            Some(plan_chunk_per_sample(&self.audio_entries, tracks.audio_delta))
        } else {
            None
        };
        let subtitle: Option<TablePlan> = if tracks.has_subtitle_track {
            Some(plan_chunk_per_sample(&self.subtitle_entries, tracks.subtitle_delta))
        } else {
            None
        };
        Ok(
            MoovPlan::Video {
                default_config,
                video: plan_chunk_per_sample(&self.video_entries, tracks.video_delta),
                audio,
                subtitle,
            },
        )
    }

    /// Ends the stream: what is left to write, and where.
    pub fn finish(&mut self, tracks: TrackSummary, codec: Option<VideoCodec>) -> (result: Result<
        FinishPlan,
        InputFault,
    >)
        ensures
            match result {
                Ok(plan) => {
                    &&& !old(self)@.finished
                    &&& plan.header_pos == old(self)@.header_pos
                    &&& plan.header@ == mdat_header(old(self)@.mdat_size() as u64)
                    &&& plan.end == old(self)@.cursor
                    &&& match plan.moov {
                        Ok(moov) => old(self)@.moov(tracks, codec) == Ok::<MoovModel, InputFault>(
                            moov@,
                        ),
                        Err(fault) => old(self)@.moov(tracks, codec) == Err::<
                            MoovModel,
                            InputFault,
                        >(fault),
                    }
                    &&& final(self)@ == (StreamModel { finished: true, ..old(self)@ })
                },
                Err(fault) => old(self)@.finished && fault == InputFault::StreamingFinished
                    && final(self)@ == old(self)@,
            },
    {
        if self.finished {
            return Err(InputFault::StreamingFinished);
        }
        let payload: u64 = add_sizes(
            add_sizes(add_sizes(0, &self.video_entries), &self.audio_entries),
            &self.subtitle_entries,
        );
        proof {
            lemma_sizes_are_not_negative(self@.video);
            lemma_sizes_are_not_negative(self@.audio);
            lemma_sizes_are_not_negative(self@.subtitles);
        }
        let mut header: Vec<u8> = Vec::new();
        write_mdat_header(&mut header, STREAM_MDAT_HEADER_LEN.saturating_add(payload));
        assert(header@ =~= mdat_header(self@.mdat_size() as u64));
        let moov: Result<MoovPlan, InputFault> = self.plan_moov(tracks, codec);
        self.finished = true;
        Ok(FinishPlan { header_pos: self.header_pos, header, end: self.cursor, moov })
    }

    /// Counts a `moov` box of `len` bytes; the number of bytes of the file.
    pub fn moov_written(&mut self, len: u64) -> (bytes: u64)
        ensures
            bytes == capped_sum(old(self)@.bytes_written as int, len as int),
            final(self)@ == (StreamModel { bytes_written: bytes, ..old(self)@ }),
    {
        self.bytes_written = self.bytes_written.saturating_add(len);
        self.bytes_written
    }

    /// Whether the stream has ended.
    pub fn is_finished(&self) -> (yes: bool)
        ensures
            yes == self@.finished,
    {
        self.finished
    }

    /// Bytes handed on so far.
    pub fn bytes_written(&self) -> (bytes: u64)
        ensures
            bytes == self@.bytes_written,
    {
        self.bytes_written
    }
}

/// Which index a stream gets. One with video, where a configuration came with
/// the frames, or where there is no frame and the codec is H.264, for which a
/// default stands in; one of the audio alone elsewhere. With a second track each
/// sample is a chunk, alone all samples are one.
pub proof fn indexes_follow_the_tracks(
    stream: StreamModel,
    tracks: TrackSummary,
    codec: Option<VideoCodec>,
)
    ensures
        ({
            let configured = tracks.has_video_config || (stream.video.len() == 0 && codec == Some(
                VideoCodec::H264,
            ));
            &&& stream.moov(tracks, codec) == Err::<MoovModel, InputFault>(
                InputFault::ConfigWithoutVideoTrack,
            ) <==> configured && !tracks.has_video_track
            &&& stream.moov(tracks, codec) == Err::<MoovModel, InputFault>(InputFault::NoAudioTrack)
                <==> !configured && !tracks.has_audio_track
            &&& configured && tracks.has_video_track ==> (stream.moov(tracks, codec) matches Ok(
                MoovModel::Video { .. },
            ))
            &&& !configured && tracks.has_audio_track ==> (stream.moov(tracks, codec) matches Ok(
                MoovModel::AudioOnly { .. },
            ))
            &&& stream.moov(tracks, codec) matches Ok(
                MoovModel::Video { default_config, video, audio, subtitle },
            ) ==> {
                &&& default_config == !tracks.has_video_config
                &&& audio is Some <==> tracks.has_audio_track
                &&& subtitle is Some <==> tracks.has_subtitle_track
                &&& video.samples.len() == stream.video.len()
                &&& video.last_delta == tracks.video_delta
                &&& tracks.has_audio_track || tracks.has_subtitle_track ==> video.samples_per_chunk
                    == 1 && video.chunk_offsets.len() == stream.video.len()
                &&& !tracks.has_audio_track && !tracks.has_subtitle_track && 0 < stream.video.len()
                    <= u32::MAX ==> video.samples_per_chunk == stream.video.len()
                    && video.chunk_offsets == seq![stream.video[0].offset]
                &&& audio matches Some(table) ==> table.samples_per_chunk == 1
                    && table.samples.len() == stream.audio.len() && table.last_delta
                    == tracks.audio_delta
                &&& subtitle matches Some(table) ==> table.samples_per_chunk == 1
                    && table.samples.len() == stream.subtitles.len() && table.last_delta
                    == tracks.subtitle_delta
            }
            &&& stream.moov(tracks, codec) matches Ok(MoovModel::AudioOnly { audio }) ==> {
                &&& audio.samples.len() == stream.audio.len()
                &&& audio.last_delta == tracks.audio_delta
                &&& 0 < stream.audio.len() <= u32::MAX ==> audio.samples_per_chunk
                    == stream.audio.len() && audio.chunk_offsets == seq![stream.audio[0].offset]
            }
        }),
{
}

} // verus!
