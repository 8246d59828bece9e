//! Inspection of a Matroska file, read by the `mkv_element` crate.

use mkv_element::io::blocking_impl::ReadFrom;
use mkv_element::prelude::{Ebml, Segment};
use vstd::prelude::*;
use vstd::string::StringExecFns;
use crate::text::{self, push_decimal};
use crate::tool::nesting::{self, make_lone, make_shallow, Piece, PieceModel, MAX_LEVELS};

verus! {

/// A track as the file describes it.
#[derive(Debug)]
pub struct TrackReport {
    pub number: u64,
    /// The number of the kind of the track.
    pub kind: u64,
    pub codec: String,
    pub language: String,
    /// Width and height in pixels.
    pub size: Option<(u64, u64)>,
    /// The bits of the sample rate, a double-precision number, and the number
    /// of channels.
    pub sound: Option<(u64, u64)>,
}

/// The contents of a track description.
pub struct TrackReportModel {
    pub number: u64,
    pub kind: u64,
    pub codec: Seq<char>,
    pub language: Seq<char>,
    pub size: Option<(u64, u64)>,
    pub sound: Option<(u64, u64)>,
}

impl View for TrackReport {
    type V = TrackReportModel;

    open spec fn view(&self) -> TrackReportModel {
        TrackReportModel {
            number: self.number,
            kind: self.kind,
            codec: self.codec@,
            language: self.language@,
            size: self.size,
            sound: self.sound,
        }
    }
}

impl TrackReport {
    /// A track from its parts.
    pub fn new(
        number: u64,
        kind: u64,
        codec: String,
        language: String,
        size: Option<(u64, u64)>,
        sound: Option<(u64, u64)>,
    ) -> (track: Self)
        ensures
            track == (TrackReport { number, kind, codec, language, size, sound }),
    {
        TrackReport { number, kind, codec, language, size, sound }
    }
}

/// The segment of a file.
#[derive(Debug)]
pub struct SegmentReport {
    pub title: Option<String>,
    /// The bits of the duration in milliseconds, a double-precision number.
    pub duration: Option<u64>,
    pub tracks: Vec<TrackReport>,
    pub clusters: usize,
    /// The number of cue points, if there are cues.
    pub cues: Option<usize>,
}

/// The contents of a segment.
pub struct SegmentModel {
    pub title: Option<Seq<char>>,
    pub duration: Option<u64>,
    pub tracks: Seq<TrackReportModel>,
    pub clusters: usize,
    pub cues: Option<usize>,
}

/// The bits of a double-precision number. Those of a value that is no number
/// are left open.
pub open spec fn number_bits(bits: u64) -> Option<u64> {
    if bits % 0x8000_0000_0000_0000 > 0x7FF0_0000_0000_0000 {
        None
    } else {
        Some(bits)
    }
}

/// What a file says of a track.
pub struct TrackFacts {
    pub number: u64,
    pub kind: u64,
    pub codec: Seq<char>,
    pub language: Seq<char>,
    pub size: Option<(u64, u64)>,
    /// The bits of the sample rate, if it is a number, and the number of
    /// channels.
    pub sound: Option<(Option<u64>, u64)>,
}

/// What a file says of a segment.
pub struct SegmentFacts {
    pub title: Option<Seq<char>>,
    /// The duration, and its bits if it is a number.
    pub duration: Option<Option<u64>>,
    pub tracks: Seq<TrackFacts>,
    pub clusters: usize,
    pub cues: Option<usize>,
}

impl TrackReportModel {
    /// The track, but for a sample rate that is no number.
    pub open spec fn facts(self) -> TrackFacts {
        TrackFacts {
            number: self.number,
            kind: self.kind,
            codec: self.codec,
            language: self.language,
            size: self.size,
            sound: match self.sound {
                Some((rate, channels)) => Some((number_bits(rate), channels)),
                None => None,
            },
        }
    }
}

impl SegmentModel {
    /// The segment, but for what is no number.
    pub open spec fn facts(self) -> SegmentFacts {
        SegmentFacts {
            title: self.title,
            duration: match self.duration {
                Some(bits) => Some(number_bits(bits)),
                None => None,
            },
            tracks: Seq::new(self.tracks.len(), |i: int| self.tracks[i].facts()),
            clusters: self.clusters,
            cues: self.cues,
        }
    }
}

/// Optional text as its characters.
pub open spec fn optional_text(text: Option<String>) -> Option<Seq<char>> {
    match text {
        Some(text) => Some(text@),
        None => None,
    }
}

/// Track descriptions as their contents.
pub open spec fn track_models(tracks: Seq<TrackReport>) -> Seq<TrackReportModel> {
    Seq::new(tracks.len(), |i: int| tracks[i]@)
}

impl View for SegmentReport {
    type V = SegmentModel;

    open spec fn view(&self) -> SegmentModel {
        SegmentModel {
            title: optional_text(self.title),
            duration: self.duration,
            tracks: track_models(self.tracks@),
            clusters: self.clusters,
            cues: self.cues,
        }
    }
}

/// The document type in the header of a file and the length of the header, or
/// why there is none.
pub uninterp spec fn parsed_header(bytes: Seq<u8>) -> Result<(Option<Seq<char>>, usize), Seq<char>>;

/// The segment at the start of some bytes, or why there is none.
pub uninterp spec fn parsed_segment(bytes: Seq<u8>) -> Result<SegmentFacts, Seq<char>>;

/// The result of reading a header as its contents.
pub open spec fn header_model(result: Result<(Option<String>, usize), String>) -> Result<
    (Option<Seq<char>>, usize),
    Seq<char>,
> {
    match result {
        Ok((doc_type, length)) => Ok((optional_text(doc_type), length)),
        Err(message) => Err(message@),
    }
}

/// The title, duration, tracks, clusters and cues of a segment.
pub type SegmentParts = (Option<String>, Option<u64>, Vec<TrackReport>, usize, Option<usize>);

/// The result of reading a segment as its contents.
pub open spec fn segment_facts(result: Result<SegmentParts, String>) -> Result<
    SegmentFacts,
    Seq<char>,
> {
    match result {
        Ok((title, duration, tracks, clusters, cues)) => Ok(
            SegmentModel {
                title: optional_text(title),
                duration,
                tracks: track_models(tracks@),
                clusters,
                cues,
            }.facts(),
        ),
        Err(message) => Err(message@),
    }
}

/// `Ebml::read_from` of `mkv_element`, and how many bytes it takes: no more
/// than there are. An element whose size or contents do not fit is an error,
/// with the message of the crate.
#[verifier::external_body]
fn read_header(bytes: &[u8]) -> (result: Result<(Option<String>, usize), String>)
    ensures
        header_model(result) == parsed_header(bytes@),
        result matches Ok(header) ==> header.1 <= bytes@.len(),
{
    let mut cursor = std::io::Cursor::new(bytes);
    match Ebml::read_from(&mut cursor) {
        Ok(ebml) => Ok((ebml.doc_type.map(|name| name.0), cursor.position() as usize)),
        Err(error) => Err(error.to_string()),
    }
}

/// `Segment::read_from` of `mkv_element`. A file without tracks or cues has
/// none of them; an element whose size or contents do not fit, or a segment
/// without a size, is an error, with the message of the crate. Tags and
/// chapters within one another are read by recursion, which takes stack for
/// each level, so the levels are bounded. Nothing is said of the bits of a
/// duration or sample rate that is no number: they are left to the machine
/// where the file holds them in single precision.
#[verifier::external_body]
fn read_segment(mut bytes: &[u8]) -> (result: Result<SegmentParts, String>)
    requires
        nesting::segment_nests_within(bytes@, MAX_LEVELS as nat),
    ensures
        segment_facts(result) == parsed_segment(bytes@),
{
    let segment = Segment::read_from(&mut bytes).map_err(|error| error.to_string())?;
    let tracks = segment.tracks.into_iter().flat_map(|tracks| tracks.track_entry).map(
        |entry| TrackReport::new(
            *entry.track_number, *entry.track_type, entry.codec_id.0, entry.language.0,
            entry.video.map(|video| (*video.pixel_width, *video.pixel_height)),
            entry.audio.map(|audio| (audio.sampling_frequency.to_bits(), *audio.channels))));
    Ok((
        segment.info.title.map(|title| title.0),
        segment.info.duration.map(|duration| duration.to_bits()),
        tracks.collect(),
        segment.cluster.len(),
        segment.cues.map(|cues| cues.cue_point.len())))
}

/// What a track carries.
#[derive(Debug, Clone, Copy, PartialEq, Eq, Structural)]
pub enum TrackKind {
    Video,
    Audio,
    Subtitle,
    Unknown(u64),
}

impl TrackKind {
    /// What a track with a number for its kind carries.
    pub open spec fn numbered(kind: u64) -> TrackKind {
        match kind {
            1 => TrackKind::Video,
            2 => TrackKind::Audio,
            17 => TrackKind::Subtitle,
            other => TrackKind::Unknown(other),
        }
    }

    /// What a track with a number for its kind carries.
    pub fn from_number(kind: u64) -> (named: TrackKind)
        ensures
            named == TrackKind::numbered(kind),
    {
        match kind {
            1 => TrackKind::Video,
            2 => TrackKind::Audio,
            17 => TrackKind::Subtitle,
            other => TrackKind::Unknown(other),
        }
    }

    /// The name of the kind.
    pub open spec fn name_text(self) -> Seq<char> {
        match self {
            TrackKind::Video => "video"@,
            TrackKind::Audio => "audio"@,
            TrackKind::Subtitle => "subtitle"@,
            TrackKind::Unknown(kind) => "unknown("@ + text::decimal(kind as int) + ")"@,
        }
    }

    /// The name of the kind.
    pub fn name(&self) -> (name: String)
        ensures
            name@ == self.name_text(),
    {
        match *self {
            TrackKind::Video => String::from_str("video"),
            TrackKind::Audio => String::from_str("audio"),
            TrackKind::Subtitle => String::from_str("subtitle"),
            TrackKind::Unknown(kind) => {
                let mut out = String::from_str("unknown(");
                push_decimal(&mut out, kind);
                out.append(")");
                out
            },
        }
    }
}

/// A track for display; of an unknown kind only number and codec are told.
#[derive(Debug)]
pub struct TrackLine {
    pub number: u64,
    pub kind: TrackKind,
    pub codec: String,
    pub language: Option<String>,
    pub size: Option<(u64, u64)>,
    pub sound: Option<(u64, u64)>,
}

/// Whether a line tells of a track.
pub open spec fn tells(line: TrackLine, track: TrackReportModel) -> bool {
    let kind = TrackKind::numbered(track.kind);
    &&& line.number == track.number
    &&& line.kind == kind
    &&& line.codec@ == track.codec
    &&& if kind is Unknown {
        line.language is None && line.size is None && line.sound is None
    } else {
        &&& optional_text(line.language) == Some(track.language)
        &&& line.size == track.size
        &&& line.sound == track.sound
    }
}

/// A Matroska file for display.
#[derive(Debug)]
pub struct MatroskaReport {
    pub doc_type: String,
    pub title: Option<String>,
    /// The bits of the duration in milliseconds, a double-precision number.
    pub duration: Option<u64>,
    pub tracks: Vec<TrackLine>,
    pub clusters: usize,
    pub cues: usize,
}

impl MatroskaReport {
    /// Whether the report tells of a file with a document type and a segment.
    pub open spec fn describes(self, doc_type: Option<Seq<char>>, segment: SegmentModel) -> bool {
        &&& self.doc_type@ == match doc_type {
            Some(name) => name,
            None => "unknown"@,
        }
        &&& optional_text(self.title) == segment.title
        &&& self.duration == segment.duration
        &&& self.tracks@.len() == segment.tracks.len()
        &&& forall|i: int|
            0 <= i < self.tracks@.len() ==> tells(#[trigger] self.tracks@[i], segment.tracks[i])
        &&& self.clusters == segment.clusters
        &&& self.cues == match segment.cues {
            Some(cues) => cues,
            None => 0,
        }
    }
}

/// A track for display.
fn tell(track: TrackReport) -> (line: TrackLine)
    ensures
        tells(line, track@),
{
    let kind: TrackKind = TrackKind::from_number(track.kind);
    match kind {
        TrackKind::Unknown(_) => TrackLine {
            number: track.number,
            kind,
            codec: track.codec,
            language: None,
            size: None,
            sound: None,
        },
        _ => TrackLine {
            number: track.number,
            kind,
            codec: track.codec,
            language: Some(track.language),
            size: track.size,
            sound: track.sound,
        },
    }
}

/// A file for display.
pub fn describe(doc_type: Option<String>, segment: SegmentReport) -> (report: MatroskaReport)
    ensures
        report.describes(optional_text(doc_type), segment@),
{
    let ghost models = track_models(segment.tracks@);
    let mut pending: Vec<TrackReport> = segment.tracks;
    let mut reversed: Vec<TrackLine> = Vec::new();
    while pending.len() > 0
        invariant
            pending@.len() + reversed@.len() == models.len(),
            forall|i: int| 0 <= i < pending@.len() ==> (#[trigger] pending@[i])@ == models[i],
            forall|i: int|
                0 <= i < reversed@.len() ==> tells(
                    #[trigger] reversed@[i],
                    models[models.len() - 1 - i],
                ),
        decreases pending@.len(),
    {
        match pending.pop() {
            Some(track) => reversed.push(tell(track)),
            None => {},
        }
    }
    let mut tracks: Vec<TrackLine> = Vec::new();
    while reversed.len() > 0
        invariant
            tracks@.len() + reversed@.len() == models.len(),
            forall|i: int|
                0 <= i < reversed@.len() ==> tells(
                    #[trigger] reversed@[i],
                    models[models.len() - 1 - i],
                ),
            forall|i: int| 0 <= i < tracks@.len() ==> tells(#[trigger] tracks@[i], models[i]),
        decreases reversed@.len(),
    {
        match reversed.pop() {
            Some(line) => tracks.push(line),
            None => {},
        }
    }
    let doc_type: String = match doc_type {
        Some(name) => name,
        None => String::from_str("unknown"),
    };
    MatroskaReport {
        doc_type,
        title: segment.title,
        duration: segment.duration,
        tracks,
        clusters: segment.clusters,
        cues: match segment.cues {
            Some(cues) => cues,
            None => 0,
        },
    }
}

/// Which part of a file cannot be read, and why.
#[derive(Debug)]
pub enum MatroskaFault {
    Header(String),
    Segment(String),
}

/// Whether a report tells of a file with a document type and a segment that
/// has the given facts.
pub open spec fn reports(
    report: MatroskaReport,
    doc_type: Option<Seq<char>>,
    facts: SegmentFacts,
) -> bool {
    exists|segment: SegmentModel| #[trigger]
        report.describes(doc_type, segment) && segment.facts() == facts
}

/// Why one of some tags and chapters that lie deep cannot be read, if so. Each
/// is read on its own, and so is what lies deep in it.
pub open spec fn deep_fault(todo: Seq<PieceModel>) -> Option<Seq<char>>
    decreases nesting::pieces_len(todo), todo.len(),
{
    if todo.len() == 0 {
        None
    } else {
        let piece = todo.last();
        proof {
            nesting::lemma_deeper_len(piece);
            nesting::lemma_pieces_len_concat(todo.drop_last(), nesting::deeper(piece));
        }
        match parsed_segment(nesting::lone_segment(piece)) {
            Err(message) => Some(message),
            Ok(_) => deep_fault(todo.drop_last() + nesting::deeper(piece)),
        }
    }
}

/// The segment at the start of some bytes, or why there is none. Tags and
/// chapters that lie deep are read behind all else, piece by piece; they must
/// be readable, and say nothing else of the segment.
pub open spec fn whole_segment(bytes: Seq<u8>) -> Result<SegmentFacts, Seq<char>> {
    match parsed_segment(nesting::shallow(bytes)) {
        Err(message) => Err(message),
        Ok(facts) => match deep_fault(nesting::deep(bytes)) {
            Some(message) => Err(message),
            None => Ok(facts),
        },
    }
}

/// A segment with tags and chapters on few levels is read at once, as it is.
pub proof fn shallow_segments_are_read_at_once(bytes: Seq<u8>)
    requires
        nesting::segment_nests_within(bytes, MAX_LEVELS as nat),
    ensures
        whole_segment(bytes) == parsed_segment(bytes),
{
    nesting::shallow_segments_are_left_alone(bytes);
}

/// Reads tags and chapters that lie deep.
fn check_deep(pieces: Vec<Piece<'_>>) -> (fault: Option<String>)
    requires
        forall|i: int| 0 <= i < pieces@.len() ==> nesting::is_sound((#[trigger] pieces@[i])@),
    ensures
        optional_text(fault) == deep_fault(nesting::piece_models(pieces@)),
{
    let mut todo: Vec<Piece<'_>> = pieces;
    let ghost all = nesting::piece_models(todo@);
    loop
        invariant
            forall|i: int| 0 <= i < todo@.len() ==> nesting::is_sound((#[trigger] todo@[i])@),
            deep_fault(nesting::piece_models(todo@)) == deep_fault(all),
            all == nesting::piece_models(pieces@),
        decreases nesting::pieces_len(nesting::piece_models(todo@)), todo@.len(),
    {
        let ghost before = nesting::piece_models(todo@);
        let piece = match todo.pop() {
            Some(piece) => piece,
            None => return None,
        };
        assert(nesting::piece_models(todo@) =~= before.drop_last());
        assert(piece@ == before.last());
        let bytes: Vec<u8> = make_lone(piece, &mut todo);
        proof {
            nesting::lemma_deeper_len(piece@);
            nesting::lemma_pieces_len_concat(before.drop_last(), nesting::deeper(piece@));
        }
        match read_segment(bytes.as_slice()) {
            Ok(_) => {},
            Err(message) => return Some(message),
        }
    }
}

/// Reads a Matroska file for display.
pub fn inspect_matroska(bytes: &[u8]) -> (result: Result<MatroskaReport, MatroskaFault>)
    ensures
        match parsed_header(bytes@) {
            Err(message) => result matches Err(MatroskaFault::Header(told)) && told@ == message,
            Ok((doc_type, length)) => match whole_segment(bytes@.skip(length as int)) {
                Err(message) => result matches Err(MatroskaFault::Segment(told)) && told@
                    == message,
                Ok(facts) => result matches Ok(report) && reports(report, doc_type, facts),
            },
        },
{
    let (doc_type, length): (Option<String>, usize) = match read_header(bytes) {
        Ok(header) => header,
        Err(message) => return Err(MatroskaFault::Header(message)),
    };
    let rest: &[u8] = vstd::slice::slice_subrange(bytes, length, bytes.len());
    assert(rest@ =~= bytes@.skip(length as int));
    let (cut, pieces) = make_shallow(rest);
    let segment: SegmentReport = match read_segment(cut.as_slice()) {
        Ok((title, duration, tracks, clusters, cues)) => {
            SegmentReport { title, duration, tracks, clusters, cues }
        },
        Err(message) => return Err(MatroskaFault::Segment(message)),
    };
    match check_deep(pieces) {
        Some(message) => Err(MatroskaFault::Segment(message)),
        None => Ok(describe(doc_type, segment)),
    }
}

} // verus!
