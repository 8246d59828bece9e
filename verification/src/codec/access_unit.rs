//! Splits raw Annex B streams into access units, one coded picture each.
//!
//! A new unit starts at an access unit delimiter or, where the stream has
//! none, at parameter sets behind coded slices and at a slice that directly
//! follows another slice or a suffix SEI. SEI units never start a unit of
//! their own, and data partitions stay with their picture.

use vstd::prelude::*;
use crate::api::VideoCodec;
use crate::codec::common::{self, find_start_code};
use crate::wire;

verus! {

/// One coded picture: a byte range of the stream, start codes included.
#[derive(Debug, Clone, Copy, PartialEq, Eq)]
pub struct AccessUnit<'a> {
    /// The bytes of the picture.
    pub data: &'a [u8],
    /// Whether the picture holds an IDR slice (H.264) or an IRAP picture
    /// (H.265).
    pub is_keyframe: bool,
}

/// An access unit, its bytes as a sequence.
pub struct UnitModel {
    pub data: Seq<u8>,
    pub is_keyframe: bool,
}

impl<'a> View for AccessUnit<'a> {
    type V = UnitModel;

    open spec fn view(&self) -> UnitModel {
        UnitModel { data: self.data@, is_keyframe: self.is_keyframe }
    }
}

/// The views of a run of units.
pub open spec fn unit_models(units: Seq<AccessUnit>) -> Seq<UnitModel> {
    units.map_values(|unit: AccessUnit| unit@)
}

/// A NAL unit by the position of its start code and its type.
#[derive(Debug, Clone, Copy, PartialEq, Eq, Structural)]
pub struct NalPos {
    /// Position of the start code.
    pub start: usize,
    /// Type from the header byte.
    pub nal_type: u8,
}

/// The type in a NAL header byte.
pub open spec fn type_of(header: u8, h265: bool) -> u8 {
    if h265 {
        (header as int / 2 % 0x40) as u8
    } else {
        (header as int % 0x20) as u8
    }
}

/// The NAL units whose start codes lie at or after `i`.
pub open spec fn nals_from(data: Seq<u8>, i: int, h265: bool) -> Seq<NalPos>
    decreases data.len() - i,
{
    if !(0 <= i < data.len()) {
        Seq::empty()
    } else if common::code_len(data, i) == 0 {
        nals_from(data, i + 1, h265)
    } else {
        let header = i + common::code_len(data, i);
        if header < data.len() {
            seq![NalPos { start: i as usize, nal_type: type_of(data[header], h265) }]
                + nals_from(data, header, h265)
        } else {
            Seq::empty()
        }
    }
}

/// Positions without start codes add no NAL unit.
proof fn lemma_skip_to_code(data: Seq<u8>, from: int, to: int, h265: bool)
    requires
        0 <= from <= to <= data.len(),
        forall|k: int| from <= k < to ==> #[trigger] common::code_len(data, k) == 0,
    ensures
        nals_from(data, from, h265) == nals_from(data, to, h265),
    decreases to - from,
{
    if from < to {
        assert(common::code_len(data, from) == 0);
        lemma_skip_to_code(data, from + 1, to, h265);
    }
}

/// Finds every NAL unit.
fn scan_nals(data: &[u8], h265: bool) -> (nals: Vec<NalPos>)
    ensures
        nals@ == nals_from(data@, 0, h265),
{
    assert(data.len() == data@.len());
    let mut nals: Vec<NalPos> = Vec::new();
    let mut cursor: usize = 0;
    assert(nals@ + nals_from(data@, 0, h265) =~= nals_from(data@, 0, h265));
    loop
        invariant
            cursor <= data@.len(),
            data.len() == data@.len(),
            nals@ + nals_from(data@, cursor as int, h265) == nals_from(data@, 0, h265),
        decreases data@.len() - cursor,
    {
        match find_start_code(data, cursor) {
            None => {
                proof {
                    lemma_skip_to_code(data@, cursor as int, data@.len() as int, h265);
                    assert(nals_from(data@, data@.len() as int, h265) =~= Seq::empty());
                    assert(nals@ + Seq::empty() =~= nals@);
                }
                return nals;
            },
            Some((pos, len)) => {
                proof {
                    lemma_skip_to_code(data@, cursor as int, pos as int, h265);
                }
                let header: usize = pos + len;
                if header < data.len() {
                    let byte: u8 = data[header];
                    let nal_type: u8 = if h265 {
                        byte / 2 % 0x40
                    } else {
                        byte % 0x20
                    };
                    let nal = NalPos { start: pos, nal_type };
                    let ghost before = nals@;
                    nals.push(nal);
                    assert(nals@ + nals_from(data@, header as int, h265) =~= before + (seq![nal]
                        + nals_from(data@, header as int, h265)));
                } else {
                    assert(nals_from(data@, header as int, h265) =~= Seq::empty());
                }
                cursor = header;
            },
        }
    }
}

/// Whether a NAL type is a complete slice.
pub open spec fn is_slice(nal_type: u8, h265: bool) -> bool {
    if h265 {
        nal_type <= 9 || 16 <= nal_type <= 21
    } else {
        nal_type == 1 || nal_type == 5
    }
}

/// Whether a NAL type is a parameter set.
pub open spec fn is_parameter_set(nal_type: u8, h265: bool) -> bool {
    if h265 {
        32 <= nal_type <= 34
    } else {
        nal_type == 7 || nal_type == 8
    }
}

/// Whether a NAL type is an access unit delimiter.
pub open spec fn is_delimiter(nal_type: u8, h265: bool) -> bool {
    if h265 {
        nal_type == 35
    } else {
        nal_type == 9
    }
}

/// Whether a NAL type is an SEI unit that may follow the slices of a picture.
pub open spec fn is_trailing_sei(nal_type: u8, h265: bool) -> bool {
    if h265 {
        nal_type == 40
    } else {
        nal_type == 6
    }
}

/// Whether a NAL type makes its picture a keyframe.
pub open spec fn is_random_access(nal_type: u8, h265: bool) -> bool {
    if h265 {
        16 <= nal_type <= 21
    } else {
        nal_type == 5
    }
}

/// Whether a NAL unit starts a new access unit: `seen_slice` says whether the
/// current one has a slice yet, `prev` is the type of the unit before.
pub open spec fn starts_unit(nal_type: u8, prev: u8, seen_slice: bool, h265: bool) -> bool {
    ||| is_delimiter(nal_type, h265)
    ||| is_parameter_set(nal_type, h265) && seen_slice
    ||| is_slice(nal_type, h265) && seen_slice && (is_slice(prev, h265) || is_trailing_sei(
        prev,
        h265,
    ))
}

/// Whether the access unit that holds NAL unit `i - 1` has a slice before NAL
/// unit `i`.
pub open spec fn seen_before(nals: Seq<NalPos>, i: int, h265: bool) -> bool
    decreases i,
{
    if i <= 0 {
        false
    } else {
        is_slice(nals[i - 1].nal_type, h265) || (!opens_at(nals, i - 1, h265) && seen_before(
            nals,
            i - 1,
            h265,
        ))
    }
}

/// Whether NAL unit `i` starts an access unit.
pub open spec fn opens_at(nals: Seq<NalPos>, i: int, h265: bool) -> bool
    decreases i,
{
    i <= 0 || starts_unit(
        nals[i].nal_type,
        nals[i - 1].nal_type,
        is_slice(nals[i - 1].nal_type, h265) || (!opens_at(nals, i - 1, h265) && seen_before(
            nals,
            i - 1,
            h265,
        )),
        h265,
    )
}

/// Those of the first `n` NAL units that start an access unit.
pub open spec fn boundaries(nals: Seq<NalPos>, n: int, h265: bool) -> Seq<int>
    decreases n,
{
    if n <= 0 {
        Seq::empty()
    } else if opens_at(nals, n - 1, h265) {
        boundaries(nals, n - 1, h265).push(n - 1)
    } else {
        boundaries(nals, n - 1, h265)
    }
}

/// The NAL unit behind the `k`-th access unit.
pub open spec fn unit_end(bounds: Seq<int>, k: int, n: int) -> int {
    if k + 1 < bounds.len() {
        bounds[k + 1]
    } else {
        n
    }
}

/// The `k`-th access unit.
pub open spec fn unit_at(
    data: Seq<u8>,
    nals: Seq<NalPos>,
    bounds: Seq<int>,
    k: int,
    h265: bool,
) -> UnitModel {
    let end = unit_end(bounds, k, nals.len() as int);
    UnitModel {
        data: data.subrange(
            nals[bounds[k]].start as int,
            if end < nals.len() {
                nals[end].start as int
            } else {
                data.len() as int
            },
        ),
        is_keyframe: exists|j: int|
            bounds[k] <= j < end && is_random_access((#[trigger] nals[j]).nal_type, h265),
    }
}

/// The access units of a stream.
pub open spec fn units_of(data: Seq<u8>, h265: bool) -> Seq<UnitModel> {
    let nals = nals_from(data, 0, h265);
    let bounds = boundaries(nals, nals.len() as int, h265);
    Seq::new(bounds.len(), |k: int| unit_at(data, nals, bounds, k, h265))
}

/// Whether a NAL type is a complete H.264 slice.
fn is_h264_slice(t: u8) -> (yes: bool)
    ensures
        yes == is_slice(t, false),
{
    t == 1 || t == 5
}

/// Whether a NAL type is a complete H.265 slice.
fn is_hevc_slice(t: u8) -> (yes: bool)
    ensures
        yes == is_slice(t, true),
{
    t <= 9 || (t >= 16 && t <= 21)
}

/// The positions of boundaries.
spec fn indices(bounds: Seq<usize>) -> Seq<int> {
    bounds.map_values(|bound: usize| bound as int)
}

/// Finds the NAL units that start an access unit.
fn find_boundaries(nals: &Vec<NalPos>, h265: bool) -> (bounds: Vec<usize>)
    ensures
        indices(bounds@) == boundaries(nals@, nals@.len() as int, h265),
{
    let mut bounds: Vec<usize> = Vec::new();
    let mut seen_slice = false;
    let mut i: usize = 0;
    assert(indices(bounds@) =~= Seq::empty());
    while i < nals.len()
        invariant
            i <= nals@.len(),
            seen_slice == seen_before(nals@, i as int, h265),
            indices(bounds@) == boundaries(nals@, i as int, h265),
        decreases nals@.len() - i,
    {
        let t: u8 = nals[i].nal_type;
        let slice = if h265 {
            is_hevc_slice(t)
        } else {
            is_h264_slice(t)
        };
        let opens = if i == 0 {
            true
        } else {
            let prev: u8 = nals[i - 1].nal_type;
            if h265 {
                t == 35 || ((t == 32 || t == 33 || t == 34) && seen_slice) || (slice && seen_slice
                    && (is_hevc_slice(prev) || prev == 40))
            } else {
                t == 9 || ((t == 7 || t == 8) && seen_slice) || (slice && seen_slice && (prev == 1
                    || prev == 5 || prev == 6))
            }
        };
        proof {
            reveal_with_fuel(opens_at, 2);
            reveal_with_fuel(seen_before, 2);
            if i > 0 {
                assert(seen_slice == (is_slice(nals@[i - 1].nal_type, h265) || (!opens_at(
                    nals@,
                    i - 1,
                    h265,
                ) && seen_before(nals@, i - 1, h265))));
            }
            assert(opens == opens_at(nals@, i as int, h265));
        }
        if opens {
            let ghost before = bounds@;
            bounds.push(i);
            assert(indices(bounds@) =~= indices(before).push(i as int));
            seen_slice = false;
        }
        if slice {
            seen_slice = true;
        }
        i += 1;
    }
    bounds
}

/// NAL units lie within the stream, each behind the one before it.
proof fn lemma_nals_ordered(data: Seq<u8>, i: int, h265: bool)
    requires
        0 <= i,
        data.len() <= usize::MAX,
    ensures
        forall|k: int|
            0 <= k < nals_from(data, i, h265).len() ==> i <= (#[trigger] nals_from(
                data,
                i,
                h265,
            )[k]).start < data.len(),
        forall|j: int, k: int|
            0 <= j < k < nals_from(data, i, h265).len() ==> (#[trigger] nals_from(
                data,
                i,
                h265,
            )[j]).start < (#[trigger] nals_from(data, i, h265)[k]).start,
    decreases data.len() - i,
{
    if i < data.len() {
        if common::code_len(data, i) == 0 {
            lemma_nals_ordered(data, i + 1, h265);
            assert(nals_from(data, i, h265) == nals_from(data, i + 1, h265));
        } else {
            let header = i + common::code_len(data, i);
            if header < data.len() {
                lemma_nals_ordered(data, header, h265);
                let rest = nals_from(data, header, h265);
                let all = nals_from(data, i, h265);
                let first = NalPos { start: i as usize, nal_type: type_of(data[header], h265) };
                assert(all == seq![first] + rest);
                assert forall|k: int| 0 <= k < all.len() implies i <= (#[trigger] all[k]).start
                    < data.len() by {
                    if k > 0 {
                        assert(all[k] == rest[k - 1]);
                    }
                }
                assert forall|j: int, k: int| 0 <= j < k < all.len() implies (
                #[trigger] all[j]).start < (#[trigger] all[k]).start by {
                    assert(all[k] == rest[k - 1]);
                    if j > 0 {
                        assert(all[j] == rest[j - 1]);
                    }
                }
            } else {
                assert(nals_from(data, i, h265).len() == 0);
            }
        }
    } else {
        assert(nals_from(data, i, h265).len() == 0);
    }
}

/// Boundaries are NAL units, in order, beginning with the first.
proof fn lemma_boundaries_ordered(nals: Seq<NalPos>, n: int, h265: bool)
    requires
        0 <= n <= nals.len(),
    ensures
        forall|k: int|
            0 <= k < boundaries(nals, n, h265).len() ==> 0 <= #[trigger] boundaries(
                nals,
                n,
                h265,
            )[k] < n,
        forall|j: int, k: int|
            0 <= j < k < boundaries(nals, n, h265).len() ==> #[trigger] boundaries(
                nals,
                n,
                h265,
            )[j] < #[trigger] boundaries(nals, n, h265)[k],
        n > 0 ==> boundaries(nals, n, h265).len() > 0 && boundaries(nals, n, h265)[0] == 0,
    decreases n,
{
    if n > 0 {
        lemma_boundaries_ordered(nals, n - 1, h265);
        reveal_with_fuel(boundaries, 2);
        if n == 1 {
            assert(opens_at(nals, 0, h265));
            assert(boundaries(nals, 0, h265) =~= Seq::empty());
        }
    }
}

/// Cuts the stream at the boundaries.
fn build_units<'a>(data: &'a [u8], nals: &Vec<NalPos>, bounds: &Vec<usize>, h265: bool) -> (units:
    Vec<AccessUnit<'a>>)
    requires
        nals@ == nals_from(data@, 0, h265),
        indices(bounds@) == boundaries(nals@, nals@.len() as int, h265),
    ensures
        unit_models(units@) == units_of(data@, h265),
{
    assert(data.len() == data@.len());
    let ghost models = indices(bounds@);
    proof {
        lemma_nals_ordered(data@, 0, h265);
        lemma_boundaries_ordered(nals@, nals@.len() as int, h265);
    }
    let mut units: Vec<AccessUnit<'a>> = Vec::new();
    let mut k: usize = 0;
    assert(unit_models(units@) =~= units_of(data@, h265).take(0));
    while k < bounds.len()
        invariant
            k <= bounds@.len(),
            data.len() == data@.len(),
            nals@ == nals_from(data@, 0, h265),
            models == indices(bounds@),
            models == boundaries(nals@, nals@.len() as int, h265),
            forall|i: int| 0 <= i < nals@.len() ==> (#[trigger] nals@[i]).start < data@.len(),
            forall|i: int, j: int|
                0 <= i < j < nals@.len() ==> (#[trigger] nals@[i]).start < (
                #[trigger] nals@[j]).start,
            forall|i: int| 0 <= i < models.len() ==> 0 <= #[trigger] models[i] < nals@.len(),
            forall|i: int, j: int|
                0 <= i < j < models.len() ==> #[trigger] models[i] < #[trigger] models[j],
            unit_models(units@) == units_of(data@, h265).take(k as int),
        decreases bounds@.len() - k,
    {
        assert(models[k as int] == bounds@[k as int]);
        let first: usize = bounds[k];
        let end: usize = if k + 1 < bounds.len() {
            assert(models[k + 1] == bounds@[k + 1]);
            bounds[k + 1]
        } else {
            nals.len()
        };
        let from: usize = nals[first].start;
        let to: usize = if end < nals.len() {
            nals[end].start
        } else {
            data.len()
        };
        let mut is_keyframe = false;
        let mut j: usize = first;
        while j < end
            invariant
                first <= j <= end <= nals@.len(),
                is_keyframe == exists|i: int|
                    first <= i < j && is_random_access((#[trigger] nals@[i]).nal_type, h265),
            decreases end - j,
        {
            let t: u8 = nals[j].nal_type;
            let key = if h265 {
                t >= 16 && t <= 21
            } else {
                t == 5
            };
            if key {
                is_keyframe = true;
                assert(is_random_access(nals@[j as int].nal_type, h265));
            }
            j += 1;
        }
        let unit = AccessUnit {
            data: vstd::slice::slice_subrange(data, from, to),
            is_keyframe,
        };
        let ghost before = units@;
        units.push(unit);
        proof {
            assert(unit@ == unit_at(data@, nals@, models, k as int, h265));
            assert(unit_models(units@) =~= unit_models(before).push(unit@));
            assert(units_of(data@, h265).take(k + 1) =~= units_of(data@, h265).take(
                k as int,
            ).push(units_of(data@, h265)[k as int]));
        }
        k += 1;
    }
    assert(units_of(data@, h265).take(k as int) =~= units_of(data@, h265));
    units
}

/// Splits an H.264 stream. A stream without start codes has no units.
pub fn split_h264_access_units<'a>(data: &'a [u8]) -> (units: Vec<AccessUnit<'a>>)
    ensures
        unit_models(units@) == units_of(data@, false),
{
    let nals = scan_nals(data, false);
    let bounds = find_boundaries(&nals, false);
    build_units(data, &nals, &bounds, false)
}

/// Splits an H.265 stream. A stream without start codes has no units.
pub fn split_hevc_access_units<'a>(data: &'a [u8]) -> (units: Vec<AccessUnit<'a>>)
    ensures
        unit_models(units@) == units_of(data@, true),
{
    let nals = scan_nals(data, true);
    let bounds = find_boundaries(&nals, true);
    build_units(data, &nals, &bounds, true)
}

/// The access units of a stream of the given codec. AV1 and VP9 have no
/// start codes: their data is one unit, unless it is empty.
pub open spec fn codec_units(codec: VideoCodec, data: Seq<u8>) -> Seq<UnitModel> {
    match codec {
        VideoCodec::H264 => units_of(data, false),
        VideoCodec::H265 => units_of(data, true),
        _ => if data.len() == 0 {
            Seq::empty()
        } else {
            seq![UnitModel { data, is_keyframe: false }]
        },
    }
}

/// Splits a stream of the given codec.
pub fn split_access_units<'a>(codec: VideoCodec, data: &'a [u8]) -> (units: Vec<AccessUnit<'a>>)
    ensures
        unit_models(units@) == codec_units(codec, data@),
{
    match codec {
        VideoCodec::H264 => split_h264_access_units(data),
        VideoCodec::H265 => split_hevc_access_units(data),
        _ => {
            let mut units: Vec<AccessUnit<'a>> = Vec::new();
            if data.len() > 0 {
                units.push(AccessUnit { data, is_keyframe: false });
            }
            assert(unit_models(units@) =~= codec_units(codec, data@));
            units
        },
    }
}

/// The bytes of some units, one after the other.
pub open spec fn units_image(units: Seq<UnitModel>) -> Seq<u8> {
    wire::joined(units.map_values(|unit: UnitModel| unit.data))
}

/// Splitting loses nothing: the units hold every byte from the first start
/// code on.
pub proof fn units_cover_stream(data: Seq<u8>, h265: bool)
    requires
        data.len() <= usize::MAX,
        nals_from(data, 0, h265).len() > 0,
    ensures
        units_of(data, h265).len() > 0,
        units_image(units_of(data, h265)) == data.skip(nals_from(data, 0, h265)[0].start as int),
{
    let nals = nals_from(data, 0, h265);
    let bounds = boundaries(nals, nals.len() as int, h265);
    let units = units_of(data, h265);
    lemma_nals_ordered(data, 0, h265);
    lemma_boundaries_ordered(nals, nals.len() as int, h265);
    let n = bounds.len() as int;
    lemma_units_join(data, h265, n);
    assert(units.take(n) =~= units);
    assert(data.skip(nals[0].start as int) =~= data.subrange(
        nals[0].start as int,
        data.len() as int,
    ));
}

proof fn lemma_units_join(data: Seq<u8>, h265: bool, n: int)
    requires
        data.len() <= usize::MAX,
        1 <= n <= units_of(data, h265).len(),
        nals_from(data, 0, h265).len() > 0,
    ensures
        ({
            let nals = nals_from(data, 0, h265);
            let bounds = boundaries(nals, nals.len() as int, h265);
            let end = unit_end(bounds, n - 1, nals.len() as int);
            units_image(units_of(data, h265).take(n)) == data.subrange(
                nals[0].start as int,
                if end < nals.len() {
                    nals[end].start as int
                } else {
                    data.len() as int
                },
            )
        }),
    decreases n,
{
    let nals = nals_from(data, 0, h265);
    let bounds = boundaries(nals, nals.len() as int, h265);
    let units = units_of(data, h265);
    lemma_nals_ordered(data, 0, h265);
    lemma_boundaries_ordered(nals, nals.len() as int, h265);
    let bytes = |m: int| units.take(m).map_values(|unit: UnitModel| unit.data);
    assert(bytes(n).drop_last() =~= bytes(n - 1));
    assert(bytes(n).last() == units[n - 1].data);
    let from = nals[bounds[n - 1]].start as int;
    let end = unit_end(bounds, n - 1, nals.len() as int);
    let to = if end < nals.len() {
        nals[end].start as int
    } else {
        data.len() as int
    };
    assert(units[n - 1].data == data.subrange(from, to));
    if n > 1 {
        lemma_units_join(data, h265, n - 1);
        assert(unit_end(bounds, n - 2, nals.len() as int) == bounds[n - 1]);
        assert(nals[0].start <= from);
        assert(data.subrange(nals[0].start as int, from) + data.subrange(from, to)
            =~= data.subrange(nals[0].start as int, to));
    } else {
        assert(bytes(0) =~= Seq::empty());
        reveal_with_fuel(wire::joined, 2);
        assert(bounds[0] == 0);
        assert(Seq::<u8>::empty() + data.subrange(from, to) =~= data.subrange(from, to));
    }
}

/// Whether a NAL header byte stands at `header`: behind two zeros and a one.
pub open spec fn header_at(data: Seq<u8>, header: int) -> bool {
    3 <= header < data.len() && data[header - 3] == 0 && data[header - 2] == 0 && data[header - 1]
        == 1
}

/// Where the start code in front of a header begins: a zero in front of the
/// code belongs to it.
pub open spec fn code_start(data: Seq<u8>, header: int) -> int {
    if header >= 4 && data[header - 4] == 0 {
        header - 4
    } else {
        header - 3
    }
}

proof fn lemma_nals_behind_codes(data: Seq<u8>, i: int, h265: bool, k: int) -> (header: int)
    requires
        0 <= i,
        data.len() <= usize::MAX,
        0 <= k < nals_from(data, i, h265).len(),
    ensures
        header_at(data, header),
        nals_from(data, i, h265)[k].start == header - 3 || nals_from(data, i, h265)[k].start
            == header - 4 && data[header - 4] == 0,
        nals_from(data, i, h265)[k].nal_type == type_of(data[header], h265),
    decreases data.len() - i,
{
    if common::code_len(data, i) == 0 {
        lemma_nals_behind_codes(data, i + 1, h265, k)
    } else {
        let header = i + common::code_len(data, i);
        let rest = nals_from(data, header, h265);
        let all = nals_from(data, i, h265);
        assert(all == seq![
            NalPos { start: i as usize, nal_type: type_of(data[header], h265) },
        ] + rest);
        if k == 0 {
            header
        } else {
            assert(all[k] == rest[k - 1]);
            lemma_nals_behind_codes(data, header, h265, k - 1)
        }
    }
}

proof fn lemma_codes_have_nals(data: Seq<u8>, i: int, h265: bool, header: int) -> (k: int)
    requires
        0 <= i <= code_start(data, header),
        data.len() <= usize::MAX,
        header_at(data, header),
    ensures
        0 <= k < nals_from(data, i, h265).len(),
        nals_from(data, i, h265)[k].start == code_start(data, header),
        nals_from(data, i, h265)[k].nal_type == type_of(data[header], h265),
    decreases data.len() - i,
{
    if common::code_len(data, i) == 0 {
        assert(code_start(data, header) != i);
        lemma_codes_have_nals(data, i + 1, h265, header)
    } else {
        let next = i + common::code_len(data, i);
        if code_start(data, header) == i {
            assert(next == header);
            0
        } else {
            assert(next <= code_start(data, header));
            let k = lemma_codes_have_nals(data, next, h265, header);
            let rest = nals_from(data, next, h265);
            let all = nals_from(data, i, h265);
            assert(all == seq![
                NalPos { start: i as usize, nal_type: type_of(data[next], h265) },
            ] + rest);
            assert(all[k + 1] == rest[k]);
            k + 1
        }
    }
}

/// Every NAL unit stands behind a start code, and its type is in the byte
/// behind the code: its low five bits in H.264, the six bits below the topmost
/// in H.265.
pub proof fn nal_units_stand_behind_start_codes(data: Seq<u8>, h265: bool, k: int) -> (header: int)
    requires
        data.len() <= usize::MAX,
        0 <= k < nals_from(data, 0, h265).len(),
    ensures
        header_at(data, header),
        nals_from(data, 0, h265)[k].start == header - 3 || nals_from(data, 0, h265)[k].start
            == header - 4 && data[header - 4] == 0,
        h265 ==> nals_from(data, 0, h265)[k].nal_type == data[header] / 2 % 64,
        !h265 ==> nals_from(data, 0, h265)[k].nal_type == data[header] % 32,
{
    lemma_nals_behind_codes(data, 0, h265, k)
}

/// No NAL unit is missed: there is one for every start code with a byte behind
/// it, with the type that the byte gives.
pub proof fn start_codes_have_nal_units(data: Seq<u8>, h265: bool, header: int) -> (k: int)
    requires
        data.len() <= usize::MAX,
        header_at(data, header),
    ensures
        0 <= k < nals_from(data, 0, h265).len(),
        nals_from(data, 0, h265)[k].start == code_start(data, header),
        h265 ==> nals_from(data, 0, h265)[k].nal_type == data[header] / 2 % 64,
        !h265 ==> nals_from(data, 0, h265)[k].nal_type == data[header] % 32,
{
    lemma_codes_have_nals(data, 0, h265, header)
}

/// Whether one of the units, the first of which lies at `first`, begins at
/// `pos`.
pub open spec fn begins_at(units: Seq<UnitModel>, first: int, pos: int) -> bool {
    exists|k: int|
        0 <= k < units.len() && first + units_image(#[trigger] units.take(k)).len() == pos
}

/// Whether an access unit begins with NAL unit `i`.
pub open spec fn begins_with(data: Seq<u8>, h265: bool, i: int) -> bool {
    let nals = nals_from(data, 0, h265);
    begins_at(units_of(data, h265), nals[0].start as int, nals[i].start as int)
}

proof fn lemma_opens_iff_boundary(nals: Seq<NalPos>, n: int, i: int, h265: bool)
    requires
        0 <= i < n <= nals.len(),
    ensures
        opens_at(nals, i, h265) <==> exists|k: int|
            0 <= k < boundaries(nals, n, h265).len() && #[trigger] boundaries(nals, n, h265)[k]
                == i,
    decreases n,
{
    lemma_boundaries_ordered(nals, n, h265);
    lemma_boundaries_ordered(nals, n - 1, h265);
    let now = boundaries(nals, n, h265);
    let before = boundaries(nals, n - 1, h265);
    if i == n - 1 {
        if opens_at(nals, i, h265) {
            assert(now[before.len() as int] == i);
        }
    } else {
        lemma_opens_iff_boundary(nals, n - 1, i, h265);
        if opens_at(nals, i, h265) {
            let k = choose|k: int| 0 <= k < before.len() && #[trigger] before[k] == i;
            assert(now[k] == i);
        } else if exists|k: int| 0 <= k < now.len() && #[trigger] now[k] == i {
            let k = choose|k: int| 0 <= k < now.len() && #[trigger] now[k] == i;
            assert(before[k] == i);
        }
    }
}

/// The units in front of the `k`-th reach to its first NAL unit.
proof fn lemma_unit_position(data: Seq<u8>, h265: bool, k: int)
    requires
        data.len() <= usize::MAX,
        0 <= k < units_of(data, h265).len(),
    ensures
        ({
            let nals = nals_from(data, 0, h265);
            let bounds = boundaries(nals, nals.len() as int, h265);
            &&& 0 <= bounds[k] < nals.len()
            &&& nals[0].start + units_image(units_of(data, h265).take(k)).len()
                == nals[bounds[k]].start
        }),
{
    let nals = nals_from(data, 0, h265);
    let bounds = boundaries(nals, nals.len() as int, h265);
    let units = units_of(data, h265);
    lemma_nals_ordered(data, 0, h265);
    lemma_boundaries_ordered(nals, nals.len() as int, h265);
    assert(0 <= bounds[k] < nals.len());
    if k == 0 {
        assert(units.take(0).map_values(|unit: UnitModel| unit.data) =~= Seq::empty());
    } else {
        lemma_units_join(data, h265, k);
        assert(unit_end(bounds, k - 1, nals.len() as int) == bounds[k]);
    }
}

proof fn lemma_begins_iff_opens(data: Seq<u8>, h265: bool, i: int)
    requires
        data.len() <= usize::MAX,
        0 <= i < nals_from(data, 0, h265).len(),
    ensures
        begins_with(data, h265, i) <==> opens_at(nals_from(data, 0, h265), i, h265),
{
    let nals = nals_from(data, 0, h265);
    let bounds = boundaries(nals, nals.len() as int, h265);
    let units = units_of(data, h265);
    lemma_nals_ordered(data, 0, h265);
    lemma_opens_iff_boundary(nals, nals.len() as int, i, h265);
    if opens_at(nals, i, h265) {
        let k = choose|k: int| 0 <= k < bounds.len() && #[trigger] bounds[k] == i;
        lemma_unit_position(data, h265, k);
        assert(nals[0].start + units_image(units.take(k)).len() == nals[i].start);
    }
    if begins_with(data, h265, i) {
        let k = choose|k: int|
            0 <= k < units.len() && nals[0].start + units_image(#[trigger] units.take(k)).len()
                == nals[i].start;
        lemma_unit_position(data, h265, k);
        let b = bounds[k];
        assert(nals[b].start == nals[i].start);
        if b < i {
            assert(nals[b].start < nals[i].start);
        } else if i < b {
            assert(nals[i].start < nals[b].start);
        }
    }
}

proof fn lemma_seen_iff_slice(nals: Seq<NalPos>, i: int, h265: bool)
    requires
        0 <= i,
    ensures
        seen_before(nals, i, h265) <==> exists|j: int|
            0 <= j < i && is_slice((#[trigger] nals[j]).nal_type, h265) && forall|m: int|
                j < m < i ==> !#[trigger] opens_at(nals, m, h265),
    decreases i,
{
    if i > 0 {
        lemma_seen_iff_slice(nals, i - 1, h265);
        let inside = |j: int, n: int|
            0 <= j < n && is_slice(nals[j].nal_type, h265) && forall|m: int|
                j < m < n ==> !#[trigger] opens_at(nals, m, h265);
        if is_slice(nals[i - 1].nal_type, h265) {
            assert(inside(i - 1, i));
        } else if seen_before(nals, i, h265) {
            let j = choose|j: int|
                0 <= j < i - 1 && is_slice((#[trigger] nals[j]).nal_type, h265) && forall|m: int|
                    j < m < i - 1 ==> !#[trigger] opens_at(nals, m, h265);
            assert(inside(j, i));
        } else if exists|j: int|
            0 <= j < i && is_slice((#[trigger] nals[j]).nal_type, h265) && forall|m: int|
                j < m < i ==> !#[trigger] opens_at(nals, m, h265) {
            let j = choose|j: int|
                0 <= j < i && is_slice((#[trigger] nals[j]).nal_type, h265) && forall|m: int|
                    j < m < i ==> !#[trigger] opens_at(nals, m, h265);
            assert(j < i - 1);
            assert(!opens_at(nals, i - 1, h265));
            assert(inside(j, i - 1));
        }
    }
}

/// Whether a NAL type is that of a complete slice: 1 or 5 in H.264, 0 to 9 or
/// 16 to 21 in H.265.
pub open spec fn codes_slice(t: u8, h265: bool) -> bool {
    ||| !h265 && (t == 1 || t == 5)
    ||| h265 && (0 <= t <= 9 || 16 <= t <= 21)
}

/// Whether a NAL unit of the access unit that reaches up to NAL unit `i` is a
/// slice.
pub open spec fn has_slice_before(data: Seq<u8>, h265: bool, i: int) -> bool {
    exists|j: int|
        0 <= j < i && codes_slice((#[trigger] nals_from(data, 0, h265)[j]).nal_type, h265)
            && forall|m: int| j < m < i ==> !#[trigger] begins_with(data, h265, m)
}

/// Where access units begin: with the first NAL unit, with a delimiter (type 9
/// in H.264, 35 in H.265), and, where the access unit before has a slice, with a
/// parameter set (7 and 8, 32 to 34) and with a slice directly behind a slice or
/// behind an SEI unit (6, 40). Nowhere else.
pub proof fn access_units_begin_where_they_must(data: Seq<u8>, h265: bool, i: int)
    requires
        data.len() <= usize::MAX,
        0 <= i < nals_from(data, 0, h265).len(),
    ensures
        begins_with(data, h265, i) <==> {
            let t = nals_from(data, 0, h265)[i].nal_type;
            let prev = nals_from(data, 0, h265)[i - 1].nal_type;
            ||| i == 0
            ||| !h265 && t == 9
            ||| h265 && t == 35
            ||| !h265 && (t == 7 || t == 8) && has_slice_before(data, h265, i)
            ||| h265 && 32 <= t <= 34 && has_slice_before(data, h265, i)
            ||| !h265 && codes_slice(t, false) && (codes_slice(prev, false) || prev == 6)
                && has_slice_before(data, h265, i)
            ||| h265 && codes_slice(t, true) && (codes_slice(prev, true) || prev == 40)
                && has_slice_before(data, h265, i)
        },
{
    let nals = nals_from(data, 0, h265);
    lemma_begins_iff_opens(data, h265, i);
    lemma_seen_iff_slice(nals, i, h265);
    assert forall|m: int| 0 <= m < i implies #[trigger] begins_with(data, h265, m) == opens_at(
        nals,
        m,
        h265,
    ) by {
        lemma_begins_iff_opens(data, h265, m);
    }
    assert(has_slice_before(data, h265, i) <==> seen_before(nals, i, h265)) by {
        if seen_before(nals, i, h265) {
            let j = choose|j: int|
                0 <= j < i && is_slice((#[trigger] nals[j]).nal_type, h265) && forall|m: int|
                    j < m < i ==> !#[trigger] opens_at(nals, m, h265);
            assert(codes_slice(nals[j].nal_type, h265));
        }
        if has_slice_before(data, h265, i) {
            let j = choose|j: int|
                0 <= j < i && codes_slice((#[trigger] nals[j]).nal_type, h265) && forall|m: int|
                    j < m < i ==> !#[trigger] begins_with(data, h265, m);
            assert(is_slice(nals[j].nal_type, h265));
            assert forall|m: int| j < m < i implies !#[trigger] opens_at(nals, m, h265) by {
                assert(!begins_with(data, h265, m));
            }
        }
    }
    if i > 0 {
        assert(opens_at(nals, i, h265) == starts_unit(
            nals[i].nal_type,
            nals[i - 1].nal_type,
            seen_before(nals, i, h265),
            h265,
        ));
    }
}

/// Two slices, one directly behind the other, belong to different access
/// units.
pub proof fn adjacent_slices_are_apart(data: Seq<u8>, h265: bool, i: int)
    requires
        data.len() <= usize::MAX,
        0 <= i,
        i + 1 < nals_from(data, 0, h265).len(),
        !h265 ==> {
            let t = nals_from(data, 0, h265)[i].nal_type;
            let next = nals_from(data, 0, h265)[i + 1].nal_type;
            (t == 1 || t == 5) && (next == 1 || next == 5)
        },
        h265 ==> {
            let t = nals_from(data, 0, h265)[i].nal_type;
            let next = nals_from(data, 0, h265)[i + 1].nal_type;
            (0 <= t <= 9 || 16 <= t <= 21) && (0 <= next <= 9 || 16 <= next <= 21)
        },
    ensures
        begins_with(data, h265, i + 1),
{
    access_units_begin_where_they_must(data, h265, i + 1);
    assert(codes_slice(nals_from(data, 0, h265)[i].nal_type, h265));
    assert(has_slice_before(data, h265, i + 1));
}

/// An access unit is a keyframe if and only if a NAL unit that begins in it is
/// an IDR slice (type 5) in H.264, an IRAP picture (16 to 21) in H.265.
pub proof fn keyframes_hold_random_access_pictures(data: Seq<u8>, h265: bool, k: int)
    requires
        data.len() <= usize::MAX,
        0 <= k < units_of(data, h265).len(),
    ensures
        ({
            let nals = nals_from(data, 0, h265);
            let units = units_of(data, h265);
            let from = nals[0].start + units_image(units.take(k)).len();
            units[k].is_keyframe <==> exists|i: int|
                0 <= i < nals.len() && from <= (#[trigger] nals[i]).start < from
                    + units[k].data.len() && (!h265 && nals[i].nal_type == 5 || h265 && 16
                    <= nals[i].nal_type <= 21)
        }),
{
    let nals = nals_from(data, 0, h265);
    let bounds = boundaries(nals, nals.len() as int, h265);
    let units = units_of(data, h265);
    lemma_nals_ordered(data, 0, h265);
    lemma_boundaries_ordered(nals, nals.len() as int, h265);
    lemma_unit_position(data, h265, k);
    let from = nals[bounds[k]].start as int;
    let end = unit_end(bounds, k, nals.len() as int);
    assert(bounds[k] < end);
    let to = if end < nals.len() {
        nals[end].start as int
    } else {
        data.len() as int
    };
    assert(units[k] == unit_at(data, nals, bounds, k, h265));
    assert(from + units[k].data.len() == to);
    assert forall|i: int| 0 <= i < nals.len() implies (from <= (#[trigger] nals[i]).start < to
        <==> bounds[k] <= i < end) by {
        if i < bounds[k] {
            assert(nals[i].start < nals[bounds[k]].start);
        } else if i > bounds[k] {
            assert(nals[bounds[k]].start < nals[i].start);
        }
        if end < nals.len() {
            if i < end {
                assert(nals[i].start < nals[end].start);
            } else if i > end {
                assert(nals[end].start < nals[i].start);
            }
        }
    }
}

/// Data of a codec without start codes is one unit, which nothing is known to
/// make a keyframe.
pub proof fn other_codecs_are_not_split(codec: VideoCodec, data: Seq<u8>)
    requires
        codec != VideoCodec::H264,
        codec != VideoCodec::H265,
    ensures
        data.len() == 0 ==> codec_units(codec, data).len() == 0,
        data.len() > 0 ==> codec_units(codec, data).len() == 1 && codec_units(codec, data)[0].data
            == data && !codec_units(codec, data)[0].is_keyframe,
        codec_units(VideoCodec::H264, data) == units_of(data, false),
        codec_units(VideoCodec::H265, data) == units_of(data, true),
{
}

} // verus!
