//! Annex B byte streams: NAL units behind start codes.

use vstd::prelude::*;

verus! {

/// The length of the start code at `i`, 0 where there is none.
pub open spec fn code_len(data: Seq<u8>, i: int) -> int {
    if 0 <= i && i + 3 <= data.len() && data[i] == 0 && data[i + 1] == 0 && data[i + 2] == 1 {
        3
    } else if 0 <= i && i + 4 <= data.len() && data[i] == 0 && data[i + 1] == 0 && data[i + 2] == 0
        && data[i + 3] == 1 {
        4
    } else {
        0
    }
}

/// The first start code at or after `from`: its position and its length.
pub fn find_start_code(data: &[u8], from: usize) -> (result: Option<(usize, usize)>)
    ensures
        match result {
            Some((pos, len)) => from <= pos && len == code_len(data@, pos as int) && len > 0 && pos
                + len <= data@.len() && forall|k: int|
                from <= k < pos ==> #[trigger] code_len(data@, k) == 0,
            None => forall|k: int| from <= k ==> #[trigger] code_len(data@, k) == 0,
        },
{
    assert(data.len() == data@.len());
    if from >= data.len() {
        return None;
    }
    let mut i: usize = from;
    while data.len() - i >= 3
        invariant
            from <= i <= data@.len(),
            data.len() == data@.len(),
            forall|k: int| from <= k < i ==> #[trigger] code_len(data@, k) == 0,
        decreases data@.len() - i,
    {
        if data[i] == 0 && data[i + 1] == 0 {
            if data[i + 2] == 1 {
                return Some((i, 3));
            }
            if data.len() - i >= 4 && data[i + 2] == 0 && data[i + 3] == 1 {
                return Some((i, 4));
            }
        }
        i += 1;
    }
    None
}

/// Whether a NAL header byte begins an IDR slice or, for H.265, one of the
/// IDR pictures or a clean random access picture.
pub open spec fn is_idr(header: u8, h265: bool) -> bool {
    if h265 {
        19 <= header as int / 2 % 0x40 <= 21
    } else {
        header as int % 0x20 == 5
    }
}

/// Whether an IDR unit stands behind the start code at `i`.
pub open spec fn idr_at(data: Seq<u8>, i: int, h265: bool) -> bool {
    let header = i + code_len(data, i);
    code_len(data, i) > 0 && header < data.len() && is_idr(data[header], h265)
}

/// Whether the stream holds an IDR unit.
pub open spec fn has_idr(data: Seq<u8>, h265: bool) -> bool {
    exists|i: int| #[trigger] idr_at(data, i, h265)
}

/// Whether the stream holds an IDR unit.
pub fn contains_idr(data: &[u8], h265: bool) -> (found: bool)
    ensures
        found == has_idr(data@, h265),
{
    assert(data.len() == data@.len());
    let mut cursor: usize = 0;
    loop
        invariant
            cursor <= data@.len(),
            data.len() == data@.len(),
            forall|k: int| k < cursor ==> !#[trigger] idr_at(data@, k, h265),
        decreases data@.len() - cursor,
    {
        match find_start_code(data, cursor) {
            None => {
                assert forall|k: int| !#[trigger] idr_at(data@, k, h265) by {
                    assert(cursor <= k ==> code_len(data@, k) == 0);
                }
                return false;
            },
            Some((pos, len)) => {
                let header: usize = pos + len;
                if header < data.len() {
                    let byte: u8 = data[header];
                    let idr = if h265 {
                        byte / 2 % 0x40 >= 19 && byte / 2 % 0x40 <= 21
                    } else {
                        byte % 0x20 == 5
                    };
                    if idr {
                        assert(idr_at(data@, pos as int, h265));
                        return true;
                    }
                }
                assert forall|k: int| k < header implies !#[trigger] idr_at(
                    data@,
                    k,
                    h265,
                ) by {
                    if cursor <= k < pos {
                        assert(code_len(data@, k) == 0);
                    }
                }
                cursor = header;
            },
        }
    }
}

/// A stream holds an IDR unit if and only if, behind two zeros and a one, some
/// byte has the type of one: 5 in H.264, where the type is in the low five bits;
/// 19 to 21 in H.265, where it is in the six bits below the topmost.
pub proof fn idr_units_are_behind_start_codes(data: Seq<u8>)
    ensures
        has_idr(data, false) <==> exists|h: int|
            3 <= h < data.len() && data[h - 3] == 0 && data[h - 2] == 0 && data[h - 1] == 1
                && #[trigger] data[h] % 32 == 5,
        has_idr(data, true) <==> exists|h: int|
            3 <= h < data.len() && data[h - 3] == 0 && data[h - 2] == 0 && data[h - 1] == 1 && 19
                <= #[trigger] data[h] / 2 % 64 <= 21,
{
    if has_idr(data, false) {
        let i = choose|i: int| #[trigger] idr_at(data, i, false);
        let h = i + code_len(data, i);
        assert(data[h] % 32 == 5);
    }
    if has_idr(data, true) {
        let i = choose|i: int| #[trigger] idr_at(data, i, true);
        let h = i + code_len(data, i);
        assert(19 <= data[h] / 2 % 64 <= 21);
    }
    assert forall|h: int|
        3 <= h < data.len() && data[h - 3] == 0 && data[h - 2] == 0 && data[h - 1] == 1 && #[trigger] data[h] % 32 == 5 implies has_idr(data, false) by {
        assert(idr_at(data, h - 3, false));
    }
    assert forall|h: int|
        3 <= h < data.len() && data[h - 3] == 0 && data[h - 2] == 0 && data[h - 1] == 1 && 19
            <= #[trigger] data[h] / 2 % 64 <= 21 implies has_idr(data, true) by {
        assert(idr_at(data, h - 3, true));
    }
}

} // verus!
