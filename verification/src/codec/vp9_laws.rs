//! What the bits of a VP9 header stand for.

use vstd::prelude::*;
use crate::codec::vp9::{self, HeaderKind, Vp9Config, Vp9Error};

verus! {

/// Two to the power of `n`.
pub open spec fn power(n: int) -> int
    decreases n,
{
    if n <= 0 {
        1
    } else {
        2 * power(n - 1)
    }
}

proof fn lemma_power_positive(n: int)
    ensures
        power(n) > 0,
    decreases n,
{
    if n > 0 {
        lemma_power_positive(n - 1);
    }
}

proof fn lemma_weight(k: int)
    requires
        0 <= k < 8,
    ensures
        vp9::bit_weight(k) == power(7 - k),
{
    reveal_with_fuel(power, 9);
}

proof fn lemma_bits_within(data: Seq<u8>, k: int, o: int, n: int)
    requires
        0 <= k,
        0 <= o,
        0 <= n,
        o + n <= 8,
    ensures
        vp9::bits(data, 8 * k + o, n) == data[k] as int / power(8 - o - n) % power(n),
    decreases n,
{
    if n > 0 {
        lemma_bits_within(data, k, o, n - 1);
        lemma_weight(o + n - 1);
        lemma_power_positive(8 - o - n);
        lemma_power_positive(n - 1);
        let b = data[k] as int;
        let t = power(8 - o - n);
        let q = b / t;
        let m = power(n - 1);
        assert(power(9 - o - n) == 2 * t);
        assert(power(n) == 2 * m);
        assert((8 * k + o + n - 1) / 8 == k && (8 * k + o + n - 1) % 8 == o + n - 1);
        vstd::arithmetic::div_mod::lemma_div_denominator(b, t, 2);
        assert(t * 2 == 2 * t);
        vstd::arithmetic::div_mod::lemma_mod_breakdown(q, 2, m);
        assert(vp9::bit(data, 8 * k + o + n - 1) == q % 2);
    } else {
        assert(power(0) == 1);
        assert(data[k] as int / power(8 - o) % 1 == 0);
    }
}

/// Fields are read from the most significant bit on, without gaps: a field is
/// its first part with the second behind it, and eight bits at a multiple of
/// eight are a byte.
pub proof fn fields_are_read_bit_by_bit(data: Seq<u8>, pos: int, a: int, b: int)
    requires
        0 <= pos,
        0 <= a,
        0 <= b,
    ensures
        vp9::bits(data, pos, a + b) == power(b) * vp9::bits(data, pos, a) + vp9::bits(
            data,
            pos + a,
            b,
        ),
        pos % 8 == 0 && pos / 8 < data.len() ==> vp9::bits(data, pos, 8) == data[pos / 8],
        pos % 8 == 0 && a + b <= 8 ==> vp9::bits(data, pos + a, b) == data[pos / 8] as int / power(
            8 - a - b,
        ) % power(b),
    decreases b,
{
    if b > 0 {
        fields_are_read_bit_by_bit(data, pos, a, b - 1);
        let x = vp9::bits(data, pos, a);
        let p = power(b - 1);
        assert(2 * (p * x) == (2 * p) * x) by (nonlinear_arith);
    } else {
        assert(power(0) * vp9::bits(data, pos, a) == vp9::bits(data, pos, a));
    }
    if pos % 8 == 0 {
        lemma_bits_within(data, pos / 8, 0, 8);
        reveal_with_fuel(power, 9);
        assert(8 * (pos / 8) == pos);
        assert(power(8) == 256 && power(0) == 1);
        if pos / 8 < data.len() {
            lemma_whole(data[pos / 8]);
        }
        if a + b <= 8 {
            lemma_bits_within(data, pos / 8, a, b);
        }
    }
}

/// A field of sixteen bits that begins `o` bits into byte `k`.
proof fn lemma_sixteen(data: Seq<u8>, k: int, o: int)
    requires
        0 <= k,
        k + 2 < data.len(),
        0 < o < 8,
    ensures
        vp9::bits(data, 8 * k + o, 16) == data[k] as int % power(8 - o) * power(8 + o) + data[k + 1]
            * power(o) + data[k + 2] as int / power(8 - o),
{
    let pos = 8 * k + o;
    fields_are_read_bit_by_bit(data, pos, 8 - o, 8 + o);
    fields_are_read_bit_by_bit(data, pos + 8 - o, 8, o);
    lemma_bits_within(data, k, o, 8 - o);
    lemma_bits_within(data, k + 1, 0, 8);
    lemma_bits_within(data, k + 2, 0, o);
    reveal_with_fuel(power, 9);
    assert(pos + 8 - o == 8 * (k + 1));
    assert(power(0) == 1 && power(8) == 256);
    let u = vp9::bits(data, pos, 8 - o);
    assert(u == data[k] as int % power(8 - o));
    assert(vp9::bits(data, 8 * (k + 1), 8) == data[k + 1]);
    let w = data[k + 2] as int / power(8 - o);
    lemma_top(data[k + 2], o);
    assert(vp9::bits(data, 8 * (k + 2), o) == w);
    let x = data[k + 1] as int;
    assert(power(8 + o) * u == u * power(8 + o)) by (nonlinear_arith);
    assert(power(o) * x == x * power(o)) by (nonlinear_arith);
}

proof fn lemma_whole(b: u8)
    ensures
        b as int / power(0) % power(8) == b,
        b as int / power(0) == b,
{
    reveal_with_fuel(power, 9);
    assert(power(0) == 1 && power(8) == 256);
    assert(b as int / 1 == b as int);
    assert(b as int % 256 == b as int);
}

proof fn lemma_top(b: u8, o: int)
    requires
        0 < o < 8,
    ensures
        b as int / power(8 - o) % power(o) == b as int / power(8 - o),
{
    reveal_with_fuel(power, 9);
    let v = b as int;
    if o == 1 {
        assert(power(7) == 128 && v / 128 % 2 == v / 128);
    } else if o == 2 {
        assert(power(6) == 64 && power(2) == 4 && v / 64 % 4 == v / 64);
    } else if o == 3 {
        assert(power(5) == 32 && power(3) == 8 && v / 32 % 8 == v / 32);
    } else if o == 4 {
        assert(power(4) == 16 && v / 16 % 16 == v / 16);
    } else if o == 5 {
        assert(power(3) == 8 && power(5) == 32 && v / 8 % 32 == v / 8);
    } else if o == 6 {
        assert(power(2) == 4 && power(6) == 64 && v / 4 % 64 == v / 4);
    } else {
        assert(power(1) == 2 && power(7) == 128 && v / 2 % 128 == v / 2);
    }
}

proof fn lemma_bits_bound(data: Seq<u8>, pos: int, n: int)
    requires
        0 <= pos,
    ensures
        0 <= vp9::bits(data, pos, n) < power(n),
    decreases n,
{
    if n > 0 {
        lemma_bits_bound(data, pos, n - 1);
        let i = pos + n - 1;
        assert(0 <= vp9::bit(data, i) <= 1);
    }
}

/// A frame begins with the bits 1 and 0, then the low and the high bit of the
/// profile. In profiles 0 to 2 the next bits tell whether an earlier frame is
/// shown again and whether this one depends on others; in profile 3 a zero
/// stands in front of them.
#[verifier::spinoff_prover]
pub proof fn first_byte_of_a_frame(data: Seq<u8>)
    requires
        data.len() > 0,
    ensures
        data[0] / 64 != 2 ==> vp9::prefix_of(data) == Err::<(u8, HeaderKind, int), Vp9Error>(
            Vp9Error::InvalidFrameMarker,
        ),
        data[0] / 64 == 2 ==> ({
            let profile = data[0] / 32 % 2 + 2 * (data[0] / 16 % 2);
            &&& profile < 3 && data[0] / 8 % 2 == 1 ==> vp9::prefix_of(data) == Ok::<
                (u8, HeaderKind, int),
                Vp9Error,
            >((profile as u8, HeaderKind::ShowExisting { index: data[0] % 8 }, 8int))
            &&& profile < 3 && data[0] / 4 % 4 == 0 ==> vp9::prefix_of(data) == Ok::<
                (u8, HeaderKind, int),
                Vp9Error,
            >((profile as u8, HeaderKind::Key, 8int))
            &&& profile < 3 && data[0] / 4 % 4 == 1 ==> vp9::prefix_of(data) == Ok::<
                (u8, HeaderKind, int),
                Vp9Error,
            >((profile as u8, HeaderKind::Inter, 8int))
            &&& profile == 3 && data[0] / 8 % 2 == 1 ==> vp9::prefix_of(data) == Err::<
                (u8, HeaderKind, int),
                Vp9Error,
            >(Vp9Error::InvalidReservedBit)
            &&& profile == 3 && data[0] / 8 % 2 == 0 && data.len() == 1 ==> vp9::prefix_of(data)
                == Err::<(u8, HeaderKind, int), Vp9Error>(Vp9Error::FrameTooShort)
            &&& profile == 3 && data[0] / 8 % 2 == 0 && data.len() > 1 && data[0] / 4 % 2 == 1
                ==> vp9::prefix_of(data) == Ok::<(u8, HeaderKind, int), Vp9Error>(
                (
                    3u8,
                    HeaderKind::ShowExisting { index: (2 * (data[0] % 4) + data[1] / 128) as u8 },
                    9int,
                ),
            )
            &&& profile == 3 && data[0] / 8 % 2 == 0 && data.len() > 1 && data[0] / 2 % 4 == 0
                ==> vp9::prefix_of(data) == Ok::<(u8, HeaderKind, int), Vp9Error>(
                (3u8, HeaderKind::Key, 9int),
            )
            &&& profile == 3 && data[0] / 8 % 2 == 0 && data.len() > 1 && data[0] / 2 % 4 == 1
                ==> vp9::prefix_of(data) == Ok::<(u8, HeaderKind, int), Vp9Error>(
                (3u8, HeaderKind::Inter, 9int),
            )
        }),
{
    lemma_bits_within(data, 0, 0, 2);
    lemma_bits_within(data, 0, 5, 3);
    let b = data[0] as int;
    assert(power(6) == 64 && power(2) == 4 && power(3) == 8 && power(0) == 1) by {
        reveal_with_fuel(power, 9);
    }
    assert(vp9::bits(data, 0, 2) == b / 64) by {
        assert(b / 64 % 4 == b / 64);
    }
    assert(vp9::bits(data, 5, 3) == b % 8);
    assert(vp9::bit(data, 2) == b / 32 % 2);
    assert(vp9::bit(data, 3) == b / 16 % 2);
    assert(vp9::bit(data, 4) == b / 8 % 2);
    assert(vp9::bit(data, 5) == b / 4 % 2);
    assert(vp9::bit(data, 6) == b / 2 % 2);
    assert(vp9::bit(data, 7) == b % 2);
    if data.len() > 1 {
        let c = data[1] as int;
        assert(vp9::bit(data, 8) == c / 128);
        assert(vp9::bits(data, 6, 3) == 2 * (b % 4) + c / 128) by {
            reveal_with_fuel(vp9::bits, 4);
        }
    }
}

/// A keyframe has the three bytes 0x49, 0x83 and 0x42 behind the first byte,
/// in profile 3 one bit later. A frame without them is refused, one that ends
/// in them is too short; frames that are no keyframes have none.
pub proof fn keyframes_have_the_sync_code(data: Seq<u8>)
    requires
        vp9::prefix_of(data) matches Ok((profile, kind, pos)) && kind == HeaderKind::Key,
    ensures
        data[0] / 16 % 4 != 3 && data.len() >= 4 ==> {
            &&& vp9::keyframe_of(data) == Ok::<bool, Vp9Error>(true) <==> data[1] == 0x49 && data[2]
                == 0x83 && data[3] == 0x42
            &&& vp9::keyframe_of(data) == Ok::<bool, Vp9Error>(true) || vp9::keyframe_of(data)
                == Err::<bool, Vp9Error>(Vp9Error::InvalidSyncCode)
        },
        data[0] / 16 % 4 == 3 && data.len() >= 5 ==> {
            &&& vp9::keyframe_of(data) == Ok::<bool, Vp9Error>(true) <==> data[1] % 128 == 0x24
                && data[2] == 0xC1 && data[3] == 0xA1 && data[4] < 128
            &&& vp9::keyframe_of(data) == Ok::<bool, Vp9Error>(true) || vp9::keyframe_of(data)
                == Err::<bool, Vp9Error>(Vp9Error::InvalidSyncCode)
        },
        data[0] / 16 % 4 != 3 && data.len() < 4 || data[0] / 16 % 4 == 3 && data.len() < 5
            ==> vp9::keyframe_of(data) == Err::<bool, Vp9Error>(Vp9Error::FrameTooShort),
{
    first_byte_of_a_frame(data);
    reveal_with_fuel(power, 18);
    fields_are_read_bit_by_bit(data, 8, 8, 16);
    fields_are_read_bit_by_bit(data, 16, 8, 8);
    fields_are_read_bit_by_bit(data, 24, 8, 0);
    assert(power(8) == 256 && power(16) == 65536);
    fields_are_read_bit_by_bit(data, 9, 7, 17);
    fields_are_read_bit_by_bit(data, 16, 8, 9);
    fields_are_read_bit_by_bit(data, 24, 8, 1);
    lemma_bits_within(data, 1, 1, 7);
    lemma_bits_within(data, 4, 0, 1);
    assert(power(7) == 128 && power(0) == 1 && power(1) == 2 && power(9) == 512 && power(17)
        == 131072);
    if data.len() >= 5 {
        lemma_whole(data[1]);
        assert(vp9::bits(data, 9, 7) == data[1] as int % 128);
        assert(vp9::bits(data, 32, 1) == data[4] as int / 128) by {
            lemma_top(data[4], 1);
        }
        assert(vp9::bits(data, 9, 24) == 131072 * (data[1] as int % 128) + 512 * data[2] + 2
            * data[3] + data[4] as int / 128);
    }
    assert(data[0] / 16 % 4 == 3 <==> data[0] / 32 % 2 + 2 * (data[0] / 16 % 2) == 3);
}

/// Frames that are no keyframes are told apart from them.
pub proof fn other_frames_are_no_keyframes(data: Seq<u8>)
    ensures
        vp9::prefix_of(data) matches Ok((profile, kind, pos)) ==> kind != HeaderKind::Key
            ==> vp9::keyframe_of(data) == Ok::<bool, Vp9Error>(false),
        vp9::prefix_of(data) matches Err(error) ==> vp9::keyframe_of(data) == Err::<
            bool,
            Vp9Error,
        >(error),
        data.len() == 0 ==> vp9::keyframe_of(data) == Err::<bool, Vp9Error>(
            Vp9Error::FrameTooShort,
        ),
{
}

/// A keyframe of profile 0: behind the sync code stand three bits for the
/// colour space, one for the range, and one less than the width and the height
/// in sixteen bits each. Components have eight bits, and the colours half the
/// resolution both ways.
pub proof fn profile_zero_keyframes(data: Seq<u8>)
    requires
        data.len() >= 9,
        data[0] / 4 == 0x20,
        data[1] == 0x49 && data[2] == 0x83 && data[3] == 0x42,
        data[4] / 32 != 7,
    ensures
        ({
            let width = data[4] % 16 * 4096 + data[5] * 16 + data[6] / 16 + 1;
            let height = data[6] % 16 * 4096 + data[7] * 16 + data[8] / 16 + 1;
            &&& width > 65535 || height > 65535 ==> vp9::config_of(data) is None
            &&& width <= 65535 && height <= 65535 && data[8] / 8 % 2 == 0 ==> {
                &&& vp9::config_of(data) is Some
                &&& vp9::config_of(data)->0.width == width
                &&& vp9::config_of(data)->0.height == height
            }
            &&& vp9::config_of(data) matches Some(config) ==> {
                &&& config.profile == 0
                &&& config.bit_depth == 8
                &&& config.chroma_subsampling == 1
                &&& config.video_full_range_flag == data[4] / 16 % 2
                &&& (
                config.colour_primaries,
                config.transfer_characteristics,
                config.matrix_coefficients,
            ) == vp9::colour_codes(data[4] as int / 32)
                &&& config.level == vp9::level_for_pixels(config.width * config.height)
            }
        }),
{
    first_byte_of_a_frame(data);
    reveal_with_fuel(power, 18);
    fields_are_read_bit_by_bit(data, 8, 8, 16);
    fields_are_read_bit_by_bit(data, 16, 8, 8);
    fields_are_read_bit_by_bit(data, 24, 8, 0);
    lemma_bits_within(data, 4, 0, 3);
    lemma_bits_within(data, 4, 3, 1);
    lemma_sixteen(data, 4, 4);
    lemma_sixteen(data, 6, 4);
    assert(power(8) == 256 && power(16) == 65536 && power(3) == 8 && power(5) == 32 && power(4)
        == 16 && power(12) == 4096 && power(0) == 1 && power(1) == 2);
    assert(vp9::bits(data, 8, 24) == vp9::SYNC_CODE);
    assert(vp9::bits(data, 32, 3) == data[4] as int / 32) by {
        lemma_top(data[4], 3);
    }
    assert(vp9::bit(data, 35) == data[4] as int / 16 % 2);
    assert(vp9::bit(data, 68) == data[8] as int / 8 % 2);
    lemma_bits_bound(data, 69, 16);
    lemma_bits_bound(data, 85, 16);
}

/// A keyframe of profile 2: a bit in front of the colour space tells whether
/// components have ten bits or twelve.
pub proof fn profile_two_keyframes(data: Seq<u8>)
    requires
        data.len() >= 9,
        data[0] / 4 == 0x24,
        data[1] == 0x49 && data[2] == 0x83 && data[3] == 0x42,
        data[4] / 16 % 8 != 7,
    ensures
        ({
            let width = data[4] % 8 * 8192 + data[5] * 32 + data[6] / 8 + 1;
            let height = data[6] % 8 * 8192 + data[7] * 32 + data[8] / 8 + 1;
            &&& width <= 65535 && height <= 65535 && data[8] / 4 % 2 == 0 ==> {
                &&& vp9::config_of(data) is Some
                &&& vp9::config_of(data)->0.width == width
                &&& vp9::config_of(data)->0.height == height
            }
            &&& vp9::config_of(data) matches Some(config) ==> {
                &&& config.profile == 2
                &&& config.bit_depth == (if data[4] >= 128 {
                    12int
                } else {
                    10int
                })
                &&& config.chroma_subsampling == 1
                &&& config.video_full_range_flag == data[4] / 8 % 2
                &&& (
                config.colour_primaries,
                config.transfer_characteristics,
                config.matrix_coefficients,
            ) == vp9::colour_codes(data[4] as int / 16 % 8)
            }
        }),
{
    first_byte_of_a_frame(data);
    reveal_with_fuel(power, 18);
    fields_are_read_bit_by_bit(data, 8, 8, 16);
    fields_are_read_bit_by_bit(data, 16, 8, 8);
    fields_are_read_bit_by_bit(data, 24, 8, 0);
    lemma_bits_within(data, 4, 1, 3);
    lemma_sixteen(data, 4, 5);
    lemma_sixteen(data, 6, 5);
    assert(power(8) == 256 && power(16) == 65536 && power(3) == 8 && power(5) == 32 && power(4)
        == 16 && power(13) == 8192 && power(0) == 1 && power(1) == 2);
    assert(vp9::bits(data, 8, 24) == vp9::SYNC_CODE);
    assert(vp9::bits(data, 33, 3) == data[4] as int / 16 % 8);
    assert(vp9::bit(data, 32) == data[4] as int / 128 % 2);
    assert(vp9::bit(data, 36) == data[4] as int / 8 % 2);
    assert(vp9::bit(data, 69) == data[8] as int / 4 % 2);
}

/// A keyframe of profile 1: behind the range stand two bits for the resolution
/// of the colours, along the line and down the picture, and one that is not
/// used.
pub proof fn profile_one_keyframes(data: Seq<u8>)
    requires
        data.len() >= 9,
        data[0] / 4 == 0x28,
        data[1] == 0x49 && data[2] == 0x83 && data[3] == 0x42,
        data[4] / 32 != 7,
    ensures
        ({
            let width = data[4] % 2 * 32768 + data[5] * 128 + data[6] / 2 + 1;
            let height = data[6] % 2 * 32768 + data[7] * 128 + data[8] / 2 + 1;
            &&& width <= 65535 && height <= 65535 && data[8] % 2 == 0 ==> {
                &&& vp9::config_of(data) is Some
                &&& vp9::config_of(data)->0.width == width
                &&& vp9::config_of(data)->0.height == height
            }
            &&& vp9::config_of(data) matches Some(config) ==> {
                &&& config.profile == 1
                &&& config.bit_depth == 8
                &&& data[4] / 4 % 4 == 0 ==> config.chroma_subsampling == 3
                &&& data[4] / 4 % 4 == 1 ==> config.chroma_subsampling == 0
                &&& data[4] / 4 % 4 == 2 ==> config.chroma_subsampling == 2
                &&& data[4] / 4 % 4 == 3 ==> config.chroma_subsampling == 1
                &&& config.video_full_range_flag == data[4] / 16 % 2
                &&& (
                config.colour_primaries,
                config.transfer_characteristics,
                config.matrix_coefficients,
            ) == vp9::colour_codes(data[4] as int / 32)
            }
        }),
{
    first_byte_of_a_frame(data);
    reveal_with_fuel(power, 18);
    fields_are_read_bit_by_bit(data, 8, 8, 16);
    fields_are_read_bit_by_bit(data, 16, 8, 8);
    fields_are_read_bit_by_bit(data, 24, 8, 0);
    lemma_bits_within(data, 4, 0, 3);
    lemma_sixteen(data, 4, 7);
    lemma_sixteen(data, 6, 7);
    assert(power(8) == 256 && power(16) == 65536 && power(3) == 8 && power(5) == 32 && power(7)
        == 128 && power(15) == 32768 && power(0) == 1 && power(1) == 2);
    assert(vp9::bits(data, 8, 24) == vp9::SYNC_CODE);
    assert(vp9::bits(data, 32, 3) == data[4] as int / 32) by {
        lemma_top(data[4], 3);
    }
    assert(vp9::bit(data, 35) == data[4] as int / 16 % 2);
    assert(vp9::bit(data, 36) == data[4] as int / 8 % 2);
    assert(vp9::bit(data, 37) == data[4] as int / 4 % 2);
    assert(vp9::bit(data, 71) == data[8] as int % 2);
}

/// Where a frame tells the size to show it at, that is the size of the
/// picture: one less than each in sixteen bits, behind the flag.
pub proof fn shown_size_is_taken(data: Seq<u8>, pos: int)
    requires
        0 <= pos,
        pos + 65 <= 8 * data.len(),
        vp9::bit(data, pos + 32) == 1,
        vp9::bits(data, pos, 16) < 65535,
        vp9::bits(data, pos + 16, 16) < 65535,
    ensures
        vp9::picture_size_at(data, pos) == Some(
            (vp9::bits(data, pos + 33, 16) + 1, vp9::bits(data, pos + 49, 16) + 1),
        ),
{
}

/// The levels, each with the most pixels that fit it.
pub proof fn levels_of_the_picture_sizes(pixels: int)
    ensures
        vp9::level_for_pixels(pixels) <= 10 <==> pixels <= 36_864,
        vp9::level_for_pixels(pixels) <= 11 <==> pixels <= 73_728,
        vp9::level_for_pixels(pixels) <= 20 <==> pixels <= 122_880,
        vp9::level_for_pixels(pixels) <= 21 <==> pixels <= 245_760,
        vp9::level_for_pixels(pixels) <= 30 <==> pixels <= 552_960,
        vp9::level_for_pixels(pixels) <= 31 <==> pixels <= 983_040,
        vp9::level_for_pixels(pixels) <= 40 <==> pixels <= 2_228_224,
        vp9::level_for_pixels(pixels) <= 41 <==> pixels <= 3_342_336,
        vp9::level_for_pixels(pixels) <= 50 <==> pixels <= 8_912_896,
        vp9::level_for_pixels(pixels) <= 60 <==> pixels <= 35_651_584,
        10 <= vp9::level_for_pixels(pixels) <= 61,
        pixels <= 36_864 ==> vp9::level_for_pixels(pixels) == 10,
        36_864 < pixels <= 73_728 ==> vp9::level_for_pixels(pixels) == 11,
        73_728 < pixels <= 122_880 ==> vp9::level_for_pixels(pixels) == 20,
        122_880 < pixels <= 245_760 ==> vp9::level_for_pixels(pixels) == 21,
        245_760 < pixels <= 552_960 ==> vp9::level_for_pixels(pixels) == 30,
        552_960 < pixels <= 983_040 ==> vp9::level_for_pixels(pixels) == 31,
        983_040 < pixels <= 2_228_224 ==> vp9::level_for_pixels(pixels) == 40,
        2_228_224 < pixels <= 3_342_336 ==> vp9::level_for_pixels(pixels) == 41,
        3_342_336 < pixels <= 8_912_896 ==> vp9::level_for_pixels(pixels) == 50,
        8_912_896 < pixels <= 35_651_584 ==> vp9::level_for_pixels(pixels) == 60,
        35_651_584 < pixels ==> vp9::level_for_pixels(pixels) == 61,
{
}

/// The colour codes of the colour spaces: primaries, transfer, matrix.
pub proof fn codes_of_the_colour_spaces(space: int)
    ensures
        space == 1 ==> vp9::colour_codes(space) == (5u8, 6u8, 5u8),
        space == 2 ==> vp9::colour_codes(space) == (1u8, 1u8, 1u8),
        space == 3 ==> vp9::colour_codes(space) == (6u8, 6u8, 6u8),
        space == 4 ==> vp9::colour_codes(space) == (7u8, 7u8, 7u8),
        space == 5 ==> vp9::colour_codes(space) == (9u8, 14u8, 9u8),
        space == 7 ==> vp9::colour_codes(space) == (2u8, 2u8, 0u8),
        space <= 0 || space == 6 || space > 7 ==> vp9::colour_codes(space) == (2u8, 2u8, 2u8),
{
}

/// The configuration record is read back field by field: behind a version of 1
/// and three zero bytes the profile and the level, then the depth in four bits,
/// the resolution of the colours in three and the range in one, the three
/// colour codes, and a length of zero.
pub proof fn configuration_record_is_read_back(config: Vp9Config)
    requires
        config.bit_depth < 16,
        config.chroma_subsampling < 8,
        config.video_full_range_flag < 2,
    ensures
        ({
            let bytes = vp9::vpcc_bytes(config);
            &&& bytes.len() == 12
            &&& bytes[0] == 1 && bytes[1] == 0 && bytes[2] == 0 && bytes[3] == 0
            &&& bytes[4] == config.profile
            &&& bytes[5] == config.level
            &&& bytes[6] / 16 == config.bit_depth
            &&& bytes[6] / 2 % 8 == config.chroma_subsampling
            &&& bytes[6] % 2 == config.video_full_range_flag
            &&& bytes[7] == config.colour_primaries
            &&& bytes[8] == config.transfer_characteristics
            &&& bytes[9] == config.matrix_coefficients
            &&& bytes[10] == 0 && bytes[11] == 0
        }),
{
}

/// The colours of a keyframe: the even profiles hold less colour than light in
/// both directions, the odd ones tell it; the higher two profiles have a bit for
/// the depth, 10 or 12. Red, green and blue are in full and in full range, and
/// for the odd profiles alone.
pub proof fn colours_by_profile(data: Seq<u8>, pos: int, profile: u8)
    requires
        profile <= 3,
    ensures
        vp9::color_config_at(data, pos, profile) matches Some((config, end)) ==> ({
            let at = pos + profile / 2;
            let space = vp9::bits(data, at, 3);
            &&& end <= 8 * data.len()
            &&& config.bit_depth == (if profile < 2 {
                8
            } else {
                10 + 2 * vp9::bit(data, pos)
            })
            &&& space == 7 ==> {
                &&& config.full_range && !config.subsampling_x && !config.subsampling_y
                &&& profile % 2 == 1 ==> end == at + 4 && vp9::bit(data, at + 3) == 0
                &&& profile % 2 == 0 ==> end == at + 3
            }
            &&& space != 7 ==> {
                &&& config.full_range <==> vp9::bit(data, at + 3) == 1
                &&& profile % 2 == 0 ==> config.subsampling_x && config.subsampling_y && end == at
                    + 4
                &&& profile % 2 == 1 ==> end == at + 7 && (config.subsampling_x <==> vp9::bit(
                    data,
                    at + 4,
                ) == 1) && (config.subsampling_y <==> vp9::bit(data, at + 5) == 1)
            }
        }),
        vp9::color_config_at(data, pos, profile) is None <==> ({
            let at = pos + profile / 2;
            let space = vp9::bits(data, at, 3);
            ||| at + 3 > 8 * data.len()
            ||| space != 7 && at + (if profile % 2 == 0 {
                4int
            } else {
                7int
            }) > 8 * data.len()
            ||| space == 7 && profile % 2 == 1 && (at + 4 > 8 * data.len() || vp9::bit(
                data,
                at + 3,
            ) != 0)
        }),
{
    lemma_bit(data, pos);
}

proof fn lemma_bit(data: Seq<u8>, pos: int)
    ensures
        vp9::bit(data, pos) == 0 || vp9::bit(data, pos) == 1,
{
}

} // verus!
