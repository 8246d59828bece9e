//! VP9 frame headers and the configuration record that containers carry.
//!
//! A frame begins with an uncompressed header that is read bit by bit, most
//! significant bit first: a two-bit marker, the profile, whether the frame
//! only shows an earlier one, and the frame type. A keyframe goes on with a
//! 24-bit sync code, the colour configuration and the picture size.

use vstd::prelude::*;
use vstd::string::StringExecFns;

verus! {

/// The sync code of keyframes.
pub const SYNC_CODE: u32 = 0x49_83_42;

pub const CS_BT_601: u8 = 1;

pub const CS_BT_709: u8 = 2;

pub const CS_SMPTE_170: u8 = 3;

pub const CS_SMPTE_240: u8 = 4;

pub const CS_BT_2020: u8 = 5;

pub const CS_RGB: u8 = 7;

/// Codec configuration and picture size.
#[derive(Clone, Copy, Debug, PartialEq, Eq, Structural)]
pub struct Vp9Config {
    /// Picture width in pixels; the render width where there is one.
    pub width: u32,
    /// Picture height in pixels; the render height where there is one.
    pub height: u32,
    /// Profile, 0 to 3.
    pub profile: u8,
    /// Level times ten: the lowest that the picture size fits.
    pub level: u8,
    /// Bits per component: 8, 10 or 12.
    pub bit_depth: u8,
    /// Chroma subsampling: 0 is 4:4:0, 1 is 4:2:0, 2 is 4:2:2, 3 is 4:4:4.
    pub chroma_subsampling: u8,
    /// 1 for full range.
    pub video_full_range_flag: u8,
    /// Colour primaries code.
    pub colour_primaries: u8,
    /// Transfer characteristics code.
    pub transfer_characteristics: u8,
    /// Matrix coefficients code; 0 is RGB.
    pub matrix_coefficients: u8,
}

/// Why a frame header was refused.
#[derive(Clone, Copy, Debug, PartialEq, Eq)]
pub enum Vp9Error {
    /// The data ends before the header does.
    FrameTooShort,
    /// The first two bits are not the frame marker.
    InvalidFrameMarker,
    /// The reserved bit of profile 3 is set.
    InvalidReservedBit,
    /// The keyframe has no sync code.
    InvalidSyncCode,
    /// Another fault, in words.
    ParseError(&'static str),
}

impl Vp9Error {
    /// The message text.
    pub open spec fn text(self) -> Seq<char> {
        match self {
            Vp9Error::FrameTooShort => "VP9 frame too short for header"@,
            Vp9Error::InvalidFrameMarker => "invalid VP9 frame marker (expected 0b10)"@,
            Vp9Error::InvalidReservedBit => "invalid VP9 reserved bit (profile 3 requires 0)"@,
            Vp9Error::InvalidSyncCode => "invalid VP9 sync code (expected 0x498342)"@,
            Vp9Error::ParseError(detail) => "VP9 parse error: "@ + detail@,
        }
    }

    /// The error as a message.
    pub fn message(&self) -> (message: String)
        ensures
            message@ == self.text(),
    {
        match *self {
            Vp9Error::FrameTooShort => String::from_str("VP9 frame too short for header"),
            Vp9Error::InvalidFrameMarker => String::from_str(
                "invalid VP9 frame marker (expected 0b10)",
            ),
            Vp9Error::InvalidReservedBit => String::from_str(
                "invalid VP9 reserved bit (profile 3 requires 0)",
            ),
            Vp9Error::InvalidSyncCode => String::from_str(
                "invalid VP9 sync code (expected 0x498342)",
            ),
            Vp9Error::ParseError(detail) => {
                let mut out = String::from_str("VP9 parse error: ");
                out.append(detail);
                out
            },
        }
    }
}

/// The weight of bit `k` of a byte, bit 0 being the most significant.
pub open spec fn bit_weight(k: int) -> u8 {
    if k == 0 {
        128
    } else if k == 1 {
        64
    } else if k == 2 {
        32
    } else if k == 3 {
        16
    } else if k == 4 {
        8
    } else if k == 5 {
        4
    } else if k == 6 {
        2
    } else {
        1
    }
}

/// Bit `i` of `data`.
pub open spec fn bit(data: Seq<u8>, i: int) -> int {
    data[i / 8] as int / bit_weight(i % 8) as int % 2
}

/// The number that the `n` bits of `data` from `pos` on spell.
pub open spec fn bits(data: Seq<u8>, pos: int, n: int) -> int
    decreases n,
{
    if n <= 0 {
        0
    } else {
        2 * bits(data, pos, n - 1) + bit(data, pos + n - 1)
    }
}

/// Two to the power `n`.
spec fn two_to(n: int) -> int
    decreases n,
{
    if n <= 0 {
        1
    } else {
        2 * two_to(n - 1)
    }
}

/// `n` bits spell a number below two to the power `n`.
proof fn lemma_bits_bound(data: Seq<u8>, pos: int, n: int)
    requires
        0 <= pos,
        0 <= n <= 24,
    ensures
        0 <= bits(data, pos, n) < two_to(n) <= 0x100_0000,
    decreases n,
{
    reveal_with_fuel(two_to, 25);
    if n > 0 {
        lemma_bits_bound(data, pos, n - 1);
        lemma_bit_range(data, pos + n - 1);
    }
}

proof fn lemma_bit_range(data: Seq<u8>, i: int)
    ensures
        0 <= bit(data, i) <= 1,
{
    let byte = data[i / 8] as int;
    let weight = bit_weight(i % 8) as int;
    assert(0 <= byte / weight % 2 <= 1) by (nonlinear_arith);
}

/// What a frame header announces.
#[derive(Clone, Copy, Debug, PartialEq, Eq, Structural)]
pub enum HeaderKind {
    /// An earlier frame is shown again.
    ShowExisting { index: u8 },
    /// A keyframe.
    Key,
    /// A frame that depends on others.
    Inter,
}

/// The first part of a frame header: the profile, the kind of frame, and the
/// number of bits it takes.
pub open spec fn prefix_of(data: Seq<u8>) -> Result<(u8, HeaderKind, int), Vp9Error> {
    if data.len() == 0 {
        Err(Vp9Error::FrameTooShort)
    } else if bits(data, 0, 2) != 2 {
        Err(Vp9Error::InvalidFrameMarker)
    } else {
        let profile = bit(data, 3) * 2 + bit(data, 2);
        if profile == 3 && bit(data, 4) != 0 {
            Err(Vp9Error::InvalidReservedBit)
        } else {
            let pos = if profile == 3 {
                5int
            } else {
                4int
            };
            if pos + 4 > 8 * data.len() {
                Err(Vp9Error::FrameTooShort)
            } else if bit(data, pos) == 1 {
                Ok(
                    (
                        profile as u8,
                        HeaderKind::ShowExisting { index: bits(data, pos + 1, 3) as u8 },
                        pos + 4,
                    ),
                )
            } else if bit(data, pos + 1) == 0 {
                Ok((profile as u8, HeaderKind::Key, pos + 4))
            } else {
                Ok((profile as u8, HeaderKind::Inter, pos + 4))
            }
        }
    }
}

/// Whether a frame is a keyframe, or why its header is refused.
pub open spec fn keyframe_of(data: Seq<u8>) -> Result<bool, Vp9Error> {
    match prefix_of(data) {
        Err(error) => Err(error),
        Ok((profile, HeaderKind::Key, pos)) => if pos + 24 > 8 * data.len() {
            Err(Vp9Error::FrameTooShort)
        } else if bits(data, pos, 24) != SYNC_CODE {
            Err(Vp9Error::InvalidSyncCode)
        } else {
            Ok(true)
        },
        Ok((profile, kind, pos)) => Ok(false),
    }
}

/// Reads bits, most significant first.
struct BitReader<'a> {
    data: &'a [u8],
    bit_pos: usize,
}

impl<'a> BitReader<'a> {
    /// Reads from the start of `data`.
    fn new(data: &'a [u8]) -> (reader: Self)
        ensures
            reader.data@ == data@,
            reader.bit_pos == 0,
    {
        BitReader { data, bit_pos: 0 }
    }

    /// Whether at least `n` bits are left.
    fn has(&self, n: usize) -> (yes: bool)
        requires
            self.bit_pos <= 0xFFFF,
            n <= 0xFF,
        ensures
            yes == (self.bit_pos + n <= 8 * self.data@.len()),
    {
        (self.bit_pos + n + 7) / 8 <= self.data.len()
    }

    /// Reads one bit.
    fn bit_at(&self, i: usize) -> (value: u32)
        requires
            i < 8 * self.data@.len(),
        ensures
            value == bit(self.data@, i as int),
            value <= 1,
    {
        let byte: u8 = self.data[i / 8];
        let k: usize = i % 8;
        let weight: u8 = if k == 0 {
            128
        } else if k == 1 {
            64
        } else if k == 2 {
            32
        } else if k == 3 {
            16
        } else if k == 4 {
            8
        } else if k == 5 {
            4
        } else if k == 6 {
            2
        } else {
            1
        };
        (byte / weight % 2) as u32
    }

    /// Reads `n` bits, if that many are left.
    fn read(&mut self, n: usize) -> (result: Result<u32, Vp9Error>)
        requires
            old(self).bit_pos <= 0xFFFF,
            n <= 24,
        ensures
            final(self).data@ == old(self).data@,
            old(self).bit_pos + n <= 8 * old(self).data@.len() ==> result == Ok::<u32, Vp9Error>(
                bits(old(self).data@, old(self).bit_pos as int, n as int) as u32,
            ) && bits(old(self).data@, old(self).bit_pos as int, n as int) < two_to(n as int)
                <= 0x100_0000 && 0 <= bits(old(self).data@, old(self).bit_pos as int, n as int)
                && final(self).bit_pos == old(self).bit_pos + n,
            old(self).bit_pos + n > 8 * old(self).data@.len() ==> result == Err::<u32, Vp9Error>(
                Vp9Error::FrameTooShort,
            ) && final(self).bit_pos == old(self).bit_pos,
    {
        if !self.has(n) {
            return Err(Vp9Error::FrameTooShort);
        }
        let start: usize = self.bit_pos;
        let mut value: u32 = 0;
        let mut i: usize = 0;
        while i < n
            invariant
                i <= n <= 24,
                start <= 0xFFFF,
                start + n <= 8 * self.data@.len(),
                self.data@ == old(self).data@,
                self.bit_pos == start,
                value == bits(self.data@, start as int, i as int),
            decreases n - i,
        {
            proof {
                lemma_bits_bound(self.data@, start as int, i as int);
                lemma_bits_bound(self.data@, start as int, i + 1);
            }
            value = 2 * value + self.bit_at(start + i);
            i += 1;
        }
        proof {
            lemma_bits_bound(self.data@, start as int, n as int);
        }
        self.bit_pos = start + n;
        Ok(value)
    }
}

/// Reads the first part of a frame header.
fn parse_frame_prefix(r: &mut BitReader<'_>) -> (result: Result<(u8, HeaderKind), Vp9Error>)
    requires
        old(r).bit_pos == 0,
    ensures
        final(r).data@ == old(r).data@,
        match (result, prefix_of(old(r).data@)) {
            (Ok((profile, kind)), Ok((expected, expected_kind, pos))) => profile == expected && kind
                == expected_kind && final(r).bit_pos == pos && profile <= 3 && pos <= 9,
            (Err(error), Err(expected)) => error == expected,
            _ => false,
        },
{
    let ghost data = r.data@;
    proof {
        reveal_with_fuel(bits, 2);
        reveal_with_fuel(two_to, 4);
        lemma_bit_range(data, 2);
        lemma_bit_range(data, 3);
    }
    let marker: u32 = match r.read(2) {
        Ok(value) => value,
        Err(error) => {
            return Err(error);
        },
    };
    if marker != 2 {
        return Err(Vp9Error::InvalidFrameMarker);
    }
    let profile_low: u32 = match r.read(1) {
        Ok(value) => value,
        Err(error) => {
            return Err(error);
        },
    };
    let profile_high: u32 = match r.read(1) {
        Ok(value) => value,
        Err(error) => {
            return Err(error);
        },
    };
    let profile: u8 = (profile_high * 2 + profile_low) as u8;
    if profile == 3 {
        match r.read(1) {
            Ok(reserved) => {
                if reserved != 0 {
                    return Err(Vp9Error::InvalidReservedBit);
                }
            },
            Err(error) => {
                return Err(error);
            },
        }
    }
    let ghost pos = r.bit_pos as int;
    proof {
        lemma_bit_range(data, pos);
        lemma_bit_range(data, pos + 1);
    }
    let show_existing: u32 = match r.read(1) {
        Ok(value) => value,
        Err(error) => {
            return Err(error);
        },
    };
    if show_existing == 1 {
        match r.read(3) {
            Ok(index) => {
                return Ok((profile, HeaderKind::ShowExisting { index: index as u8 }));
            },
            Err(error) => {
                return Err(error);
            },
        }
    }
    let frame_type: u32 = match r.read(1) {
        Ok(value) => value,
        Err(error) => {
            return Err(error);
        },
    };
    match r.read(2) {
        Ok(_) => {},
        Err(error) => {
            return Err(error);
        },
    }
    if frame_type == 0 {
        Ok((profile, HeaderKind::Key))
    } else {
        Ok((profile, HeaderKind::Inter))
    }
}

/// Whether a frame is a keyframe.
///
/// A keyframe must carry its sync code; a frame that shows an earlier one is
/// never a keyframe.
pub fn is_vp9_keyframe(frame: &[u8]) -> (result: Result<bool, Vp9Error>)
    ensures
        result == keyframe_of(frame@),
{
    if frame.len() == 0 {
        return Err(Vp9Error::FrameTooShort);
    }
    let mut r = BitReader::new(frame);
    let kind = match parse_frame_prefix(&mut r) {
        Ok((_, kind)) => kind,
        Err(error) => {
            return Err(error);
        },
    };
    match kind {
        HeaderKind::Key => match r.read(24) {
            Ok(code) => if code != SYNC_CODE {
                Err(Vp9Error::InvalidSyncCode)
            } else {
                Ok(true)
            },
            Err(error) => Err(error),
        },
        _ => Ok(false),
    }
}

/// Whether a buffer begins with a plausible frame header.
pub fn is_valid_vp9_frame(frame: &[u8]) -> (valid: bool)
    ensures
        valid == (keyframe_of(frame@) is Ok),
{
    match is_vp9_keyframe(frame) {
        Ok(_) => true,
        Err(_) => false,
    }
}

/// Colour primaries, transfer characteristics and matrix coefficients for
/// the colour space of a header, which says no more than this.
pub open spec fn colour_codes(color_space: int) -> (u8, u8, u8) {
    if color_space == CS_BT_601 {
        (5, 6, 5)
    } else if color_space == CS_BT_709 {
        (1, 1, 1)
    } else if color_space == CS_SMPTE_170 {
        (6, 6, 6)
    } else if color_space == CS_SMPTE_240 {
        (7, 7, 7)
    } else if color_space == CS_BT_2020 {
        (9, 14, 9)
    } else if color_space == CS_RGB {
        (2, 2, 0)
    } else {
        (2, 2, 2)
    }
}

/// The codes for a colour space.
pub fn cicp_for_color_space(color_space: u8) -> (codes: (u8, u8, u8))
    ensures
        codes == colour_codes(color_space as int),
{
    if color_space == CS_BT_601 {
        (5, 6, 5)
    } else if color_space == CS_BT_709 {
        (1, 1, 1)
    } else if color_space == CS_SMPTE_170 {
        (6, 6, 6)
    } else if color_space == CS_SMPTE_240 {
        (7, 7, 7)
    } else if color_space == CS_BT_2020 {
        (9, 14, 9)
    } else if color_space == CS_RGB {
        (2, 2, 0)
    } else {
        (2, 2, 2)
    }
}

/// The subsampling code for the two subsampling flags.
pub open spec fn subsampling_code(horizontal: bool, vertical: bool) -> u8 {
    if horizontal && vertical {
        1
    } else if horizontal {
        2
    } else if !vertical {
        3
    } else {
        0
    }
}

/// The subsampling code for the two subsampling flags.
pub fn chroma_subsampling(horizontal: bool, vertical: bool) -> (code: u8)
    ensures
        code == subsampling_code(horizontal, vertical),
{
    match (horizontal, vertical) {
        (true, true) => 1,
        (true, false) => 2,
        (false, false) => 3,
        (false, true) => 0,
    }
}

/// The lowest level that a picture of so many pixels fits.
pub open spec fn level_for_pixels(pixels: int) -> u8 {
    if pixels <= 36_864 {
        10
    } else if pixels <= 73_728 {
        11
    } else if pixels <= 122_880 {
        20
    } else if pixels <= 245_760 {
        21
    } else if pixels <= 552_960 {
        30
    } else if pixels <= 983_040 {
        31
    } else if pixels <= 2_228_224 {
        40
    } else if pixels <= 3_342_336 {
        41
    } else if pixels <= 8_912_896 {
        50
    } else if pixels <= 35_651_584 {
        60
    } else {
        61
    }
}

/// The lowest level that a picture fits by its size. Frame rate and bit rate
/// do not show in a header, so the level of the encoding may be higher.
pub fn level_for_resolution(width: u32, height: u32) -> (level: u8)
    ensures
        level == level_for_pixels(width * height),
{
    assert(width * height <= 0xFFFF_FFFF * 0xFFFF_FFFF) by (nonlinear_arith)
        requires
            width <= 0xFFFF_FFFF,
            height <= 0xFFFF_FFFF,
    ;
    let pixels: u64 = (width as u64) * (height as u64);
    if pixels <= 36_864 {
        10
    } else if pixels <= 73_728 {
        11
    } else if pixels <= 122_880 {
        20
    } else if pixels <= 245_760 {
        21
    } else if pixels <= 552_960 {
        30
    } else if pixels <= 983_040 {
        31
    } else if pixels <= 2_228_224 {
        40
    } else if pixels <= 3_342_336 {
        41
    } else if pixels <= 8_912_896 {
        50
    } else if pixels <= 35_651_584 {
        60
    } else {
        61
    }
}

/// The colour configuration of a keyframe header.
#[derive(Clone, Copy, Debug, PartialEq, Eq, Structural)]
pub struct ColorConfig {
    pub bit_depth: u8,
    pub subsampling_x: bool,
    pub subsampling_y: bool,
    pub full_range: bool,
    pub colour_primaries: u8,
    pub transfer_characteristics: u8,
    pub matrix_coefficients: u8,
}

/// The colour configuration at bit `pos`, and the bit behind it.
pub open spec fn color_config_at(data: Seq<u8>, pos: int, profile: u8) -> Option<
    (ColorConfig, int),
> {
    let total = 8 * data.len();
    let space_at = if profile >= 2 {
        pos + 1
    } else {
        pos
    };
    let flags_at = space_at + 3;
    let color_space = bits(data, space_at, 3);
    let full_layout = profile == 1 || profile == 3;
    let end = if color_space == CS_RGB {
        flags_at + if full_layout {
            1int
        } else {
            0int
        }
    } else {
        flags_at + if full_layout {
            4int
        } else {
            1int
        }
    };
    if flags_at > total || end > total {
        None
    } else if color_space == CS_RGB && full_layout && bit(data, flags_at) != 0 {
        None
    } else {
        let codes = colour_codes(color_space);
        let rgb = color_space == CS_RGB;
        Some(
            (
                ColorConfig {
                    bit_depth: if profile < 2 {
                        8
                    } else if bit(data, pos) == 1 {
                        12
                    } else {
                        10
                    },
                    subsampling_x: !rgb && (!full_layout || bit(data, flags_at + 1) == 1),
                    subsampling_y: !rgb && (!full_layout || bit(data, flags_at + 2) == 1),
                    full_range: rgb || bit(data, flags_at) == 1,
                    colour_primaries: codes.0,
                    transfer_characteristics: codes.1,
                    matrix_coefficients: codes.2,
                },
                end,
            ),
        )
    }
}

/// Reads the colour configuration of a keyframe header.
fn parse_color_config(r: &mut BitReader<'_>, profile: u8) -> (result: Result<
    ColorConfig,
    Vp9Error,
>)
    requires
        old(r).bit_pos <= 0xFF,
    ensures
        final(r).data@ == old(r).data@,
        match (result, color_config_at(old(r).data@, old(r).bit_pos as int, profile)) {
            (Ok(config), Some((expected, end))) => config == expected && final(r).bit_pos == end,
            (Err(_), None) => true,
            _ => false,
        },
{
    let ghost data = r.data@;
    let ghost pos = r.bit_pos as int;
    proof {
        reveal_with_fuel(bits, 2);
        reveal_with_fuel(two_to, 4);
    }
    let bit_depth: u8 = if profile >= 2 {
        match r.read(1) {
            Ok(deep) => if deep == 1 {
                12
            } else {
                10
            },
            Err(error) => {
                return Err(error);
            },
        }
    } else {
        8
    };
    let color_space: u8 = match r.read(3) {
        Ok(value) => value as u8,
        Err(error) => {
            return Err(error);
        },
    };
    let full_layout = profile == 1 || profile == 3;
    let (subsampling_x, subsampling_y, full_range): (bool, bool, bool) = if color_space == CS_RGB {
        if full_layout {
            match r.read(1) {
                Ok(reserved) => {
                    if reserved != 0 {
                        return Err(Vp9Error::ParseError("VP9 reserved bit set"));
                    }
                },
                Err(error) => {
                    return Err(error);
                },
            }
        }
        (false, false, true)
    } else {
        let full_range = match r.read(1) {
            Ok(value) => value == 1,
            Err(error) => {
                return Err(error);
            },
        };
        if full_layout {
            let sx = match r.read(1) {
                Ok(value) => value == 1,
                Err(error) => {
                    return Err(error);
                },
            };
            let sy = match r.read(1) {
                Ok(value) => value == 1,
                Err(error) => {
                    return Err(error);
                },
            };
            match r.read(1) {
                Ok(_) => {},
                Err(error) => {
                    return Err(error);
                },
            }
            (sx, sy, full_range)
        } else {
            (true, true, full_range)
        }
    };
    let (colour_primaries, transfer_characteristics, matrix_coefficients): (u8, u8, u8) =
        cicp_for_color_space(color_space);
    Ok(
        ColorConfig {
            bit_depth,
            subsampling_x,
            subsampling_y,
            full_range,
            colour_primaries,
            transfer_characteristics,
            matrix_coefficients,
        },
    )
}

/// The picture size at bit `pos`: the coded size, and the render size where
/// it differs.
pub open spec fn picture_size_at(data: Seq<u8>, pos: int) -> Option<(int, int)> {
    let total = 8 * data.len();
    let width = bits(data, pos, 16) + 1;
    let height = bits(data, pos + 16, 16) + 1;
    if pos + 33 > total || width > 65535 || height > 65535 {
        None
    } else if bit(data, pos + 32) != 1 {
        Some((width, height))
    } else if pos + 65 > total {
        None
    } else {
        Some((bits(data, pos + 33, 16) + 1, bits(data, pos + 49, 16) + 1))
    }
}

/// The configuration that a keyframe announces.
pub open spec fn config_of(data: Seq<u8>) -> Option<Vp9Config> {
    match prefix_of(data) {
        Ok((profile, HeaderKind::Key, pos)) => if pos + 24 > 8 * data.len() || bits(data, pos, 24)
            != SYNC_CODE {
            None
        } else {
            match color_config_at(data, pos + 24, profile) {
                None => None,
                Some((color, size_at)) => match picture_size_at(data, size_at) {
                    None => None,
                    Some((width, height)) => Some(
                        Vp9Config {
                            width: width as u32,
                            height: height as u32,
                            profile,
                            level: level_for_pixels(width * height),
                            bit_depth: color.bit_depth,
                            chroma_subsampling: subsampling_code(
                                color.subsampling_x,
                                color.subsampling_y,
                            ),
                            video_full_range_flag: if color.full_range {
                                1
                            } else {
                                0
                            },
                            colour_primaries: color.colour_primaries,
                            transfer_characteristics: color.transfer_characteristics,
                            matrix_coefficients: color.matrix_coefficients,
                        },
                    ),
                },
            }
        },
        _ => None,
    }
}

/// Reads the picture size.
fn parse_picture_size(r: &mut BitReader<'_>) -> (result: Option<(u32, u32)>)
    requires
        old(r).bit_pos <= 0xFF,
    ensures
        match (result, picture_size_at(old(r).data@, old(r).bit_pos as int)) {
            (Some((width, height)), Some(expected)) => width == expected.0 && height == expected.1,
            (None, None) => true,
            _ => false,
        },
{
    proof {
        reveal_with_fuel(bits, 2);
    }
    if !r.has(33) {
        return None;
    }
    let width: u32 = match r.read(16) {
        Ok(value) => value + 1,
        Err(_) => {
            return None;
        },
    };
    let height: u32 = match r.read(16) {
        Ok(value) => value + 1,
        Err(_) => {
            return None;
        },
    };
    if width > 65535 || height > 65535 {
        return None;
    }
    let differs: u32 = match r.read(1) {
        Ok(value) => value,
        Err(_) => {
            return None;
        },
    };
    if differs != 1 {
        return Some((width, height));
    }
    if !r.has(32) {
        return None;
    }
    let render_width: u32 = match r.read(16) {
        Ok(value) => value + 1,
        Err(_) => {
            return None;
        },
    };
    let render_height: u32 = match r.read(16) {
        Ok(value) => value + 1,
        Err(_) => {
            return None;
        },
    };
    Some((render_width, render_height))
}

/// The configuration that a keyframe announces; nothing for other frames and
/// malformed headers.
pub fn extract_vp9_config(keyframe: &[u8]) -> (config: Option<Vp9Config>)
    ensures
        config == config_of(keyframe@),
{
    if keyframe.len() == 0 {
        return None;
    }
    let mut r = BitReader::new(keyframe);
    let profile: u8 = match parse_frame_prefix(&mut r) {
        Ok((profile, kind)) => {
            if kind != HeaderKind::Key {
                return None;
            }
            profile
        },
        Err(_) => {
            return None;
        },
    };
    match r.read(24) {
        Ok(code) => {
            if code != SYNC_CODE {
                return None;
            }
        },
        Err(_) => {
            return None;
        },
    }
    let color = match parse_color_config(&mut r, profile) {
        Ok(color) => color,
        Err(_) => {
            return None;
        },
    };
    let (width, height): (u32, u32) = match parse_picture_size(&mut r) {
        Some(size) => size,
        None => {
            return None;
        },
    };
    Some(
        Vp9Config {
            width,
            height,
            profile,
            level: level_for_resolution(width, height),
            bit_depth: color.bit_depth,
            chroma_subsampling: chroma_subsampling(color.subsampling_x, color.subsampling_y),
            video_full_range_flag: if color.full_range {
                1
            } else {
                0
            },
            colour_primaries: color.colour_primaries,
            transfer_characteristics: color.transfer_characteristics,
            matrix_coefficients: color.matrix_coefficients,
        },
    )
}

/// Only keyframes announce a configuration.
pub proof fn config_implies_keyframe(data: Seq<u8>)
    requires
        config_of(data) is Some,
    ensures
        keyframe_of(data) == Ok::<bool, Vp9Error>(true),
{
}

/// The configuration box body: a version and flags word, then the record,
/// without initialisation data.
pub open spec fn vpcc_bytes(config: Vp9Config) -> Seq<u8> {
    seq![
        1u8,
        0,
        0,
        0,
        config.profile,
        config.level,
        (config.bit_depth % 0x10 * 0x10 + config.chroma_subsampling % 8 * 2
            + config.video_full_range_flag % 2) as u8,
        config.colour_primaries,
        config.transfer_characteristics,
        config.matrix_coefficients,
        0,
        0,
    ]
}

/// Builds the configuration box body.
pub fn vpcc_payload(config: &Vp9Config) -> (payload: Vec<u8>)
    ensures
        payload@ == vpcc_bytes(*config),
{
    let packed: u8 = config.bit_depth % 0x10 * 0x10 + config.chroma_subsampling % 8 * 2
        + config.video_full_range_flag % 2;
    let payload: Vec<u8> = vec![
        1,
        0,
        0,
        0,
        config.profile,
        config.level,
        packed,
        config.colour_primaries,
        config.transfer_characteristics,
        config.matrix_coefficients,
        0,
        0,
    ];
    assert(payload@ =~= vpcc_bytes(*config));
    payload
}

} // verus!
