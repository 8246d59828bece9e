//! Integer timestamps.
//!
//! Times are whole ticks of a track's timescale, so that 29.97 fps video,
//! 44.1 kHz audio and very long recordings stay exact.

use vstd::prelude::*;
use crate::api::MuxerError;

verus! {

/// Ticks per second of a video track.
pub const VIDEO_TIMESCALE: u32 = 90_000;

/// Ticks per second of an Opus track.
pub const OPUS_TIMESCALE: u32 = 48_000;

/// Ticks per second of a subtitle track.
pub const SUBTITLE_TIMESCALE: u32 = 1_000;

/// Ticks per second of a whole file.
pub const MOVIE_TIMESCALE: u32 = 1_000;

/// Ticks per second. Never zero.
#[derive(Debug, Clone, Copy, PartialEq, Eq, Hash)]
pub struct Timescale {
    ticks: u32,
}

impl Timescale {
    #[verifier::type_invariant]
    spec fn nonzero(self) -> bool {
        self.ticks > 0
    }

    /// Ticks per second.
    pub closed spec fn per_second(self) -> u32 {
        self.ticks
    }

    /// A timescale of `value` ticks per second.
    pub fn new(value: u32) -> (scale: Self)
        requires
            value != 0,
        ensures
            scale.per_second() == value,
    {
        Timescale { ticks: value }
    }

    /// Ticks per second.
    pub fn get(self) -> (ticks: u32)
        ensures
            ticks == self.per_second(),
            ticks > 0,
    {
        proof {
            use_type_invariant(self);
        }
        self.ticks
    }

    /// A timescale of `value` ticks per second.
    pub fn const_new(value: u32) -> (scale: Self)
        requires
            value != 0,
        ensures
            scale.per_second() == value,
    {
        Timescale { ticks: value }
    }
}

/// Times of a sample. The duration is explicit and, in a valid sample, not
/// zero.
#[derive(Debug, Clone, Copy, PartialEq, Eq, Hash, Structural)]
pub struct SampleTime {
    /// Presentation time.
    pub pts: i64,
    /// Decode time.
    pub dts: i64,
    /// Duration.
    pub duration: u32,
}

impl SampleTime {
    /// The times of a sample; a zero duration is rejected.
    pub fn new(pts: i64, dts: i64, duration: u32) -> (result: Result<Self, MuxerError>)
        ensures
            match result {
                Ok(time) => duration != 0 && time == (SampleTime { pts, dts, duration }),
                Err(error) => duration == 0 && error == MuxerError::ZeroDuration,
            },
    {
        if duration == 0 {
            return Err(MuxerError::ZeroDuration);
        }
        Ok(SampleTime { pts, dts, duration })
    }

    /// The distance from decode to presentation, or why it has no place in
    /// 32 signed bits.
    pub open spec fn offset(self) -> Result<i32, MuxerError> {
        let offset = self.pts - self.dts;
        if !(i64::MIN <= offset <= i64::MAX) {
            Err(MuxerError::TimestampOverflow)
        } else if !(i32::MIN <= offset <= i32::MAX) {
            Err(MuxerError::CompositionOffsetOutOfRange { pts: self.pts, dts: self.dts })
        } else {
            Ok(offset as i32)
        }
    }

    /// The distance from decode to presentation.
    pub fn composition_offset(self) -> (result: Result<i32, MuxerError>)
        ensures
            result == self.offset(),
    {
        let offset: i128 = self.pts as i128 - self.dts as i128;
        if offset < i64::MIN as i128 || offset > i64::MAX as i128 {
            return Err(MuxerError::TimestampOverflow);
        }
        if offset < i32::MIN as i128 || offset > i32::MAX as i128 {
            return Err(
                MuxerError::CompositionOffsetOutOfRange { pts: self.pts, dts: self.dts },
            );
        }
        Ok(offset as i32)
    }

    /// The decode time at which the sample ends.
    pub fn decode_end(self) -> (result: Result<i64, MuxerError>)
        ensures
            match result {
                Ok(end) => end == self.dts + self.duration,
                Err(error) => self.dts + self.duration > i64::MAX && error
                    == MuxerError::TimestampOverflow,
            },
    {
        let end: i128 = self.dts as i128 + self.duration as i128;
        if end > i64::MAX as i128 {
            return Err(MuxerError::TimestampOverflow);
        }
        Ok(end as i64)
    }
}

/// An encoded access unit and its times.
#[derive(Debug, Clone, Copy)]
pub struct EncodedSample<'a> {
    /// The encoded bytes.
    pub data: &'a [u8],
    /// The times, in ticks of the track's timescale.
    pub timing: SampleTime,
    /// Whether decoding can start here.
    pub is_sync: bool,
}

/// A subtitle cue, in ticks of the track's timescale.
#[derive(Debug, Clone, Copy, PartialEq, Eq, Hash)]
pub struct SubtitleCue<'a> {
    /// When the text appears.
    pub start: i64,
    /// How long it stays.
    pub duration: u32,
    /// The text.
    pub text: &'a str,
}

impl<'a> SubtitleCue<'a> {
    /// A cue; a zero duration, then a negative start, is rejected.
    pub fn new(start: i64, duration: u32, text: &'a str) -> (result: Result<Self, MuxerError>)
        ensures
            match result {
                Ok(cue) => duration != 0 && start >= 0 && cue.start == start && cue.duration
                    == duration && cue.text == text,
                Err(error) => error == if duration == 0 {
                    MuxerError::ZeroDuration
                } else {
                    MuxerError::NegativeSubtitleDts { dts: start }
                } && (duration == 0 || start < 0),
            },
    {
        if duration == 0 {
            return Err(MuxerError::ZeroDuration);
        }
        if start < 0 {
            return Err(MuxerError::NegativeSubtitleDts { dts: start });
        }
        Ok(SubtitleCue { start, duration, text })
    }
}

/// `value` ticks of `from` per second, in ticks of `to` per second, rounded
/// to the nearest tick and up where two are equally near.
pub open spec fn rescaled(value: int, from: int, to: int) -> int {
    let numerator = value * to;
    if 2 * (numerator % from) >= from {
        numerator / from + 1
    } else {
        numerator / from
    }
}

/// No other number of ticks is nearer to the exact time than the rescaled
/// one.
pub proof fn rescaled_is_nearest(value: int, from: int, to: int, other: int)
    requires
        from > 0,
    ensures
        distance(rescaled(value, from, to) * from, value * to) <= distance(
            other * from,
            value * to,
        ),
        2 * distance(rescaled(value, from, to) * from, value * to) <= from,
{
    let numerator = value * to;
    let q = numerator / from;
    let r = numerator % from;
    vstd::arithmetic::div_mod::lemma_fundamental_div_mod(numerator, from);
    assert(numerator == from * q + r);
    assert(from * q == q * from) by (nonlinear_arith);
    assert((q + 1) * from == q * from + from) by (nonlinear_arith);
    if other <= q {
        assert(other * from <= q * from) by (nonlinear_arith)
            requires
                other <= q,
                from > 0,
        ;
    } else {
        assert(other * from >= (q + 1) * from) by (nonlinear_arith)
            requires
                other >= q + 1,
                from > 0,
        ;
    }
}

/// The distance between two numbers.
pub open spec fn distance(a: int, b: int) -> int {
    if a >= b {
        a - b
    } else {
        b - a
    }
}

/// Rescaling to the same timescale changes nothing.
pub proof fn rescaled_to_same_scale(value: int, scale: int)
    requires
        scale > 0,
    ensures
        rescaled(value, scale, scale) == value,
{
    vstd::arithmetic::div_mod::lemma_mod_multiples_basic(value, scale);
    vstd::arithmetic::div_mod::lemma_div_multiples_vanish(value, scale);
    assert(value * scale == scale * value) by (nonlinear_arith);
}

/// Rescaling keeps the order of times.
pub proof fn rescaled_is_monotone(earlier: int, later: int, from: int, to: int)
    requires
        earlier <= later,
        from > 0,
        to >= 0,
    ensures
        rescaled(earlier, from, to) <= rescaled(later, from, to),
{
    let a = earlier * to;
    let b = later * to;
    assert(a <= b) by (nonlinear_arith)
        requires
            a == earlier * to,
            b == later * to,
            earlier <= later,
            to >= 0,
    ;
    vstd::arithmetic::div_mod::lemma_fundamental_div_mod(a, from);
    vstd::arithmetic::div_mod::lemma_fundamental_div_mod(b, from);
    vstd::arithmetic::div_mod::lemma_div_is_ordered(a, b, from);
    if a / from == b / from {
        assert(a % from <= b % from);
    }
}

/// `value` in ticks of another timescale, rounded to the nearest tick.
pub fn rescale(value: i64, from: Timescale, to: Timescale) -> (result: Result<i64, MuxerError>)
    ensures
        ({
            let exact = rescaled(
                value as int,
                from.per_second() as int,
                to.per_second() as int,
            );
            match result {
                Ok(ticks) => ticks == exact,
                Err(error) => !(i64::MIN <= exact <= i64::MAX) && error
                    == MuxerError::TimestampOverflow,
            }
        }),
{
    let scale: u32 = to.get();
    let denominator: u32 = from.get();
    let d: u128 = denominator as u128;
    let negative = value < 0;
    let size: u128 = if negative {
        (-(value as i128)) as u128
    } else {
        value as u128
    };
    assert(size * scale <= 0x8000_0000_0000_0000 * 0xFFFF_FFFF) by (nonlinear_arith)
        requires
            size <= 0x8000_0000_0000_0000,
            scale <= 0xFFFF_FFFF,
    ;
    let numerator: u128 = size * (scale as u128);
    let quotient: u128 = numerator / d;
    let remainder: u128 = numerator % d;
    let ghost signed = value * scale;
    proof {
        vstd::arithmetic::div_mod::lemma_fundamental_div_mod(numerator as int, d as int);
        assert(numerator == d * quotient + remainder);
        assert(quotient <= numerator) by (nonlinear_arith)
            requires
                numerator == d * quotient + remainder,
                d >= 1,
                remainder >= 0,
                quotient >= 0,
        ;
        if negative {
            assert(signed == -(numerator as int)) by (nonlinear_arith)
                requires
                    signed == value * scale,
                    numerator == size * scale,
                    size == -value,
            ;
            if remainder == 0 {
                let q = -(quotient as int);
                assert(signed == q * d) by (nonlinear_arith)
                    requires
                        signed == -(numerator as int),
                        numerator == d * quotient + remainder,
                        remainder == 0,
                        q == -(quotient as int),
                ;
                vstd::arithmetic::div_mod::lemma_fundamental_div_mod_converse(
                    signed,
                    d as int,
                    q,
                    0,
                );
            } else {
                let q = -(quotient as int) - 1;
                assert(signed == q * d + (d - remainder)) by (nonlinear_arith)
                    requires
                        signed == -(numerator as int),
                        numerator == d * quotient + remainder,
                        q == -(quotient as int) - 1,
                ;
                vstd::arithmetic::div_mod::lemma_fundamental_div_mod_converse(
                    signed,
                    d as int,
                    q,
                    d - remainder,
                );
            }
        }
    }
    let rounded: i128 = if !negative {
        if 2 * remainder >= d {
            quotient as i128 + 1
        } else {
            quotient as i128
        }
    } else if remainder == 0 {
        -(quotient as i128)
    } else if 2 * (d - remainder) >= d {
        -(quotient as i128)
    } else {
        -(quotient as i128) - 1
    };
    if rounded < i64::MIN as i128 || rounded > i64::MAX as i128 {
        return Err(MuxerError::TimestampOverflow);
    }
    Ok(rounded as i64)
}

/// `value` as a 32-bit field.
pub fn checked_u32(value: u64, field: &'static str) -> (result: Result<u32, MuxerError>)
    ensures
        match result {
            Ok(narrow) => narrow == value,
            Err(error) => value > u32::MAX && error == (MuxerError::FieldTooLarge {
                field,
                value,
            }),
        },
{
    if value > u32::MAX as u64 {
        return Err(MuxerError::FieldTooLarge { field, value });
    }
    Ok(value as u32)
}

/// A language code of three lowercase ASCII letters.
#[derive(Debug, Clone, Copy, PartialEq, Eq, Hash)]
pub struct LanguageCode {
    letters: [u8; 3],
}

/// Whether a byte is a lowercase ASCII letter.
pub open spec fn is_lowercase_letter(byte: u8) -> bool {
    0x61 <= byte <= 0x7A
}

/// Whether `bytes` is a language code.
pub open spec fn is_language_code(bytes: Seq<u8>) -> bool {
    &&& bytes.len() == 3
    &&& is_lowercase_letter(bytes[0])
    &&& is_lowercase_letter(bytes[1])
    &&& is_lowercase_letter(bytes[2])
}

impl LanguageCode {
    #[verifier::type_invariant]
    spec fn lowercase(self) -> bool {
        is_language_code(self.letters@)
    }

    /// The three letters.
    pub closed spec fn bytes(self) -> Seq<u8> {
        self.letters@
    }

    /// The code written as `value`.
    pub fn parse(value: &str) -> (result: Result<Self, MuxerError>)
        ensures
            match result {
                Ok(code) => is_language_code(vstd::utf8::encode_utf8(value@)) && code.bytes()
                    == vstd::utf8::encode_utf8(value@),
                Err(error) => !is_language_code(vstd::utf8::encode_utf8(value@)) && error
                    == MuxerError::InvalidLanguage,
            },
    {
        let bytes = value.as_bytes();
        if bytes.len() != 3 {
            return Err(MuxerError::InvalidLanguage);
        }
        let mut i: usize = 0;
        while i < 3
            invariant
                i <= 3,
                bytes@ == vstd::utf8::encode_utf8(value@),
                bytes@.len() == 3,
                forall|k: int| 0 <= k < i ==> is_lowercase_letter(#[trigger] bytes@[k]),
            decreases 3 - i,
        {
            if bytes[i] < 0x61 || bytes[i] > 0x7A {
                assert(!is_lowercase_letter(bytes@[i as int]));
                return Err(MuxerError::InvalidLanguage);
            }
            i += 1;
        }
        let letters: [u8; 3] = [bytes[0], bytes[1], bytes[2]];
        assert(letters@ =~= bytes@);
        Ok(LanguageCode { letters })
    }

    /// The code `und`, for an undetermined language.
    pub fn und() -> (code: Self)
        ensures
            code.bytes() == seq![0x75u8, 0x6E, 0x64],
    {
        let letters: [u8; 3] = [0x75, 0x6E, 0x64];
        assert(letters@ =~= seq![0x75u8, 0x6E, 0x64]);
        LanguageCode { letters }
    }

    /// The three letters.
    pub fn as_bytes(self) -> (letters: [u8; 3])
        ensures
            letters@ == self.bytes(),
            is_language_code(letters@),
    {
        proof {
            use_type_invariant(self);
        }
        self.letters
    }

    /// The code as text.
    pub open spec fn letters_text(self) -> Seq<char> {
        Seq::new(self.bytes().len(), |i: int| self.bytes()[i] as char)
    }

    /// The code as text.
    pub fn text(self) -> (text: String)
        ensures
            text@ == self.letters_text(),
    {
        let letters: [u8; 3] = self.as_bytes();
        let mut text = String::new();
        text.push(letters[0] as char);
        text.push(letters[1] as char);
        text.push(letters[2] as char);
        assert(text@ =~= self.letters_text());
        text
    }

    /// The code packed into fifteen bits, five per letter.
    pub fn packed_u16(self) -> (packed: u16)
        ensures
            packed == packed_language(self.bytes()),
            packed < 0x8000,
    {
        proof {
            use_type_invariant(self);
        }
        let a: u16 = (self.letters[0] - 0x60) as u16;
        let b: u16 = (self.letters[1] - 0x60) as u16;
        let c: u16 = (self.letters[2] - 0x60) as u16;
        a * 1024 + b * 32 + c
    }
}

/// A language code packed into fifteen bits, five per letter.
pub open spec fn packed_language(letters: Seq<u8>) -> int {
    (letters[0] - 0x60) * 1024 + (letters[1] - 0x60) * 32 + (letters[2] - 0x60)
}

/// A packed language code tells its three letters.
pub proof fn packed_language_is_injective(a: Seq<u8>, b: Seq<u8>)
    requires
        is_language_code(a),
        is_language_code(b),
        packed_language(a) == packed_language(b),
    ensures
        a == b,
{
    assert(a =~= b);
}

/// Limits on untrusted input.
#[derive(Debug, Clone, Copy, PartialEq, Eq, Structural)]
pub struct Limits {
    pub max_tracks: usize,
    pub max_samples_per_track: usize,
    pub max_sample_size: usize,
    pub max_parameter_set_size: usize,
    pub max_metadata_size: usize,
    pub max_subtitle_size: usize,
}

impl Default for Limits {
    fn default() -> (limits: Self)
        ensures
            limits == (Limits {
                max_tracks: 8,
                max_samples_per_track: 10_000_000,
                max_sample_size: 0x400_0000,
                max_parameter_set_size: 0x10_0000,
                max_metadata_size: 0x10_0000,
                max_subtitle_size: 65_535,
            }),
    {
        Limits {
            max_tracks: 8,
            max_samples_per_track: 10_000_000,
            max_sample_size: 64 * 1024 * 1024,
            max_parameter_set_size: 1024 * 1024,
            max_metadata_size: 1024 * 1024,
            max_subtitle_size: 65_535,
        }
    }
}

/// A rescaled time is within half a tick of the exact one, and one halfway
/// between two ticks becomes the later.
pub proof fn halves_are_rescaled_up(value: int, from: int, to: int)
    requires
        from > 0,
    ensures
        -from < 2 * (rescaled(value, from, to) * from - value * to) <= from,
{
    let n = value * to;
    assert(n == n / from * from + n % from) by (nonlinear_arith)
        requires
            from > 0,
    ;
    assert((n / from + 1) * from == n / from * from + from) by (nonlinear_arith);
}

/// A packed language holds its three letters in fifteen bits, the first
/// topmost, each as its place in the alphabet.
pub proof fn packed_letters_are_read_back(letters: Seq<u8>)
    requires
        is_language_code(letters),
    ensures
        packed_language(letters) / 1024 + 96 == letters[0],
        packed_language(letters) / 32 % 32 + 96 == letters[1],
        packed_language(letters) % 32 + 96 == letters[2],
        0 <= packed_language(letters) < 0x8000,
{
}

/// Language codes are three letters from a to z.
pub proof fn language_codes_are_three_letters(bytes: Seq<u8>)
    ensures
        is_language_code(bytes) <==> bytes.len() == 3 && forall|i: int|
            0 <= i < 3 ==> 97 <= #[trigger] bytes[i] <= 122,
{
    if bytes.len() == 3 && forall|i: int| 0 <= i < 3 ==> 97 <= #[trigger] bytes[i] <= 122 {
        assert(97 <= bytes[0] <= 122 && 97 <= bytes[1] <= 122 && 97 <= bytes[2] <= 122);
    }
}

/// The composition offset of a sample leads from its decode time to its
/// presentation time; there is one if and only if it fits 32 bits.
pub proof fn offsets_lead_to_the_presentation_time(time: SampleTime)
    ensures
        time.offset() matches Ok(offset) ==> time.dts + offset == time.pts,
        time.offset() is Ok <==> -0x8000_0000 <= time.pts - time.dts <= 0x7FFF_FFFF,
        time.offset() == Err::<i32, MuxerError>(MuxerError::TimestampOverflow) <==> time.pts
            - time.dts > 0x7FFF_FFFF_FFFF_FFFF || time.pts - time.dts < -0x8000_0000_0000_0000,
        time.offset() is Err && time.offset()->Err_0 != MuxerError::TimestampOverflow
            ==> time.offset()->Err_0 == (MuxerError::CompositionOffsetOutOfRange {
            pts: time.pts,
            dts: time.dts,
        }),
{
}

} // verus!
