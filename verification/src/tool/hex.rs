//! Frames written down as hexadecimal digits.

use vstd::prelude::*;
use vstd::string::StringExecFns;
use crate::text::{self, chars_of, is_white_space, push_decimal, string_of};

verus! {

/// The value of a hexadecimal digit.
pub open spec fn digit_value(c: char) -> Option<u8> {
    if '0' <= c && c <= '9' {
        Some((c as int - 0x30) as u8)
    } else if 'a' <= c && c <= 'f' {
        Some((c as int - 0x61 + 10) as u8)
    } else if 'A' <= c && c <= 'F' {
        Some((c as int - 0x41 + 10) as u8)
    } else {
        None
    }
}

/// The value of two characters: two digits, or a plus sign and a digit.
pub open spec fn pair_value(a: char, b: char) -> Option<u8> {
    match (digit_value(a), digit_value(b)) {
        (Some(high), Some(low)) => Some((16 * high + low) as u8),
        (None, Some(low)) => if a == '+' {
            Some(low)
        } else {
            None
        },
        _ => None,
    }
}

/// The characters that are no white space.
pub open spec fn stripped(s: Seq<char>) -> Seq<char>
    decreases s.len(),
{
    if s.len() == 0 {
        s
    } else if text::is_white(s.last()) {
        stripped(s.drop_last())
    } else {
        stripped(s.drop_last()).push(s.last())
    }
}

/// The bytes that pairs of characters stand for.
pub open spec fn pairs(s: Seq<char>) -> Option<Seq<u8>>
    decreases s.len(),
{
    if s.len() == 0 {
        Some(Seq::empty())
    } else if s.len() == 1 {
        None
    } else {
        match (pair_value(s[0], s[1]), pairs(s.skip(2))) {
            (Some(byte), Some(rest)) => Some(seq![byte] + rest),
            _ => None,
        }
    }
}

/// The bytes that a text stands for; white space has no meaning.
pub open spec fn hex_bytes(contents: Seq<char>) -> Option<Seq<u8>> {
    pairs(stripped(contents))
}

/// What keeps a text from being a frame in hexadecimal digits.
#[derive(Debug, Clone, Copy, PartialEq, Eq, Structural)]
pub enum HexFault {
    /// There are no digits.
    Empty,
    /// There is half a byte.
    OddLength,
    /// There is something that is no digit.
    InvalidCharacter(char),
}

/// The first character that is no hexadecimal digit.
pub open spec fn first_non_digit(s: Seq<char>) -> Option<char>
    decreases s.len(),
{
    if s.len() == 0 {
        None
    } else {
        match first_non_digit(s.drop_last()) {
            Some(c) => Some(c),
            None => if digit_value(s.last()) is None {
                Some(s.last())
            } else {
                None
            },
        }
    }
}

/// What is wrong with a text of hexadecimal digits, if anything. Its length
/// is that of its UTF-8 bytes.
pub open spec fn hex_fault(contents: Seq<char>) -> Option<HexFault> {
    let digits = stripped(contents);
    if digits.len() == 0 {
        Some(HexFault::Empty)
    } else if vstd::utf8::encode_utf8(digits).len() % 2 != 0 {
        Some(HexFault::OddLength)
    } else {
        match first_non_digit(digits) {
            Some(c) => Some(HexFault::InvalidCharacter(c)),
            None => None,
        }
    }
}

impl HexFault {
    /// The message text, about a file of some kind.
    pub open spec fn text(self, kind: Seq<char>) -> Seq<char> {
        match self {
            HexFault::Empty => kind + " file is empty"@,
            HexFault::OddLength => kind + " file contains odd number of hex characters"@,
            HexFault::InvalidCharacter(c) => kind + " file contains invalid hex character: "@
                + seq![c],
        }
    }

    /// The fault as a message.
    pub fn message(&self, kind: &str) -> (message: String)
        ensures
            message@ == self.text(kind@),
    {
        let mut out = String::from_str(kind);
        match *self {
            HexFault::Empty => out.append(" file is empty"),
            HexFault::OddLength => out.append(" file contains odd number of hex characters"),
            HexFault::InvalidCharacter(c) => {
                out.append(" file contains invalid hex character: ");
                let ghost before = out@;
                out.push(c);
                assert(out@ =~= before + seq![c]);
            },
        }
        out
    }
}

/// The report on a file of digits for `bytes` bytes.
pub open spec fn valid_text(kind: Seq<char>, bytes: int) -> Seq<char> {
    kind + " file is valid hex ("@ + text::decimal(bytes) + " bytes)"@
}

/// The value of a hexadecimal digit.
fn value_of(c: char) -> (value: Option<u8>)
    ensures
        value == digit_value(c),
{
    if '0' <= c && c <= '9' {
        Some((c as u32 - 0x30) as u8)
    } else if 'a' <= c && c <= 'f' {
        Some((c as u32 - 0x61 + 10) as u8)
    } else if 'A' <= c && c <= 'F' {
        Some((c as u32 - 0x41 + 10) as u8)
    } else {
        None
    }
}

/// The characters that are no white space.
fn strip(contents: &str) -> (kept: Vec<char>)
    ensures
        kept@ == stripped(contents@),
{
    let all: Vec<char> = chars_of(contents);
    let mut kept: Vec<char> = Vec::new();
    let mut i: usize = 0;
    assert(all@.take(0) =~= Seq::empty());
    while i < all.len()
        invariant
            i <= all@.len(),
            kept@ == stripped(all@.take(i as int)),
        decreases all@.len() - i,
    {
        assert(all@.take(i + 1).drop_last() =~= all@.take(i as int));
        if !is_white_space(all[i]) {
            kept.push(all[i]);
        }
        i = i + 1;
    }
    assert(all@.take(i as int) =~= all@);
    kept
}

/// The bytes that a text of hexadecimal digits stands for, if it does.
pub fn decode_hex(contents: &str) -> (bytes: Option<Vec<u8>>)
    ensures
        match bytes {
            Some(bytes) => hex_bytes(contents@) == Some(bytes@),
            None => hex_bytes(contents@) is None,
        },
{
    let digits: Vec<char> = strip(contents);
    let mut out: Vec<u8> = Vec::new();
    let mut i: usize = 0;
    assert(digits@.skip(0) =~= digits@);
    assert(pairs(digits@) == match pairs(digits@.skip(0)) {
        Some(rest) => Some(out@ + rest),
        None => None,
    }) by {
        if pairs(digits@) is Some {
            assert(out@ + pairs(digits@)->0 =~= pairs(digits@)->0);
        }
    }
    while digits.len() - i >= 2
        invariant
            i <= digits@.len(),
            digits@ == stripped(contents@),
            pairs(digits@) == match pairs(digits@.skip(i as int)) {
                Some(rest) => Some(out@ + rest),
                None => None,
            },
        decreases digits@.len() - i,
    {
        let ghost rest = digits@.skip(i as int);
        assert(rest.skip(2) =~= digits@.skip(i + 2));
        let high: Option<u8> = value_of(digits[i]);
        let low: Option<u8> = value_of(digits[i + 1]);
        let byte: u8 = match (high, low) {
            (Some(high), Some(low)) => 16 * high + low,
            (None, Some(low)) => if digits[i] == '+' {
                low
            } else {
                return None;
            },
            _ => return None,
        };
        let ghost before = out@;
        out.push(byte);
        proof {
            if let Some(tail) = pairs(rest.skip(2)) {
                assert(before + (seq![byte] + tail) =~= out@ + tail);
            }
        }
        i = i + 2;
    }
    if i < digits.len() {
        return None;
    }
    assert(digits@.skip(i as int) =~= Seq::empty());
    assert(out@ + Seq::<u8>::empty() =~= out@);
    Some(out)
}

/// The bytes that a text of hexadecimal digits stands for.
pub fn read_hex_bytes(contents: &str) -> (bytes: Vec<u8>)
    requires
        hex_bytes(contents@) is Some,
    ensures
        hex_bytes(contents@) == Some(bytes@),
{
    match decode_hex(contents) {
        Some(bytes) => bytes,
        None => Vec::new(),
    }
}

/// A text of digits alone, in pairs, stands for one byte per pair.
pub proof fn digits_decode(s: Seq<char>)
    requires
        s.len() % 2 == 0,
        first_non_digit(s) is None,
    ensures
        pairs(s) matches Some(bytes) && 2 * bytes.len() == s.len(),
    decreases s.len(),
{
    if s.len() > 0 {
        lemma_all_digits(s, 0);
        lemma_all_digits(s, 1);
        lemma_rest_is_digits(s, 2);
        digits_decode(s.skip(2));
    }
}

proof fn lemma_all_digits(s: Seq<char>, i: int)
    requires
        first_non_digit(s) is None,
        0 <= i < s.len(),
    ensures
        digit_value(s[i]) is Some,
    decreases s.len(),
{
    if i < s.len() - 1 {
        lemma_all_digits(s.drop_last(), i);
    }
}

proof fn lemma_rest_is_digits(s: Seq<char>, k: int)
    requires
        first_non_digit(s) is None,
        0 <= k <= s.len(),
    ensures
        first_non_digit(s.skip(k)) is None,
    decreases s.len(),
{
    if k < s.len() {
        lemma_rest_is_digits(s.drop_last(), k);
        assert(s.skip(k).drop_last() =~= s.drop_last().skip(k));
    }
}

/// The first character that is no hexadecimal digit.
fn find_non_digit(digits: &Vec<char>) -> (found: Option<char>)
    ensures
        found == first_non_digit(digits@),
{
    let mut i: usize = 0;
    assert(digits@.take(0) =~= Seq::empty());
    while i < digits.len()
        invariant
            i <= digits@.len(),
            first_non_digit(digits@.take(i as int)) is None,
        decreases digits@.len() - i,
    {
        assert(digits@.take(i + 1).drop_last() =~= digits@.take(i as int));
        if value_of(digits[i]).is_none() {
            proof {
                lemma_first_stays(digits@, i + 1);
            }
            return Some(digits[i]);
        }
        i = i + 1;
    }
    assert(digits@.take(i as int) =~= digits@);
    None
}

proof fn lemma_first_stays(s: Seq<char>, k: int)
    requires
        0 <= k <= s.len(),
        first_non_digit(s.take(k)) is Some,
    ensures
        first_non_digit(s) == first_non_digit(s.take(k)),
    decreases s.len(),
{
    if k < s.len() {
        assert(s.drop_last().take(k) =~= s.take(k));
        lemma_first_stays(s.drop_last(), k);
    } else {
        assert(s.take(k) =~= s);
    }
}

/// Checks a text of hexadecimal digits; the number of bytes it stands for.
pub fn validate_hex(contents: &str) -> (result: Result<usize, HexFault>)
    ensures
        match result {
            Ok(count) => hex_fault(contents@) is None && (hex_bytes(contents@) matches Some(bytes)
                && count == bytes.len()),
            Err(fault) => hex_fault(contents@) == Some(fault),
        },
{
    let digits: Vec<char> = strip(contents);
    if digits.len() == 0 {
        return Err(HexFault::Empty);
    }
    let kept: String = string_of(digits.as_slice());
    let length: usize = kept.as_str().as_bytes().len();
    if length % 2 != 0 {
        return Err(HexFault::OddLength);
    }
    match find_non_digit(&digits) {
        Some(c) => return Err(HexFault::InvalidCharacter(c)),
        None => {},
    }
    proof {
        lemma_digits_are_bytes(digits@);
        digits_decode(digits@);
    }
    Ok(digits.len() / 2)
}

/// A text of digits has as many bytes as characters.
proof fn lemma_digits_are_bytes(s: Seq<char>)
    requires
        first_non_digit(s) is None,
    ensures
        vstd::utf8::encode_utf8(s).len() == s.len(),
    decreases s.len(),
{
    assert forall|i: int| 0 <= i < s.len() implies '\0' <= #[trigger] s[i] <= '\u{7f}' by {
        lemma_all_digits(s, i);
    }
    vstd::utf8::is_ascii_chars_encode_utf8(s);
}

/// The report on a file of digits for `bytes` bytes.
pub fn valid_message(kind: &str, bytes: usize) -> (message: String)
    ensures
        message@ == valid_text(kind@, bytes as int),
{
    let mut out = String::from_str(kind);
    out.append(" file is valid hex (");
    push_decimal(&mut out, bytes as u64);
    out.append(" bytes)");
    out
}

} // verus!
