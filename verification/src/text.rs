//! Text: numbers written out for messages, and the splitting and trimming
//! that scripts and command lines need. Text is handled as its characters.

use vstd::prelude::*;
use vstd::string::StringExecFns;

verus! {

/// The digit `d`, with `a` to `f` for ten to fifteen.
pub open spec fn digit(d: int) -> Seq<char> {
    if d == 0 {
        "0"@
    } else if d == 1 {
        "1"@
    } else if d == 2 {
        "2"@
    } else if d == 3 {
        "3"@
    } else if d == 4 {
        "4"@
    } else if d == 5 {
        "5"@
    } else if d == 6 {
        "6"@
    } else if d == 7 {
        "7"@
    } else if d == 8 {
        "8"@
    } else if d == 9 {
        "9"@
    } else if d == 10 {
        "a"@
    } else if d == 11 {
        "b"@
    } else if d == 12 {
        "c"@
    } else if d == 13 {
        "d"@
    } else if d == 14 {
        "e"@
    } else {
        "f"@
    }
}

/// `n` in the given base, without leading zeros.
pub open spec fn digits(n: nat, base: nat) -> Seq<char>
    decreases n,
{
    if base < 2 || n < base {
        digit(n as int)
    } else {
        proof {
            assert(n / base < n) by (nonlinear_arith)
                requires
                    n >= base,
                    base >= 2,
            ;
        }
        digits(n / base, base) + digit((n % base) as int)
    }
}

/// `n` in decimal.
pub open spec fn decimal(n: int) -> Seq<char> {
    if n < 0 {
        "-"@ + digits((-n) as nat, 10)
    } else {
        digits(n as nat, 10)
    }
}

/// Appends one digit.
pub(crate) fn push_digit(out: &mut String, d: u64)
    requires
        d < 16,
    ensures
        final(out)@ == old(out)@ + digit(d as int),
{
    if d == 0 {
        out.append("0");
    } else if d == 1 {
        out.append("1");
    } else if d == 2 {
        out.append("2");
    } else if d == 3 {
        out.append("3");
    } else if d == 4 {
        out.append("4");
    } else if d == 5 {
        out.append("5");
    } else if d == 6 {
        out.append("6");
    } else if d == 7 {
        out.append("7");
    } else if d == 8 {
        out.append("8");
    } else if d == 9 {
        out.append("9");
    } else if d == 10 {
        out.append("a");
    } else if d == 11 {
        out.append("b");
    } else if d == 12 {
        out.append("c");
    } else if d == 13 {
        out.append("d");
    } else if d == 14 {
        out.append("e");
    } else {
        out.append("f");
    }
}

/// Appends `n` in the given base.
fn push_digits(out: &mut String, n: u64, base: u64)
    requires
        2 <= base <= 16,
    ensures
        final(out)@ == old(out)@ + digits(n as nat, base as nat),
    decreases n,
{
    if n < base {
        push_digit(out, n);
    } else {
        assert(n / base < n) by (nonlinear_arith)
            requires
                n >= base,
                base >= 2,
        ;
        push_digits(out, n / base, base);
        push_digit(out, n % base);
    }
}

/// Appends `n` in decimal.
pub fn push_decimal(out: &mut String, n: u64)
    ensures
        final(out)@ == old(out)@ + decimal(n as int),
{
    push_digits(out, n, 10);
}

/// Appends `n` in lowercase hexadecimal, without a prefix.
pub fn push_hex(out: &mut String, n: u64)
    ensures
        final(out)@ == old(out)@ + digits(n as nat, 16),
{
    push_digits(out, n, 16);
}

/// Appends a signed `n` in decimal.
pub fn push_signed_decimal(out: &mut String, n: i64)
    ensures
        final(out)@ == old(out)@ + decimal(n as int),
{
    if n < 0 {
        out.append("-");
        let magnitude: u64 = (-(n as i128)) as u64;
        push_digits(out, magnitude, 10);
    } else {
        push_digits(out, n as u64, 10);
    }
}

/// Whether two strings are equal.
pub fn same_text(a: &str, b: &str) -> (same: bool)
    ensures
        same == (a@ == b@),
{
    let left = a.as_bytes();
    let right = b.as_bytes();
    proof {
        vstd::utf8::encode_utf8_decode_utf8(a@);
        vstd::utf8::encode_utf8_decode_utf8(b@);
    }
    if left.len() != right.len() {
        return false;
    }
    let mut i: usize = 0;
    while i < left.len()
        invariant
            left@ == vstd::utf8::encode_utf8(a@),
            right@ == vstd::utf8::encode_utf8(b@),
            left@.len() == right@.len(),
            i <= left@.len(),
            forall|k: int| 0 <= k < i ==> left@[k] == right@[k],
        decreases left@.len() - i,
    {
        if left[i] != right[i] {
            return false;
        }
        i += 1;
    }
    assert(left@ =~= right@);
    true
}

/// `String::push` appends one character.
pub assume_specification[ String::push ](s: &mut String, c: char)
    ensures
        final(s)@ == old(s)@.push(c),
;

/// The characters of a string.
pub fn chars_of(text: &str) -> (chars: Vec<char>)
    ensures
        chars@ == text@,
{
    let mut chars: Vec<char> = Vec::new();
    for c in iter: text.chars()
        invariant
            iter.seq() == text@,
            chars@ == text@.take(iter.index()),
    {
        chars.push(c);
    }
    assert(text@.take(text@.len() as int) =~= text@);
    chars
}

/// The string of some characters.
pub fn string_of(chars: &[char]) -> (text: String)
    ensures
        text@ == chars@,
{
    let mut text = String::new();
    let mut i: usize = 0;
    assert(text@ =~= chars@.take(0));
    while i < chars.len()
        invariant
            i <= chars@.len(),
            text@ == chars@.take(i as int),
        decreases chars@.len() - i,
    {
        text.push(chars[i]);
        assert(chars@.take(i + 1) =~= chars@.take(i as int).push(chars@[i as int]));
        i += 1;
    }
    assert(chars@.take(i as int) =~= chars@);
    text
}

/// Whether a character is white space.
pub open spec fn is_white(c: char) -> bool {
    let code = c as u32;
    ||| 0x09 <= code <= 0x0D
    ||| code == 0x20
    ||| code == 0x85
    ||| code == 0xA0
    ||| code == 0x1680
    ||| 0x2000 <= code <= 0x200A
    ||| code == 0x2028
    ||| code == 0x2029
    ||| code == 0x202F
    ||| code == 0x205F
    ||| code == 0x3000
}

/// Whether a character is white space.
pub fn is_white_space(c: char) -> (white: bool)
    ensures
        white == is_white(c),
{
    let code: u32 = c as u32;
    (code >= 0x09 && code <= 0x0D) || code == 0x20 || code == 0x85 || code == 0xA0 || code == 0x1680
        || (code >= 0x2000 && code <= 0x200A) || code == 0x2028 || code == 0x2029 || code == 0x202F
        || code == 0x205F || code == 0x3000
}

/// `s` without leading white space.
pub open spec fn left_trimmed(s: Seq<char>) -> Seq<char>
    decreases s.len(),
{
    if s.len() > 0 && is_white(s[0]) {
        left_trimmed(s.drop_first())
    } else {
        s
    }
}

/// `s` without trailing white space.
pub open spec fn right_trimmed(s: Seq<char>) -> Seq<char>
    decreases s.len(),
{
    if s.len() > 0 && is_white(s.last()) {
        right_trimmed(s.drop_last())
    } else {
        s
    }
}

/// `s` without white space around it.
pub open spec fn trimmed(s: Seq<char>) -> Seq<char> {
    right_trimmed(left_trimmed(s))
}

/// Cuts off white space on both sides.
pub fn trim<'a>(s: &'a [char]) -> (inner: &'a [char])
    ensures
        inner@ == trimmed(s@),
{
    let mut from: usize = 0;
    assert(s@.skip(0) =~= s@);
    while from < s.len() && is_white_space(s[from])
        invariant
            from <= s@.len(),
            left_trimmed(s@) == left_trimmed(s@.skip(from as int)),
        decreases s@.len() - from,
    {
        assert(s@.skip(from as int).drop_first() =~= s@.skip(from + 1));
        from += 1;
    }
    let ghost left = s@.skip(from as int);
    assert(left_trimmed(s@) == left);
    let mut to: usize = s.len();
    assert(s@.subrange(from as int, to as int) =~= left);
    while to > from && is_white_space(s[to - 1])
        invariant
            from <= to <= s@.len(),
            right_trimmed(left) == right_trimmed(s@.subrange(from as int, to as int)),
        decreases to,
    {
        assert(s@.subrange(from as int, to as int).drop_last() =~= s@.subrange(
            from as int,
            to - 1,
        ));
        to -= 1;
    }
    vstd::slice::slice_subrange(s, from, to)
}

/// A character with the ASCII letters made lowercase.
pub open spec fn lower(c: char) -> char {
    if 'A' <= c <= 'Z' {
        (c as u32 + 32) as char
    } else {
        c
    }
}

/// `s` with the ASCII letters made lowercase.
pub open spec fn lowered(s: Seq<char>) -> Seq<char> {
    s.map_values(|c: char| lower(c))
}

/// Makes the ASCII letters lowercase.
pub fn to_lower(s: &[char]) -> (out: Vec<char>)
    ensures
        out@ == lowered(s@),
{
    let mut out: Vec<char> = Vec::new();
    let mut i: usize = 0;
    while i < s.len()
        invariant
            i <= s@.len(),
            out@.len() == i,
            forall|k: int| 0 <= k < i ==> out@[k] == lower(s@[k]),
        decreases s@.len() - i,
    {
        let c: char = s[i];
        out.push(
            if c >= 'A' && c <= 'Z' {
                ((c as u8) + 32) as char
            } else {
                c
            },
        );
        i += 1;
    }
    assert(out@ =~= lowered(s@));
    out
}

/// The position of the first `c` in `s` from `i` on, or the end.
pub open spec fn find_char(s: Seq<char>, c: char, i: int) -> int
    decreases s.len() - i,
{
    if !(0 <= i < s.len()) {
        s.len() as int
    } else if s[i] == c {
        i
    } else {
        find_char(s, c, i + 1)
    }
}

/// Finds a character.
pub fn position_of(s: &[char], c: char, from: usize) -> (pos: usize)
    requires
        from <= s@.len(),
    ensures
        pos == find_char(s@, c, from as int),
        from <= pos <= s@.len(),
{
    let mut i: usize = from;
    while i < s.len() && s[i] != c
        invariant
            from <= i <= s@.len(),
            find_char(s@, c, from as int) == find_char(s@, c, i as int),
        decreases s@.len() - i,
    {
        i += 1;
    }
    i
}

pub proof fn lemma_find_char(s: Seq<char>, c: char, i: int)
    requires
        0 <= i <= s.len(),
    ensures
        i <= find_char(s, c, i) <= s.len(),
        find_char(s, c, i) == i + find_char(s.skip(i), c, 0),
    decreases s.len() - i,
{
    lemma_find_shifted(s, c, i, i);
}

proof fn lemma_find_shifted(s: Seq<char>, c: char, base: int, i: int)
    requires
        0 <= base <= i <= s.len(),
    ensures
        i <= find_char(s, c, i) <= s.len(),
        find_char(s, c, i) == base + find_char(s.skip(base), c, i - base),
    decreases s.len() - i,
{
    if i < s.len() {
        assert(s.skip(base)[i - base] == s[i]);
        if s[i] != c {
            lemma_find_shifted(s, c, base, i + 1);
        }
    }
}

/// `s` cut at each `sep`, into at most `limit` pieces; the last piece holds
/// what is left.
pub open spec fn split_up_to(s: Seq<char>, sep: char, limit: int) -> Seq<Seq<char>>
    decreases limit,
{
    let pos = find_char(s, sep, 0);
    if limit <= 1 || pos >= s.len() {
        seq![s]
    } else {
        seq![s.take(pos)] + split_up_to(s.skip(pos + 1), sep, limit - 1)
    }
}

/// `s` cut at each `sep`.
pub open spec fn split_all(s: Seq<char>, sep: char) -> Seq<Seq<char>> {
    split_up_to(s, sep, s.len() as int + 1)
}

/// The lines of `s`. A line break at the end starts no further line.
pub open spec fn lines_of(s: Seq<char>) -> Seq<Seq<char>> {
    if s.len() == 0 {
        Seq::empty()
    } else if s.last() == '\n' {
        split_all(s.drop_last(), '\n')
    } else {
        split_all(s, '\n')
    }
}

/// The contents of some texts.
pub open spec fn contents(texts: Seq<Vec<char>>) -> Seq<Seq<char>> {
    texts.map_values(|text: Vec<char>| text@)
}

/// Cuts `s` at each `sep` into at most `limit` pieces.
pub fn split_at_most(s: &[char], sep: char, limit: usize) -> (pieces: Vec<Vec<char>>)
    ensures
        contents(pieces@) == split_up_to(s@, sep, limit as int),
{
    let mut pieces: Vec<Vec<char>> = Vec::new();
    let mut from: usize = 0;
    let mut left: usize = limit;
    assert(contents(pieces@) + split_up_to(s@.skip(0), sep, limit as int) =~= split_up_to(
        s@,
        sep,
        limit as int,
    )) by {
        assert(s@.skip(0) =~= s@);
    }
    loop
        invariant
            from <= s@.len(),
            contents(pieces@) + split_up_to(s@.skip(from as int), sep, left as int) == split_up_to(
                s@,
                sep,
                limit as int,
            ),
        decreases left,
    {
        let pos: usize = position_of(s, sep, from);
        let ghost rest = s@.skip(from as int);
        proof {
            lemma_find_char(s@, sep, from as int);
        }
        if left <= 1 || pos >= s.len() {
            let piece = vstd::slice::slice_to_vec(vstd::slice::slice_subrange(s, from, s.len()));
            let ghost before = pieces@;
            pieces.push(piece);
            proof {
                assert(piece@ =~= rest);
                assert(contents(pieces@) =~= contents(before) + seq![rest]);
            }
            return pieces;
        }
        let piece = vstd::slice::slice_to_vec(vstd::slice::slice_subrange(s, from, pos));
        let ghost before = pieces@;
        pieces.push(piece);
        proof {
            assert(piece@ =~= rest.take(pos - from));
            assert(rest.skip(pos - from + 1) =~= s@.skip(pos + 1));
            assert(contents(pieces@) + split_up_to(s@.skip(pos + 1), sep, left - 1) =~= contents(
                before,
            ) + (seq![piece@] + split_up_to(s@.skip(pos + 1), sep, left - 1)));
        }
        from = pos + 1;
        left -= 1;
    }
}

proof fn lemma_enough_pieces(s: Seq<char>, sep: char, m: int, n: int)
    requires
        s.len() < m <= n,
    ensures
        split_up_to(s, sep, m) == split_up_to(s, sep, n),
    decreases m,
{
    let pos = find_char(s, sep, 0);
    lemma_find_char(s, sep, 0);
    if pos < s.len() && m > 1 {
        lemma_enough_pieces(s.skip(pos + 1), sep, m - 1, n - 1);
    }
}

/// Cuts `s` at each `sep`.
pub fn split_every(s: &[char], sep: char) -> (pieces: Vec<Vec<char>>)
    ensures
        contents(pieces@) == split_all(s@, sep),
{
    let mut pieces: Vec<Vec<char>> = Vec::new();
    let mut from: usize = 0;
    assert(s@.skip(0) =~= s@);
    assert(contents(pieces@) + split_all(s@.skip(0), sep) =~= split_all(s@, sep));
    loop
        invariant
            from <= s@.len(),
            contents(pieces@) + split_all(s@.skip(from as int), sep) == split_all(s@, sep),
        decreases s@.len() - from,
    {
        let pos: usize = position_of(s, sep, from);
        let ghost rest = s@.skip(from as int);
        proof {
            lemma_find_char(s@, sep, from as int);
        }
        let piece = vstd::slice::slice_to_vec(vstd::slice::slice_subrange(s, from, pos));
        let ghost before = pieces@;
        pieces.push(piece);
        if pos >= s.len() {
            proof {
                assert(piece@ =~= rest);
                assert(contents(pieces@) =~= contents(before) + seq![rest]);
            }
            return pieces;
        }
        proof {
            assert(piece@ =~= rest.take(pos - from));
            assert(rest.skip(pos - from + 1) =~= s@.skip(pos + 1));
            lemma_enough_pieces(
                s@.skip(pos + 1),
                sep,
                s@.skip(pos + 1).len() as int + 1,
                rest.len() as int,
            );
            assert(contents(pieces@) + split_all(s@.skip(pos + 1), sep) =~= contents(before) + (
            seq![piece@] + split_all(s@.skip(pos + 1), sep)));
        }
        from = pos + 1;
    }
}

/// Cuts a text into lines.
pub fn split_lines(s: &[char]) -> (lines: Vec<Vec<char>>)
    ensures
        contents(lines@) == lines_of(s@),
{
    if s.len() == 0 {
        let lines: Vec<Vec<char>> = Vec::new();
        assert(contents(lines@) =~= Seq::empty());
        return lines;
    }
    let last: char = s[s.len() - 1];
    if last == '\n' {
        let body = vstd::slice::slice_subrange(s, 0, s.len() - 1);
        assert(body@ =~= s@.drop_last());
        split_every(body, '\n')
    } else {
        split_every(s, '\n')
    }
}

/// A character takes at most four bytes.
pub proof fn utf8_len_bound(s: Seq<char>)
    ensures
        vstd::utf8::encode_utf8(s).len() <= 4 * s.len(),
    decreases s.len(),
{
    if s.len() > 0 {
        utf8_len_bound(s.drop_first());
    }
}

} // verus!
