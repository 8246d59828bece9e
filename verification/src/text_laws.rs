//! What splitting, trimming and writing out do to text.

use vstd::prelude::*;
use crate::text;

verus! {

/// Some pieces, one behind the other, with `sep` between each two.
pub open spec fn with_between(pieces: Seq<Seq<char>>, sep: char) -> Seq<char>
    decreases pieces.len(),
{
    if pieces.len() == 0 {
        Seq::empty()
    } else if pieces.len() == 1 {
        pieces[0]
    } else {
        pieces[0] + seq![sep] + with_between(pieces.drop_first(), sep)
    }
}

proof fn lemma_found_first(s: Seq<char>, c: char, i: int)
    requires
        0 <= i <= s.len(),
    ensures
        i <= text::find_char(s, c, i) <= s.len(),
        forall|k: int| i <= k < text::find_char(s, c, i) ==> #[trigger] s[k] != c,
        text::find_char(s, c, i) < s.len() ==> s[text::find_char(s, c, i)] == c,
    decreases s.len() - i,
{
    if i < s.len() && s[i] != c {
        lemma_found_first(s, c, i + 1);
    }
}

/// What is found is the first: the character stands there and nowhere in front
/// of it; and where nothing is found it does not occur at all.
pub proof fn the_first_is_found(s: Seq<char>, c: char, from: int)
    requires
        0 <= from <= s.len(),
    ensures
        from <= text::find_char(s, c, from) <= s.len(),
        forall|k: int| from <= k < text::find_char(s, c, from) ==> #[trigger] s[k] != c,
        text::find_char(s, c, from) < s.len() ==> s[text::find_char(s, c, from)] == c,
{
    lemma_found_first(s, c, from);
}

/// The pieces of a text, with the separator between each two, are the text
/// again. There are no more than asked for, none but the last holds a
/// separator, and the last holds one only where the pieces ran out.
pub proof fn pieces_make_up_the_text(s: Seq<char>, sep: char, limit: int)
    requires
        limit >= 1,
    ensures
        with_between(text::split_up_to(s, sep, limit), sep) == s,
        1 <= text::split_up_to(s, sep, limit).len() <= limit,
        forall|k: int|
            0 <= k < text::split_up_to(s, sep, limit).len() - 1 ==> !(#[trigger] text::split_up_to(
                s,
                sep,
                limit,
            )[k]).contains(sep),
        text::split_up_to(s, sep, limit).len() < limit ==> !text::split_up_to(
            s,
            sep,
            limit,
        ).last().contains(sep),
    decreases limit,
{
    let pos = text::find_char(s, sep, 0);
    lemma_found_first(s, sep, 0);
    let pieces = text::split_up_to(s, sep, limit);
    if limit <= 1 || pos >= s.len() {
        assert(pieces =~= seq![s]);
    } else {
        let rest = text::split_up_to(s.skip(pos + 1), sep, limit - 1);
        pieces_make_up_the_text(s.skip(pos + 1), sep, limit - 1);
        assert(pieces == seq![s.take(pos)] + rest);
        assert(pieces.drop_first() =~= rest);
        assert(s =~= s.take(pos) + seq![sep] + s.skip(pos + 1));
        assert(pieces.last() == rest.last());
        assert forall|k: int| 0 <= k < pieces.len() - 1 implies !(#[trigger] pieces[k]).contains(
            sep,
        ) by {
            if k > 0 {
                assert(pieces[k] == rest[k - 1]);
            }
        }
    }
}

proof fn lemma_find_behind(front: Seq<char>, sep: char, rest: Seq<char>, i: int)
    requires
        !front.contains(sep),
        0 <= i <= front.len(),
    ensures
        text::find_char(front + seq![sep] + rest, sep, i) == front.len(),
    decreases front.len() - i,
{
    let s = front + seq![sep] + rest;
    if i < front.len() {
        assert(s[i] == front[i]);
        assert(front.contains(front[i]));
        lemma_find_behind(front, sep, rest, i + 1);
    } else {
        assert(s[i] == sep);
    }
}

proof fn lemma_find_none(s: Seq<char>, sep: char, i: int)
    requires
        !s.contains(sep),
        0 <= i <= s.len(),
    ensures
        text::find_char(s, sep, i) == s.len(),
    decreases s.len() - i,
{
    if i < s.len() {
        assert(s.contains(s[i]));
        lemma_find_none(s, sep, i + 1);
    }
}

/// Pieces that hold no separator are found again in the text that they make
/// up. The last may hold one where there are as many as are asked for.
pub proof fn pieces_are_found_again(pieces: Seq<Seq<char>>, sep: char, limit: int)
    requires
        1 <= pieces.len() <= limit,
        forall|k: int| 0 <= k < pieces.len() - 1 ==> !(#[trigger] pieces[k]).contains(sep),
        pieces.len() < limit ==> !pieces.last().contains(sep),
    ensures
        text::split_up_to(with_between(pieces, sep), sep, limit) == pieces,
    decreases pieces.len(),
{
    let s = with_between(pieces, sep);
    if pieces.len() == 1 {
        if limit > 1 {
            lemma_find_none(s, sep, 0);
        }
        assert(text::split_up_to(s, sep, limit) =~= pieces);
    } else {
        let rest = pieces.drop_first();
        let tail = with_between(rest, sep);
        assert(!pieces[0].contains(sep));
        lemma_find_behind(pieces[0], sep, tail, 0);
        assert(s.take(pieces[0].len() as int) =~= pieces[0]);
        assert(s.skip(pieces[0].len() as int + 1) =~= tail);
        assert forall|k: int| 0 <= k < rest.len() - 1 implies !(#[trigger] rest[k]).contains(
            sep,
        ) by {
            assert(rest[k] == pieces[k + 1]);
        }
        assert(rest.last() == pieces.last());
        pieces_are_found_again(rest, sep, limit - 1);
        assert(text::split_up_to(s, sep, limit) =~= pieces);
    }
}

/// The pieces of a full split hold no separator, and with separators between
/// them they are the text again.
pub proof fn a_full_split_leaves_no_separator(s: Seq<char>, sep: char)
    ensures
        with_between(text::split_all(s, sep), sep) == s,
        text::split_all(s, sep).len() >= 1,
        forall|k: int|
            0 <= k < text::split_all(s, sep).len() ==> !(#[trigger] text::split_all(
                s,
                sep,
            )[k]).contains(sep),
{
    let limit = s.len() as int + 1;
    pieces_make_up_the_text(s, sep, limit);
    let pieces = text::split_all(s, sep);
    if pieces.len() == limit {
        lemma_between_len(pieces, sep);
        if pieces.last().contains(sep) {
            assert(pieces.last().len() >= 1);
        }
    }
    assert forall|k: int| 0 <= k < pieces.len() implies !(#[trigger] pieces[k]).contains(sep) by {
        if k == pieces.len() - 1 {
            assert(pieces[k] == pieces.last());
        }
    }
}

proof fn lemma_between_len(pieces: Seq<Seq<char>>, sep: char)
    requires
        pieces.len() >= 1,
    ensures
        with_between(pieces, sep).len() >= pieces.len() - 1 + pieces.last().len(),
    decreases pieces.len(),
{
    if pieces.len() > 1 {
        lemma_between_len(pieces.drop_first(), sep);
        assert(pieces.drop_first().last() == pieces.last());
    }
}

/// The lines of a text hold no line feed, and with line feeds between them
/// they are the text again, but for a line feed at its end.
pub proof fn lines_make_up_the_text(s: Seq<char>)
    requires
        s.len() > 0,
    ensures
        s.last() != '\n' ==> with_between(text::lines_of(s), '\n') == s,
        s.last() == '\n' ==> with_between(text::lines_of(s), '\n') + seq!['\n'] == s,
        forall|k: int|
            0 <= k < text::lines_of(s).len() ==> !(#[trigger] text::lines_of(s)[k]).contains('\n'),
        text::lines_of(s).len() >= 1,
        text::lines_of(Seq::empty()).len() == 0,
{
    a_full_split_leaves_no_separator(s, '\n');
    a_full_split_leaves_no_separator(s.drop_last(), '\n');
    assert(s =~= s.drop_last() + seq![s.last()]);
}

/// White space: the tab and what follows it up to the carriage return, the
/// space, and the separators beyond ASCII.
pub proof fn white_space_is_these(c: char)
    ensures
        text::is_white(c) <==> ({
            let code = c as int;
            ||| code == 9 || code == 10 || code == 11 || code == 12 || code == 13
            ||| code == 32 || code == 133 || code == 160
            ||| code == 5760
            ||| code == 8192 || code == 8193 || code == 8194 || code == 8195 || code == 8196
            ||| code == 8197 || code == 8198 || code == 8199 || code == 8200 || code == 8201
            ||| code == 8202
            ||| code == 8232 || code == 8233 || code == 8239 || code == 8287
            ||| code == 12288
        }),
{
}

proof fn lemma_left_trimmed(s: Seq<char>) -> (n: int)
    ensures
        0 <= n <= s.len(),
        text::left_trimmed(s) == s.skip(n),
        forall|k: int| 0 <= k < n ==> text::is_white(#[trigger] s[k]),
        n < s.len() ==> !text::is_white(s[n]),
    decreases s.len(),
{
    if s.len() > 0 && text::is_white(s[0]) {
        let n = lemma_left_trimmed(s.drop_first());
        assert(s.drop_first().skip(n) =~= s.skip(n + 1));
        assert forall|k: int| 0 <= k < n + 1 implies text::is_white(#[trigger] s[k]) by {
            if k > 0 {
                assert(s.drop_first()[k - 1] == s[k]);
            }
        }
        n + 1
    } else {
        assert(s.skip(0) =~= s);
        0
    }
}

proof fn lemma_right_trimmed(s: Seq<char>) -> (n: int)
    ensures
        0 <= n <= s.len(),
        text::right_trimmed(s) == s.take(n),
        forall|k: int| n <= k < s.len() ==> text::is_white(#[trigger] s[k]),
        n > 0 ==> !text::is_white(s[n - 1]),
    decreases s.len(),
{
    if s.len() > 0 && text::is_white(s.last()) {
        let n = lemma_right_trimmed(s.drop_last());
        assert(s.drop_last().take(n) =~= s.take(n));
        assert forall|k: int| n <= k < s.len() implies text::is_white(#[trigger] s[k]) by {
            if k < s.len() - 1 {
                assert(s.drop_last()[k] == s[k]);
            }
        }
        if n > 0 {
            assert(s.drop_last()[n - 1] == s[n - 1]);
        }
        n
    } else {
        assert(s.take(s.len() as int) =~= s);
        s.len() as int
    }
}

/// Trimming takes white space off both ends and nothing else: the text is
/// white space, the trimmed text and white space, and the trimmed text neither
/// begins nor ends with any.
pub proof fn trimming_takes_white_space_off(s: Seq<char>) -> (ends: (Seq<char>, Seq<char>))
    ensures
        s == ends.0 + text::trimmed(s) + ends.1,
        forall|k: int| 0 <= k < ends.0.len() ==> text::is_white(#[trigger] ends.0[k]),
        forall|k: int| 0 <= k < ends.1.len() ==> text::is_white(#[trigger] ends.1[k]),
        text::trimmed(s).len() > 0 ==> !text::is_white(text::trimmed(s)[0]) && !text::is_white(
            text::trimmed(s).last(),
        ),
{
    let n = lemma_left_trimmed(s);
    let left = s.skip(n);
    let m = lemma_right_trimmed(left);
    let front = s.take(n);
    let back = left.skip(m);
    assert(s =~= front + left.take(m) + back);
    assert forall|k: int| 0 <= k < back.len() implies text::is_white(#[trigger] back[k]) by {
        assert(back[k] == left[m + k]);
    }
    if m > 0 {
        assert(left[0] == s[n]);
    }
    (front, back)
}

/// Letters from A to Z become those from a to z; nothing else changes.
pub proof fn only_capitals_are_lowered(s: Seq<char>)
    ensures
        text::lowered(s).len() == s.len(),
        forall|k: int|
            0 <= k < s.len() && 65 <= #[trigger] s[k] as int <= 90 ==> text::lowered(s)[k] as int
                == s[k] as int + 32,
        forall|k: int|
            0 <= k < s.len() && !(65 <= #[trigger] s[k] as int <= 90) ==> text::lowered(s)[k]
                == s[k],
{
}

/// The value of a digit character.
pub open spec fn value_of(c: char) -> int {
    if 48 <= c as int <= 57 {
        c as int - 48
    } else {
        c as int - 87
    }
}

/// The number that digits spell in a base, the most significant first.
pub open spec fn number_of(s: Seq<char>, base: int) -> int
    decreases s.len(),
{
    if s.len() == 0 {
        0
    } else {
        base * number_of(s.drop_last(), base) + value_of(s.last())
    }
}

proof fn lemma_digit(d: int)
    requires
        0 <= d < 16,
    ensures
        text::digit(d).len() == 1,
        value_of(text::digit(d)[0]) == d,
        48 <= text::digit(d)[0] as int <= 57 || 97 <= text::digit(d)[0] as int <= 102,
        d < 10 ==> 48 <= text::digit(d)[0] as int <= 57,
{
    reveal_strlit("0");
    reveal_strlit("1");
    reveal_strlit("2");
    reveal_strlit("3");
    reveal_strlit("4");
    reveal_strlit("5");
    reveal_strlit("6");
    reveal_strlit("7");
    reveal_strlit("8");
    reveal_strlit("9");
    reveal_strlit("a");
    reveal_strlit("b");
    reveal_strlit("c");
    reveal_strlit("d");
    reveal_strlit("e");
    reveal_strlit("f");
}

/// A digit is one character, and spells its value.
pub proof fn one_digit_spells_its_value(d: int)
    requires
        0 <= d < 16,
    ensures
        text::digit(d).len() == 1,
        value_of(text::digit(d)[0]) == d,
        d < 10 ==> 48 <= text::digit(d)[0] as int <= 57,
        d >= 10 ==> 97 <= text::digit(d)[0] as int <= 102,
{
    lemma_digit(d);
}

/// Digits spell the number that they are written for, without a zero in front
/// and with digits alone.
pub proof fn digits_spell_the_number(n: nat, base: nat)
    requires
        2 <= base <= 16,
    ensures
        number_of(text::digits(n, base), base as int) == n,
        text::digits(n, base).len() >= 1,
        n > 0 ==> value_of(text::digits(n, base)[0]) != 0,
        forall|k: int|
            0 <= k < text::digits(n, base).len() ==> {
                let c = #[trigger] text::digits(n, base)[k];
                (48 <= c as int <= 57 || 97 <= c as int <= 102) && (base <= 10 ==> c as int <= 57)
            },
    decreases n,
{
    let s = text::digits(n, base);
    if n < base {
        lemma_digit(n as int);
        assert(s.drop_last() =~= Seq::empty());
        reveal_with_fuel(number_of, 2);
        assert(base * 0 == 0) by (nonlinear_arith);
    } else {
        assert(n / base < n && n / base > 0 && n % base < base) by (nonlinear_arith)
            requires
                n >= base,
                base >= 2,
        ;
        assert(n == base * (n / base) + n % base) by (nonlinear_arith)
            requires
                base >= 2,
        ;
        digits_spell_the_number(n / base, base);
        lemma_digit((n % base) as int);
        let front = text::digits(n / base, base);
        let back = text::digit((n % base) as int);
        assert(s == front + back);
        assert(s.drop_last() =~= front);
        assert(s[0] == front[0]);
        assert forall|k: int| 0 <= k < s.len() implies ({
            let c = #[trigger] s[k];
            (48 <= c as int <= 57 || 97 <= c as int <= 102) && (base <= 10 ==> c as int <= 57)
        }) by {
            if k < front.len() {
                assert(s[k] == front[k]);
            } else {
                assert(s[k] == back[0]);
            }
        }
    }
}

/// A decimal number spells its value, behind a minus sign where it is below
/// zero.
pub proof fn decimals_spell_the_number(n: int)
    ensures
        n >= 0 ==> number_of(text::decimal(n), 10) == n,
        n < 0 ==> text::decimal(n)[0] == '-' && number_of(text::decimal(n).drop_first(), 10) == -n,
        n >= 0 ==> forall|k: int|
            0 <= k < text::decimal(n).len() ==> 48 <= #[trigger] text::decimal(n)[k] as int <= 57,
        n > 0 ==> text::decimal(n)[0] != '0',
{
    if n < 0 {
        digits_spell_the_number((-n) as nat, 10);
        reveal_strlit("-");
        assert(text::decimal(n).drop_first() =~= text::digits((-n) as nat, 10));
    } else {
        digits_spell_the_number(n as nat, 10);
    }
}

} // verus!
