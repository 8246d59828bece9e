//! What of a script goes into its events and its private data.

use vstd::prelude::*;
use crate::codec::ass::{self, EventModel, Section};
use crate::text;
use crate::text_laws;

verus! {

/// Whether a text begins with the word that marks an event, with a large or a
/// small first letter.
pub open spec fn is_marked(s: Seq<char>) -> bool {
    s.len() >= 9 && (s[0] == 'D' || s[0] == 'd') && s[1] == 'i' && s[2] == 'a' && s[3] == 'l'
        && s[4] == 'o' && s[5] == 'g' && s[6] == 'u' && s[7] == 'e' && s[8] == ':'
}

proof fn lemma_payload(line: Seq<char>)
    ensures
        is_marked(text::trimmed(line)) ==> ass::dialogue_payload(line) == Some(
            text::trimmed(line).skip(9),
        ),
        !is_marked(text::trimmed(line)) ==> ass::dialogue_payload(line) is None,
{
    let inner = text::trimmed(line);
    reveal_strlit("Dialogue:");
    reveal_strlit("dialogue:");
    if is_marked(inner) {
        if inner[0] == 'D' {
            assert(inner.take(9) =~= "Dialogue:"@);
        } else {
            assert(inner.take(9) =~= "dialogue:"@);
        }
    } else {
        if "Dialogue:"@.is_prefix_of(inner) {
            assert(forall|k: int| 0 <= k < 9 ==> inner[k] == "Dialogue:"@[k]);
        }
        if "dialogue:"@.is_prefix_of(inner) {
            assert(forall|k: int| 0 <= k < 9 ==> inner[k] == "dialogue:"@[k]);
        }
    }
}

/// Nine fields with a comma behind each, and a text behind them.
pub open spec fn behind_nine(f: Seq<Seq<char>>, rest: Seq<char>) -> Seq<char> {
    f[0] + seq![','] + (f[1] + seq![','] + (f[2] + seq![','] + (f[3] + seq![','] + (f[4] + seq![',']
        + (f[5] + seq![','] + (f[6] + seq![','] + (f[7] + seq![','] + (f[8] + seq![','] + rest)))))
    )))
}

proof fn lemma_ten_pieces(pieces: Seq<Seq<char>>)
    requires
        pieces.len() == 10,
    ensures
        text_laws::with_between(pieces, ',') == behind_nine(pieces.take(9), pieces[9]),
{
    reveal_with_fuel(text_laws::with_between, 10);
    let p = pieces;
    assert(p.drop_first() =~= p.skip(1));
    assert(p.skip(1).drop_first() =~= p.skip(2));
    assert(p.skip(2).drop_first() =~= p.skip(3));
    assert(p.skip(3).drop_first() =~= p.skip(4));
    assert(p.skip(4).drop_first() =~= p.skip(5));
    assert(p.skip(5).drop_first() =~= p.skip(6));
    assert(p.skip(6).drop_first() =~= p.skip(7));
    assert(p.skip(7).drop_first() =~= p.skip(8));
    assert(p.skip(8).drop_first() =~= p.skip(9));
}

/// An event is read from a line that begins, white space aside, with
/// `Dialogue:`. Behind that stand nine fields without commas, each with a comma
/// behind it, and then the text of the event, which goes on to the end of the
/// trimmed line, commas and all.
pub proof fn events_hold_the_rest_of_the_line(
    line: Seq<char>,
    columns: Option<Seq<Seq<char>>>,
) -> (fields: Seq<Seq<char>>)
    requires
        ass::event_on(line, columns) is Some,
    ensures
        is_marked(text::trimmed(line)),
        fields.len() == 9,
        forall|k: int| 0 <= k < 9 ==> !(#[trigger] fields[k]).contains(','),
        text::trimmed(line).skip(9) == behind_nine(fields, ass::event_on(line, columns)->0.text),
{
    lemma_payload(line);
    let payload = text::trimmed(line).skip(9);
    let pieces = text::split_up_to(payload, ',', 10);
    text_laws::pieces_make_up_the_text(payload, ',', 10);
    lemma_ten_pieces(pieces);
    let fields = pieces.take(9);
    assert forall|k: int| 0 <= k < 9 implies !(#[trigger] fields[k]).contains(',') by {
        assert(fields[k] == pieces[k]);
    }
    fields
}

/// The field of a line under a key: the column of that name, the first where
/// there are several, or the usual place where no column has the name.
pub open spec fn is_field(
    columns: Option<Seq<Seq<char>>>,
    all: Seq<Seq<char>>,
    key: Seq<char>,
    usual: int,
    value: Seq<char>,
) -> bool {
    &&& columns is None ==> value == text::trimmed(all[usual])
    &&& columns matches Some(names) ==> {
        &&& (forall|p: int| 0 <= p < names.len() ==> #[trigger] names[p] != key) ==> value
            == text::trimmed(all[usual])
        &&& forall|p: int|
            0 <= p < names.len() && #[trigger] names[p] == key && (forall|q: int|
                0 <= q < p ==> #[trigger] names[q] != key) ==> value == (if p < 10 {
                text::trimmed(all[p])
            } else {
                Seq::empty()
            })
    }
}

proof fn lemma_column(columns: Seq<Seq<char>>, key: Seq<char>, i: int)
    requires
        0 <= i <= columns.len(),
    ensures
        ass::column_position(columns, key, i) >= 0 ==> {
            let p = ass::column_position(columns, key, i);
            i <= p < columns.len() && columns[p] == key && forall|q: int|
                i <= q < p ==> #[trigger] columns[q] != key
        },
        ass::column_position(columns, key, i) < 0 ==> forall|q: int|
            i <= q < columns.len() ==> #[trigger] columns[q] != key,
    decreases columns.len() - i,
{
    if i < columns.len() && columns[i] != key {
        lemma_column(columns, key, i + 1);
    }
}

proof fn lemma_field(
    columns: Option<Seq<Seq<char>>>,
    all: Seq<Seq<char>>,
    key: Seq<char>,
    usual: int,
)
    requires
        all.len() == 10,
        0 <= usual < 10,
    ensures
        is_field(columns, all, key, usual, ass::field(columns, all, key, usual)),
{
    if let Some(names) = columns {
        lemma_column(names, key, 0);
        let found = ass::column_position(names, key, 0);
        assert forall|p: int|
            0 <= p < names.len() && #[trigger] names[p] == key && (forall|q: int|
                0 <= q < p ==> #[trigger] names[q] != key) implies p == found by {
            if found >= 0 {
                if found < p {
                    assert(names[found] != key);
                } else if p < found {
                    assert(names[p] != key);
                }
            } else {
                assert(names[p] != key);
            }
        }
        if found >= 0 {
            assert(names[found] == key);
        }
    }
}

/// The characters of the column names that events are read by.
pub open spec fn names_of(n: int) -> Seq<char> {
    if n == 0 {
        seq!['l', 'a', 'y', 'e', 'r']
    } else if n == 3 {
        seq!['s', 't', 'y', 'l', 'e']
    } else if n == 4 {
        seq!['n', 'a', 'm', 'e']
    } else if n == 5 {
        seq!['m', 'a', 'r', 'g', 'i', 'n', 'l']
    } else if n == 6 {
        seq!['m', 'a', 'r', 'g', 'i', 'n', 'r']
    } else if n == 7 {
        seq!['m', 'a', 'r', 'g', 'i', 'n', 'v']
    } else {
        seq!['e', 'f', 'f', 'e', 'c', 't']
    }
}

proof fn lemma_names()
    ensures
        names_of(0) == "layer"@,
        names_of(3) == "style"@,
        names_of(4) == "name"@,
        names_of(5) == "marginl"@,
        names_of(6) == "marginr"@,
        names_of(7) == "marginv"@,
        names_of(8) == "effect"@,
{
    reveal_strlit("layer");
    reveal_strlit("style");
    reveal_strlit("name");
    reveal_strlit("marginl");
    reveal_strlit("marginr");
    reveal_strlit("marginv");
    reveal_strlit("effect");
    assert(names_of(0) =~= "layer"@);
    assert(names_of(3) =~= "style"@);
    assert(names_of(4) =~= "name"@);
    assert(names_of(5) =~= "marginl"@);
    assert(names_of(6) =~= "marginr"@);
    assert(names_of(7) =~= "marginv"@);
    assert(names_of(8) =~= "effect"@);
}

/// Every line of nine fields and a text is read back: the text as it stands,
/// each field trimmed and taken from the column of its name, or from its usual
/// place. Where columns are named and none is the layer, it is empty.
pub proof fn events_are_read_back(
    line: Seq<char>,
    columns: Option<Seq<Seq<char>>>,
    fields: Seq<Seq<char>>,
    rest: Seq<char>,
)
    requires
        is_marked(text::trimmed(line)),
        fields.len() == 9,
        forall|k: int| 0 <= k < 9 ==> !(#[trigger] fields[k]).contains(','),
        text::trimmed(line).skip(9) == behind_nine(fields, rest),
    ensures
        ass::event_on(line, columns) matches Some(event) && {
            let all = fields.push(rest);
            &&& event.text == rest
            &&& is_field(columns, all, names_of(3), 3, event.style)
            &&& is_field(columns, all, names_of(4), 4, event.name)
            &&& is_field(columns, all, names_of(5), 5, event.margin_l)
            &&& is_field(columns, all, names_of(6), 6, event.margin_r)
            &&& is_field(columns, all, names_of(7), 7, event.margin_v)
            &&& is_field(columns, all, names_of(8), 8, event.effect)
            &&& columns is None ==> event.layer == text::trimmed(fields[0])
            &&& columns matches Some(names) ==> {
                &&& !names.contains(names_of(0)) ==> event.layer.len() == 0
                &&& names.contains(names_of(0)) ==> is_field(
                    columns,
                    all,
                    names_of(0),
                    0,
                    event.layer,
                )
            }
        },
{
    lemma_payload(line);
    lemma_names();
    let payload = text::trimmed(line).skip(9);
    let all = fields.push(rest);
    lemma_ten_pieces(all);
    assert(all.take(9) =~= fields);
    assert forall|k: int| 0 <= k < all.len() - 1 implies !(#[trigger] all[k]).contains(',') by {
        assert(all[k] == fields[k]);
    }
    text_laws::pieces_are_found_again(all, ',', 10);
    assert(text::split_up_to(payload, ',', 10) == all);
    lemma_field(columns, all, "style"@, 3);
    lemma_field(columns, all, "name"@, 4);
    lemma_field(columns, all, "marginl"@, 5);
    lemma_field(columns, all, "marginr"@, 6);
    lemma_field(columns, all, "marginv"@, 7);
    lemma_field(columns, all, "effect"@, 8);
    lemma_field(columns, all, "layer"@, 0);
    if let Some(names) = columns {
        lemma_column(names, "layer"@, 0);
        if names.contains("layer"@) {
            let p = choose|p: int| 0 <= p < names.len() && names[p] == "layer"@;
            assert(names[p] == "layer"@);
        }
    }
}

/// A line is no event if and only if the mark is missing or fewer than nine
/// commas follow it.
pub proof fn other_lines_are_no_events(
    line: Seq<char>,
    columns: Option<Seq<Seq<char>>>,
    pieces: Seq<Seq<char>>,
)
    requires
        !is_marked(text::trimmed(line)) || (1 <= pieces.len() < 10 && text::trimmed(line).skip(9)
            == text_laws::with_between(pieces, ',') && forall|k: int|
            0 <= k < pieces.len() ==> !(#[trigger] pieces[k]).contains(',')),
    ensures
        ass::event_on(line, columns) is None,
{
    lemma_payload(line);
    if is_marked(text::trimmed(line)) {
        assert(pieces.last() == pieces[pieces.len() - 1]);
        text_laws::pieces_are_found_again(pieces, ',', 10);
    }
}

/// Events come in the order of their lines: the event on a line has as many in
/// front of it as the lines in front have.
pub proof fn events_keep_the_order_of_lines(lines: Seq<Seq<char>>, n: int, k: int)
    requires
        0 <= k < n <= lines.len(),
    ensures
        ass::events_on(lines, k).len() <= ass::events_on(lines, n).len() <= n,
        ass::event_on(lines[k], ass::columns_at(lines, k)) matches Some(event)
            ==> ass::events_on(lines, k).len() < ass::events_on(lines, n).len() && ass::events_on(
            lines,
            n,
        )[ass::events_on(lines, k).len() as int] == event,
    decreases n,
{
    lemma_events_bound(lines, n - 1);
    if k < n - 1 {
        events_keep_the_order_of_lines(lines, n - 1, k);
    }
}

proof fn lemma_events_bound(lines: Seq<Seq<char>>, n: int)
    requires
        0 <= n,
    ensures
        ass::events_on(lines, n).len() <= n,
    decreases n,
{
    if n > 0 {
        lemma_events_bound(lines, n - 1);
    }
}

/// Every event comes from a line.
pub proof fn events_come_from_lines(lines: Seq<Seq<char>>, n: int, m: int) -> (k: int)
    requires
        0 <= n <= lines.len(),
        0 <= m < ass::events_on(lines, n).len(),
    ensures
        0 <= k < n,
        ass::events_on(lines, k).len() == m,
        ass::event_on(lines[k], ass::columns_at(lines, k)) == Some(ass::events_on(lines, n)[m]),
    decreases n,
{
    if m < ass::events_on(lines, n - 1).len() {
        events_come_from_lines(lines, n - 1, m)
    } else {
        n - 1
    }
}

/// The columns in force are those of the last line that names some within the
/// events; without such a line there are none.
pub proof fn the_last_columns_are_in_force(lines: Seq<Seq<char>>, k: int, j: int)
    requires
        0 <= j <= k <= lines.len(),
        forall|i: int|
            j <= i < k ==> !(#[trigger] ass::section_at(lines, i) == Section::Events
                && ass::columns_of(lines[i]) is Some),
        j > 0 ==> ass::section_at(lines, j - 1) == Section::Events && ass::columns_of(
            lines[j - 1],
        ) is Some,
    ensures
        j > 0 ==> ass::columns_at(lines, k) == ass::columns_of(lines[j - 1]),
        j == 0 ==> ass::columns_at(lines, k) is None,
    decreases k,
{
    if k > j {
        assert(!(ass::section_at(lines, k - 1) == Section::Events && ass::columns_of(
            lines[k - 1],
        ) is Some));
        the_last_columns_are_in_force(lines, k - 1, j);
    }
}

/// Whether a text begins with the word that marks column names, in any case.
pub open spec fn names_columns(s: Seq<char>) -> bool {
    s.len() >= 7 && (s[0] == 'F' || s[0] == 'f') && (s[1] == 'O' || s[1] == 'o') && (s[2] == 'R'
        || s[2] == 'r') && (s[3] == 'M' || s[3] == 'm') && (s[4] == 'A' || s[4] == 'a') && (s[5]
        == 'T' || s[5] == 't') && s[6] == ':'
}

proof fn lemma_lower(c: char, d: char)
    requires
        97 <= d as int <= 122,
    ensures
        text::lower(c) == d <==> c == d || c as int == d as int - 32,
{
}

/// A line names columns if and only if it begins, white space aside, with
/// `Format:`. Each of the names behind it, between commas, is taken trimmed and
/// in small letters.
pub proof fn columns_are_read_back(line: Seq<char>, names: Seq<Seq<char>>)
    ensures
        ass::columns_of(line) is Some <==> names_columns(text::trimmed(line)),
        names_columns(text::trimmed(line)) && names.len() >= 1 && text::trimmed(line).skip(7)
            == text_laws::with_between(names, ',') && (forall|k: int|
            0 <= k < names.len() ==> !(#[trigger] names[k]).contains(',')) ==> {
            let columns = ass::columns_of(line)->0;
            columns.len() == names.len() && forall|k: int|
                0 <= k < names.len() ==> #[trigger] columns[k] == text::lowered(
                    text::trimmed(names[k]),
                )
        },
{
    let inner = text::trimmed(line);
    let low = text::lowered(inner);
    reveal_strlit("format:");
    if inner.len() >= 7 {
        lemma_lower(inner[0], 'f');
        lemma_lower(inner[1], 'o');
        lemma_lower(inner[2], 'r');
        lemma_lower(inner[3], 'm');
        lemma_lower(inner[4], 'a');
        lemma_lower(inner[5], 't');
        assert(text::lower(inner[6]) == ':' <==> inner[6] == ':');
        if names_columns(inner) {
            assert(low.take(7) =~= "format:"@);
        }
        if "format:"@.is_prefix_of(low) {
            assert(forall|k: int| 0 <= k < 7 ==> low[k] == "format:"@[k]);
            assert(low[0] == 'f' && low[1] == 'o' && low[2] == 'r' && low[3] == 'm' && low[4] == 'a'
                && low[5] == 't' && low[6] == ':');
        }
    }
    if names_columns(inner) && names.len() >= 1 && inner.skip(7) == text_laws::with_between(
        names,
        ',',
    ) && (forall|k: int| 0 <= k < names.len() ==> !(#[trigger] names[k]).contains(',')) {
        let s = inner.skip(7);
        assert(names.last() == names[names.len() - 1]);
        lemma_enough_room(names);
        text_laws::pieces_are_found_again(names, ',', s.len() as int + 1);
        assert(text::split_all(s, ',') == names);
    }
}

proof fn lemma_enough_room(names: Seq<Seq<char>>)
    requires
        names.len() >= 1,
    ensures
        names.len() <= text_laws::with_between(names, ',').len() + 1,
    decreases names.len(),
{
    if names.len() > 1 {
        lemma_enough_room(names.drop_first());
    }
}

/// A line opens a section if and only if it is a name in square brackets,
/// white space around it aside. The names that matter are taken in any case.
pub proof fn headers_open_sections(line: Seq<char>)
    ensures
        ass::section_opened(line) is Some <==> {
            let s = text::trimmed(line);
            s.len() >= 2 && s[0] == '[' && s[s.len() - 1] == ']'
        },
        ass::section_opened(line) is Some ==> {
            let s = text::trimmed(line);
            let name = text::lowered(s.subrange(1, s.len() - 1));
            let section = ass::section_opened(line)->0;
            &&& section == Section::ScriptInfo <==> name == seq![
                's', 'c', 'r', 'i', 'p', 't', ' ', 'i', 'n', 'f', 'o',
            ]
            &&& section == Section::Styles <==> (name == seq![
                'v', '4', ' ', 's', 't', 'y', 'l', 'e', 's',
            ] || name == seq!['v', '4', '+', ' ', 's', 't', 'y', 'l', 'e', 's'] || name == seq![
                'v', '4', '+', '+', ' ', 's', 't', 'y', 'l', 'e', 's',
            ])
            &&& section == Section::Events <==> name == seq!['e', 'v', 'e', 'n', 't', 's']
        },
{
    reveal_strlit("script info");
    reveal_strlit("v4 styles");
    reveal_strlit("v4+ styles");
    reveal_strlit("v4++ styles");
    reveal_strlit("events");
    assert("script info"@ =~= seq!['s', 'c', 'r', 'i', 'p', 't', ' ', 'i', 'n', 'f', 'o']);
    assert("v4 styles"@ =~= seq!['v', '4', ' ', 's', 't', 'y', 'l', 'e', 's']);
    assert("v4+ styles"@ =~= seq!['v', '4', '+', ' ', 's', 't', 'y', 'l', 'e', 's']);
    assert("v4++ styles"@ =~= seq!['v', '4', '+', '+', ' ', 's', 't', 'y', 'l', 'e', 's']);
    assert("events"@ =~= seq!['e', 'v', 'e', 'n', 't', 's']);
    let a = "script info"@;
    let b = "v4 styles"@;
    let c = "v4+ styles"@;
    let d = "v4++ styles"@;
    let e = "events"@;
    assert(a[0] != b[0] && a[0] != c[0] && a[0] != d[0] && a[0] != e[0]);
    assert(b[0] != e[0] && c[0] != e[0] && d[0] != e[0]);
}

/// A line belongs to the section of the last header up to it, a header to the
/// section that it opens itself; in front of all headers there is none.
pub proof fn lines_belong_to_the_last_header(lines: Seq<Seq<char>>, k: int, j: int)
    requires
        0 <= j <= k + 1 <= lines.len(),
        forall|i: int| j <= i <= k ==> ass::section_opened(#[trigger] lines[i]) is None,
        j > 0 ==> ass::section_opened(lines[j - 1]) is Some,
    ensures
        j > 0 ==> ass::section_at(lines, k) == ass::section_opened(lines[j - 1])->0,
        j == 0 ==> ass::section_at(lines, k) == Section::Other,
    decreases k + 1,
{
    if k >= j {
        assert(ass::section_opened(lines[k]) is None);
        lines_belong_to_the_last_header(lines, k - 1, j);
    }
}

/// The lines of a section are those of the script that belong to it, in
/// their order: each line of the section has as many in front of it as there
/// are in front of it in the script.
pub proof fn sections_hold_their_lines(lines: Seq<Seq<char>>, n: int, section: Section, k: int)
    requires
        0 <= k < n <= lines.len(),
    ensures
        ass::section_at(lines, k) == section ==> ass::lines_in(lines, k, section).len()
            < ass::lines_in(lines, n, section).len() && ass::lines_in(
            lines,
            n,
            section,
        )[ass::lines_in(lines, k, section).len() as int] == lines[k],
        ass::section_at(lines, k) != section ==> ass::lines_in(lines, k + 1, section)
            == ass::lines_in(lines, k, section),
        ass::section_at(lines, k) == section ==> ass::lines_in(lines, k + 1, section).len()
            == ass::lines_in(lines, k, section).len() + 1,
        ass::lines_in(lines, 0, section).len() == 0,
        ass::lines_in(lines, k, section).len() <= ass::lines_in(lines, n, section).len(),
    decreases n,
{
    if k < n - 1 {
        sections_hold_their_lines(lines, n - 1, section, k);
    }
}

/// Only blank lines are cut off at the end, and none is left there.
pub proof fn only_blank_lines_are_cut(lines: Seq<Seq<char>>)
    ensures
        ass::without_blank_end(lines).is_prefix_of(lines),
        forall|k: int|
            ass::without_blank_end(lines).len() <= k < lines.len() ==> text::trimmed(
                #[trigger] lines[k],
            ).len() == 0,
        ass::without_blank_end(lines).len() > 0 ==> text::trimmed(
            ass::without_blank_end(lines).last(),
        ).len() > 0,
    decreases lines.len(),
{
    let kept = ass::without_blank_end(lines);
    if lines.len() > 0 && text::trimmed(lines.last()).len() == 0 {
        only_blank_lines_are_cut(lines.drop_last());
        assert(lines.drop_last().take(kept.len() as int) =~= lines.take(kept.len() as int));
        assert forall|k: int| kept.len() <= k < lines.len() implies text::trimmed(
            #[trigger] lines[k],
        ).len() == 0 by {
            if k < lines.len() - 1 {
                assert(lines.drop_last()[k] == lines[k]);
            }
        }
    } else {
        assert(lines.take(lines.len() as int) =~= lines);
    }
}

proof fn lemma_joined_is_between(lines: Seq<Seq<char>>)
    ensures
        ass::line_joined(lines) == text_laws::with_between(lines, '\n'),
    decreases lines.len(),
{
    if lines.len() > 1 {
        lemma_joined_is_between(lines.drop_last());
        lemma_between_pushed(lines.drop_last(), lines.last());
        assert(lines.drop_last().push(lines.last()) =~= lines);
    }
}

proof fn lemma_between_pushed(lines: Seq<Seq<char>>, last: Seq<char>)
    requires
        lines.len() >= 1,
    ensures
        text_laws::with_between(lines.push(last), '\n') == text_laws::with_between(lines, '\n')
            + seq!['\n'] + last,
    decreases lines.len(),
{
    let all = lines.push(last);
    reveal_with_fuel(text_laws::with_between, 3);
    if lines.len() == 1 {
        assert(all.drop_first() =~= seq![last]);
    } else {
        lemma_between_pushed(lines.drop_first(), last);
        assert(all.drop_first() =~= lines.drop_first().push(last));
        assert(text_laws::with_between(all, '\n') =~= text_laws::with_between(lines, '\n')
            + seq!['\n'] + last);
    }
}

/// The private data of a script with styles is, line by line, the lines of its
/// information and then those of its styles, blank lines at the end of either
/// left out, and a line feed at the end. A script without styles has none.
pub proof fn private_data_is_information_and_styles(script: Seq<char>)
    ensures
        ({
            let lines = text::lines_of(ass::unix_lines(script));
            let n = lines.len() as int;
            let info = ass::without_blank_end(ass::lines_in(lines, n, Section::ScriptInfo));
            let styles = ass::without_blank_end(ass::lines_in(lines, n, Section::Styles));
            &&& ass::private_text(script) is None <==> styles.len() == 0
            &&& styles.len() > 0 ==> ass::private_text(script) == Some(
                text_laws::with_between(info + styles, '\n') + seq!['\n'],
            )
        }),
{
    let lines = text::lines_of(ass::unix_lines(script));
    let n = lines.len() as int;
    let all = ass::lines_in(lines, n, Section::ScriptInfo);
    let info = ass::without_blank_end(all);
    let styles = ass::without_blank_end(ass::lines_in(lines, n, Section::Styles));
    if styles.len() > 0 {
        lemma_joined_is_between(info);
        lemma_joined_is_between(styles);
        only_blank_lines_are_cut(all);
        if info.len() == 0 {
            assert(info + styles =~= styles);
        } else {
            lemma_between_both(info, styles);
            lemma_not_empty(info);
        }
        assert(ass::private_text(script)->0 =~= text_laws::with_between(info + styles, '\n')
            + seq!['\n']);
    }
}

proof fn lemma_not_empty(info: Seq<Seq<char>>)
    requires
        info.len() > 0,
        text::trimmed(info.last()).len() > 0,
    ensures
        text_laws::with_between(info, '\n').len() > 0,
{
    if info.len() == 1 {
        let (front, back) = text_laws::trimming_takes_white_space_off(info[0]);
        assert(info[0].len() >= text::trimmed(info[0]).len());
    }
}

proof fn lemma_between_both(a: Seq<Seq<char>>, b: Seq<Seq<char>>)
    requires
        a.len() >= 1,
        b.len() >= 1,
    ensures
        text_laws::with_between(a + b, '\n') == text_laws::with_between(a, '\n') + seq!['\n']
            + text_laws::with_between(b, '\n'),
    decreases a.len(),
{
    if a.len() == 1 {
        assert((a + b).drop_first() =~= b);
    } else {
        lemma_between_both(a.drop_first(), b);
        assert((a + b).drop_first() =~= a.drop_first() + b);
        assert(text_laws::with_between(a + b, '\n') =~= text_laws::with_between(a, '\n')
            + seq!['\n'] + text_laws::with_between(b, '\n'));
    }
}

/// No carriage return is left, and a text without any stays as it is.
pub proof fn line_breaks_become_line_feeds(s: Seq<char>)
    ensures
        !ass::unix_lines(s).contains('\r'),
        !s.contains('\r') ==> ass::unix_lines(s) == s,
    decreases s.len(),
{
    let out = ass::unix_lines(s);
    if s.len() > 0 {
        let n = if s[0] == '\r' && s.len() > 1 && s[1] == '\n' {
            2int
        } else {
            1int
        };
        line_breaks_become_line_feeds(s.skip(n));
        let rest = ass::unix_lines(s.skip(n));
        assert(out.skip(1) =~= rest);
        if out.contains('\r') {
            let k = choose|k: int| 0 <= k < out.len() && out[k] == '\r';
            assert(rest[k - 1] == '\r');
        }
        if !s.contains('\r') {
            assert(s.contains(s[0]));
            if s.skip(1).contains('\r') {
                let k = choose|k: int| 0 <= k < s.skip(1).len() && s.skip(1)[k] == '\r';
                assert(s[k + 1] == '\r');
            }
            assert(out =~= s);
        }
    }
}

/// A line break, be it a carriage return, a line feed or both, becomes one line
/// feed, and what stands on either side is taken by itself.
pub proof fn every_break_becomes_one_line_feed(front: Seq<char>, rest: Seq<char>)
    requires
        !front.contains('\r'),
    ensures
        ass::unix_lines(front + seq!['\n'] + rest) == front + seq!['\n'] + ass::unix_lines(rest),
        ass::unix_lines(front + seq!['\r', '\n'] + rest) == front + seq!['\n'] + ass::unix_lines(
            rest,
        ),
        rest.len() == 0 || rest[0] != '\n' ==> ass::unix_lines(front + seq!['\r'] + rest) == front
            + seq!['\n'] + ass::unix_lines(rest),
    decreases front.len(),
{
    let a = front + seq!['\n'] + rest;
    let b = front + seq!['\r', '\n'] + rest;
    let c = front + seq!['\r'] + rest;
    if front.len() == 0 {
        assert(a.skip(1) =~= rest);
        assert(b.skip(2) =~= rest);
        assert(c.skip(1) =~= rest);
        assert(ass::unix_lines(a) =~= front + seq!['\n'] + ass::unix_lines(rest));
        assert(ass::unix_lines(b) =~= front + seq!['\n'] + ass::unix_lines(rest));
        if rest.len() == 0 || rest[0] != '\n' {
            assert(ass::unix_lines(c) =~= front + seq!['\n'] + ass::unix_lines(rest));
        }
    } else {
        let less = front.drop_first();
        assert(front.contains(front[0]));
        if less.contains('\r') {
            let k = choose|k: int| 0 <= k < less.len() && less[k] == '\r';
            assert(front[k + 1] == '\r');
        }
        every_break_becomes_one_line_feed(less, rest);
        assert(a.skip(1) =~= less + seq!['\n'] + rest);
        assert(b.skip(1) =~= less + seq!['\r', '\n'] + rest);
        assert(c.skip(1) =~= less + seq!['\r'] + rest);
        assert(ass::unix_lines(a) =~= front + seq!['\n'] + ass::unix_lines(rest));
        assert(ass::unix_lines(b) =~= front + seq!['\n'] + ass::unix_lines(rest));
        if rest.len() == 0 || rest[0] != '\n' {
            assert(ass::unix_lines(c) =~= front + seq!['\n'] + ass::unix_lines(rest));
        }
    }
}

proof fn lemma_step(p: Seq<Seq<char>>, k: int, front: Seq<char>, rest: Seq<char>)
    requires
        0 <= k < p.len() - 1,
        text_laws::with_between(p.skip(k + 1), ',') == rest,
    ensures
        text_laws::with_between(p.skip(k), ',') == p[k] + seq![','] + rest,
        front + p[k] + seq![','] + rest == front + text_laws::with_between(p.skip(k), ','),
{
    assert(p.skip(k).drop_first() =~= p.skip(k + 1));
    assert(front + p[k] + seq![','] + rest =~= front + (p[k] + seq![','] + rest));
}

/// A block holds its fields in order: where no field holds a comma, the text of
/// the block splits into the number of the event, the layer, the style, the
/// name, the three margins and the effect, and then the text, commas and all.
pub proof fn blocks_hold_the_fields_in_order(read_order: u32, event: EventModel)
    requires
        !event.layer.contains(','),
        !event.style.contains(','),
        !event.name.contains(','),
        !event.margin_l.contains(','),
        !event.margin_r.contains(','),
        !event.margin_v.contains(','),
        !event.effect.contains(','),
    ensures
        ({
            let fields = text::split_up_to(ass::block_text(read_order, event), ',', 9);
            &&& fields.len() == 9
            &&& text_laws::number_of(fields[0], 10) == read_order
            &&& fields[1] == event.layer
            &&& fields[2] == event.style
            &&& fields[3] == event.name
            &&& fields[4] == event.margin_l
            &&& fields[5] == event.margin_r
            &&& fields[6] == event.margin_v
            &&& fields[7] == event.effect
            &&& fields[8] == event.text
        }),
{
    let number = text::decimal(read_order as int);
    text_laws::decimals_spell_the_number(read_order as int);
    if number.contains(',') {
        let k = choose|k: int| 0 <= k < number.len() && number[k] == ',';
        assert(number[k] as int == 44);
    }
    let p = seq![
        number,
        event.layer,
        event.style,
        event.name,
        event.margin_l,
        event.margin_r,
        event.margin_v,
        event.effect,
        event.text,
    ];
    reveal_strlit(",");
    assert(","@ =~= seq![',']);
    let a0 = number + ","@;
    let a1 = a0 + event.layer + ","@;
    let a2 = a1 + event.style + ","@;
    let a3 = a2 + event.name + ","@;
    let a4 = a3 + event.margin_l + ","@;
    let a5 = a4 + event.margin_r + ","@;
    let a6 = a5 + event.margin_v + ","@;
    assert(p.skip(8) =~= seq![event.text]);
    lemma_step(p, 7, a6, event.text);
    lemma_step(p, 6, a5, text_laws::with_between(p.skip(7), ','));
    lemma_step(p, 5, a4, text_laws::with_between(p.skip(6), ','));
    lemma_step(p, 4, a3, text_laws::with_between(p.skip(5), ','));
    lemma_step(p, 3, a2, text_laws::with_between(p.skip(4), ','));
    lemma_step(p, 2, a1, text_laws::with_between(p.skip(3), ','));
    lemma_step(p, 1, a0, text_laws::with_between(p.skip(2), ','));
    assert(p.drop_first() =~= p.skip(1));
    assert(text_laws::with_between(p, ',') == ass::block_text(read_order, event));
    text_laws::pieces_are_found_again(p, ',', 9);
}

} // verus!
