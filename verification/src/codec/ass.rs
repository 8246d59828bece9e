//! ASS and SSA subtitles in Matroska.
//!
//! The script information and the styles of a script make up the private data
//! of the track. Each `Dialogue:` event becomes a block of its own that holds
//!
//! ```text
//! ReadOrder, Layer, Style, Name, MarginL, MarginR, MarginV, Effect, Text
//! ```
//!
//! SSA events have no layer and leave that field empty.

use vstd::prelude::*;
use vstd::string::StringExecFns;
use crate::text::{
    self, chars_of, push_decimal, split_at_most, split_every, split_lines, string_of, to_lower,
    trim,
};

verus! {

/// `s` with every kind of line break made a line feed.
pub open spec fn unix_lines(s: Seq<char>) -> Seq<char>
    decreases s.len(),
{
    if s.len() == 0 {
        s
    } else if s[0] != '\r' {
        seq![s[0]] + unix_lines(s.skip(1))
    } else if s.len() > 1 && s[1] == '\n' {
        seq!['\n'] + unix_lines(s.skip(2))
    } else {
        seq!['\n'] + unix_lines(s.skip(1))
    }
}

/// Makes every kind of line break a line feed.
fn normalise(s: &[char]) -> (out: Vec<char>)
    ensures
        out@ == unix_lines(s@),
{
    let mut out: Vec<char> = Vec::new();
    let mut i: usize = 0;
    assert(s@.skip(0) =~= s@);
    assert(out@ + unix_lines(s@.skip(0)) =~= unix_lines(s@));
    while i < s.len()
        invariant
            i <= s@.len(),
            out@ + unix_lines(s@.skip(i as int)) == unix_lines(s@),
        decreases s@.len() - i,
    {
        let ghost rest = s@.skip(i as int);
        let ghost before = out@;
        let c: char = s[i];
        if c != '\r' {
            out.push(c);
            i += 1;
            assert(rest.skip(1) =~= s@.skip(i as int));
            assert(out@ + unix_lines(rest.skip(1)) =~= before + (seq![c] + unix_lines(
                rest.skip(1),
            )));
        } else if s.len() - i > 1 && s[i + 1] == '\n' {
            out.push('\n');
            i += 2;
            assert(rest.skip(2) =~= s@.skip(i as int));
            assert(out@ + unix_lines(rest.skip(2)) =~= before + (seq!['\n'] + unix_lines(
                rest.skip(2),
            )));
        } else {
            out.push('\n');
            i += 1;
            assert(rest.skip(1) =~= s@.skip(i as int));
            assert(out@ + unix_lines(rest.skip(1)) =~= before + (seq!['\n'] + unix_lines(
                rest.skip(1),
            )));
        }
    }
    assert(s@.skip(i as int) =~= Seq::empty());
    assert(out@ + unix_lines(s@.skip(i as int)) =~= out@);
    out
}

/// The sections of a script that matter here.
#[derive(Clone, Copy, Debug, PartialEq, Eq, Structural)]
pub enum Section {
    ScriptInfo,
    Styles,
    Events,
    Other,
}

/// The section that a line opens, if it is a section header.
pub open spec fn section_opened(line: Seq<char>) -> Option<Section> {
    let inner = text::trimmed(line);
    if inner.len() < 2 || inner[0] != '[' || inner.last() != ']' {
        None
    } else {
        let name = text::lowered(inner.subrange(1, inner.len() - 1));
        Some(
            if name == "script info"@ {
                Section::ScriptInfo
            } else if name == "v4 styles"@ || name == "v4+ styles"@ || name == "v4++ styles"@ {
                Section::Styles
            } else if name == "events"@ {
                Section::Events
            } else {
                Section::Other
            },
        )
    }
}

/// Whether some characters are a given text.
fn reads(chars: &[char], expected: &str) -> (same: bool)
    ensures
        same == (chars@ == expected@),
{
    let other = chars_of(expected);
    if chars.len() != other.len() {
        return false;
    }
    let mut i: usize = 0;
    while i < chars.len()
        invariant
            i <= chars@.len() == other@.len(),
            other@ == expected@,
            forall|k: int| 0 <= k < i ==> chars@[k] == other@[k],
        decreases chars@.len() - i,
    {
        if chars[i] != other[i] {
            return false;
        }
        i += 1;
    }
    assert(chars@ =~= other@);
    true
}

/// Whether some characters begin with a given text.
fn begins(chars: &[char], prefix: &str) -> (yes: bool)
    ensures
        yes == prefix@.is_prefix_of(chars@),
{
    let expected = chars_of(prefix);
    if chars.len() < expected.len() {
        return false;
    }
    let front = vstd::slice::slice_subrange(chars, 0, expected.len());
    let same = reads(front, prefix);
    assert(front@ =~= chars@.take(prefix@.len() as int));
    same
}

/// Recognises a section header.
fn section_of(line: &[char]) -> (section: Option<Section>)
    ensures
        section == section_opened(line@),
{
    let inner = trim(line);
    if inner.len() < 2 || inner[0] != '[' || inner[inner.len() - 1] != ']' {
        return None;
    }
    let lowered = to_lower(vstd::slice::slice_subrange(inner, 1, inner.len() - 1));
    let name = lowered.as_slice();
    Some(
        if reads(name, "script info") {
            Section::ScriptInfo
        } else if reads(name, "v4 styles") || reads(name, "v4+ styles") || reads(
            name,
            "v4++ styles",
        ) {
            Section::Styles
        } else if reads(name, "events") {
            Section::Events
        } else {
            Section::Other
        },
    )
}

/// The section that the `k`-th line belongs to; a header belongs to the
/// section that it opens.
pub open spec fn section_at(lines: Seq<Seq<char>>, k: int) -> Section
    decreases k + 1,
{
    if k < 0 {
        Section::Other
    } else {
        match section_opened(lines[k]) {
            Some(section) => section,
            None => section_at(lines, k - 1),
        }
    }
}

/// Those of the first `n` lines that belong to a section.
pub open spec fn lines_in(lines: Seq<Seq<char>>, n: int, section: Section) -> Seq<Seq<char>>
    decreases n,
{
    if n <= 0 {
        Seq::empty()
    } else if section_at(lines, n - 1) == section {
        lines_in(lines, n - 1, section).push(lines[n - 1])
    } else {
        lines_in(lines, n - 1, section)
    }
}

/// `lines` without blank lines at the end.
pub open spec fn without_blank_end(lines: Seq<Seq<char>>) -> Seq<Seq<char>>
    decreases lines.len(),
{
    if lines.len() > 0 && text::trimmed(lines.last()).len() == 0 {
        without_blank_end(lines.drop_last())
    } else {
        lines
    }
}

/// `lines`, each behind the last with a line feed between.
pub open spec fn line_joined(lines: Seq<Seq<char>>) -> Seq<char>
    decreases lines.len(),
{
    if lines.len() == 0 {
        Seq::empty()
    } else if lines.len() == 1 {
        lines[0]
    } else {
        line_joined(lines.drop_last()) + seq!['\n'] + lines.last()
    }
}

/// The private data text of a script: its information and its styles, each
/// without blank lines at the end; nothing where it has no styles.
pub open spec fn private_text(script: Seq<char>) -> Option<Seq<char>> {
    let lines = text::lines_of(unix_lines(script));
    let n = lines.len() as int;
    let info = line_joined(without_blank_end(lines_in(lines, n, Section::ScriptInfo)));
    let styles = without_blank_end(lines_in(lines, n, Section::Styles));
    if styles.len() == 0 {
        None
    } else {
        Some(
            info + (if info.len() > 0 {
                seq!['\n']
            } else {
                Seq::empty()
            }) + line_joined(styles) + seq!['\n'],
        )
    }
}

/// Removes blank lines at the end.
fn drop_blank_end(lines: &mut Vec<Vec<char>>)
    ensures
        text::contents(final(lines)@) == without_blank_end(text::contents(old(lines)@)),
{
    while lines.len() > 0 && trim(lines[lines.len() - 1].as_slice()).len() == 0
        invariant
            without_blank_end(text::contents(lines@)) == without_blank_end(
                text::contents(old(lines)@),
            ),
        decreases lines@.len(),
    {
        let ghost before = lines@;
        let _ = lines.pop();
        proof {
            assert(text::contents(lines@) =~= text::contents(before).drop_last());
            assert(text::contents(before).last() == before.last()@);
        }
    }
    proof {
        if lines@.len() > 0 {
            assert(text::contents(lines@).last() == lines@.last()@);
        }
    }
}

/// Appends some characters.
fn push_chars(out: &mut Vec<char>, chars: &[char])
    ensures
        final(out)@ == old(out)@ + chars@,
{
    out.extend_from_slice(chars);
    assert(out@ =~= old(out)@ + chars@);
}

/// Joins lines with line feeds.
fn join_lines(lines: &Vec<Vec<char>>) -> (out: Vec<char>)
    ensures
        out@ == line_joined(text::contents(lines@)),
{
    let ghost all = text::contents(lines@);
    let mut out: Vec<char> = Vec::new();
    let mut i: usize = 0;
    assert(all.take(0) =~= Seq::empty());
    while i < lines.len()
        invariant
            i <= lines@.len(),
            all == text::contents(lines@),
            out@ == line_joined(all.take(i as int)),
        decreases lines@.len() - i,
    {
        proof {
            assert(all.take(i + 1).drop_last() =~= all.take(i as int));
            assert(all.take(i + 1).last() == lines@[i as int]@);
        }
        if i > 0 {
            out.push('\n');
        }
        push_chars(&mut out, lines[i].as_slice());
        assert(out@ =~= line_joined(all.take(i + 1)));
        i += 1;
    }
    assert(all.take(i as int) =~= all);
    out
}

/// Collects the lines of a section.
fn collect_section(lines: &Vec<Vec<char>>, section: Section) -> (found: Vec<Vec<char>>)
    ensures
        text::contents(found@) == lines_in(
            text::contents(lines@),
            lines@.len() as int,
            section,
        ),
{
    let ghost all = text::contents(lines@);
    let mut found: Vec<Vec<char>> = Vec::new();
    let mut current = Section::Other;
    let mut i: usize = 0;
    assert(text::contents(found@) =~= Seq::empty());
    while i < lines.len()
        invariant
            i <= lines@.len(),
            all == text::contents(lines@),
            current == section_at(all, i - 1),
            text::contents(found@) == lines_in(all, i as int, section),
        decreases lines@.len() - i,
    {
        assert(all[i as int] == lines@[i as int]@);
        match section_of(lines[i].as_slice()) {
            Some(opened) => {
                current = opened;
            },
            None => {},
        }
        if current == section {
            let line = vstd::slice::slice_to_vec(lines[i].as_slice());
            let ghost before = found@;
            found.push(line);
            assert(text::contents(found@) =~= text::contents(before).push(line@));
        }
        i += 1;
    }
    found
}

/// The private data of a track, from a complete script: the script
/// information and the styles with their headers, and line feeds as line
/// breaks. A script without styles gives nothing.
pub fn codec_private_from_script(script: &str) -> (private: Option<Vec<u8>>)
    ensures
        match private {
            Some(bytes) => private_text(script@) matches Some(text) && bytes@
                == vstd::utf8::encode_utf8(text),
            None => private_text(script@) is None,
        },
{
    let chars = chars_of(script);
    let unix = normalise(chars.as_slice());
    let lines = split_lines(unix.as_slice());
    let mut info = collect_section(&lines, Section::ScriptInfo);
    let mut styles = collect_section(&lines, Section::Styles);
    assert(text::contents(lines@).len() == lines@.len());
    drop_blank_end(&mut info);
    drop_blank_end(&mut styles);
    assert(text::contents(styles@).len() == styles@.len());
    if styles.len() == 0 {
        return None;
    }
    let mut out = join_lines(&info);
    if out.len() > 0 {
        out.push('\n');
    }
    let styles_text = join_lines(&styles);
    push_chars(&mut out, styles_text.as_slice());
    out.push('\n');
    assert(out@ =~= private_text(script@)->0);
    let text = string_of(out.as_slice());
    Some(vstd::slice::slice_to_vec(text.as_str().as_bytes()))
}

/// A `Dialogue:` event: the fields that a block holds.
#[derive(Debug, Clone, PartialEq, Eq)]
pub struct AssEvent {
    /// Layer; empty for SSA.
    pub layer: String,
    /// Style name.
    pub style: String,
    /// Speaker.
    pub name: String,
    /// Left margin.
    pub margin_l: String,
    /// Right margin.
    pub margin_r: String,
    /// Vertical margin.
    pub margin_v: String,
    /// Effect.
    pub effect: String,
    /// Text, with override tags and escapes as they came.
    pub text: String,
}

/// An event as character sequences.
pub struct EventModel {
    pub layer: Seq<char>,
    pub style: Seq<char>,
    pub name: Seq<char>,
    pub margin_l: Seq<char>,
    pub margin_r: Seq<char>,
    pub margin_v: Seq<char>,
    pub effect: Seq<char>,
    pub text: Seq<char>,
}

impl View for AssEvent {
    type V = EventModel;

    open spec fn view(&self) -> EventModel {
        EventModel {
            layer: self.layer@,
            style: self.style@,
            name: self.name@,
            margin_l: self.margin_l@,
            margin_r: self.margin_r@,
            margin_v: self.margin_v@,
            effect: self.effect@,
            text: self.text@,
        }
    }
}

/// The views of a run of events.
pub open spec fn event_models(events: Seq<AssEvent>) -> Seq<EventModel> {
    events.map_values(|event: AssEvent| event@)
}

/// The column names of a `Format:` line, lowercase and trimmed.
pub open spec fn columns_of(line: Seq<char>) -> Option<Seq<Seq<char>>> {
    let inner = text::trimmed(line);
    if "format:"@.is_prefix_of(text::lowered(inner)) {
        Some(
            text::split_all(inner.skip(7), ',').map_values(
                |name: Seq<char>| text::lowered(text::trimmed(name)),
            ),
        )
    } else {
        None
    }
}

/// The columns in force at the `k`-th line: those of the last `Format:` line
/// before it within the events.
pub open spec fn columns_at(lines: Seq<Seq<char>>, k: int) -> Option<Seq<Seq<char>>>
    decreases k,
{
    if k <= 0 {
        None
    } else if section_at(lines, k - 1) == Section::Events && columns_of(lines[k - 1]) is Some {
        columns_of(lines[k - 1])
    } else {
        columns_at(lines, k - 1)
    }
}

/// The position of a column name, or -1.
pub open spec fn column_position(columns: Seq<Seq<char>>, key: Seq<char>, i: int) -> int
    decreases columns.len() - i,
{
    if !(0 <= i < columns.len()) {
        -1
    } else if columns[i] == key {
        i
    } else {
        column_position(columns, key, i + 1)
    }
}

/// The field under a column name; where there is none, the field that stands
/// there in the usual order.
pub open spec fn field(
    columns: Option<Seq<Seq<char>>>,
    fields: Seq<Seq<char>>,
    key: Seq<char>,
    usual: int,
) -> Seq<char> {
    let named = match columns {
        Some(columns) => column_position(columns, key, 0),
        None => -1,
    };
    let pos = if named >= 0 {
        named
    } else {
        usual
    };
    if pos < fields.len() {
        text::trimmed(fields[pos])
    } else {
        Seq::empty()
    }
}

/// The layer of an event. A `Format:` line without a layer column is that of
/// an SSA script.
pub open spec fn layer_field(
    columns: Option<Seq<Seq<char>>>,
    fields: Seq<Seq<char>>,
) -> Seq<char> {
    if columns matches Some(columns) && column_position(columns, "layer"@, 0) < 0 {
        Seq::empty()
    } else {
        field(columns, fields, "layer"@, 0)
    }
}

/// What follows the `Dialogue:` of a line, if the line is an event.
pub open spec fn dialogue_payload(line: Seq<char>) -> Option<Seq<char>> {
    let inner = text::trimmed(line);
    if "Dialogue:"@.is_prefix_of(inner) || "dialogue:"@.is_prefix_of(inner) {
        Some(inner.skip(9))
    } else {
        None
    }
}

/// The event on a line, if there is one with all ten fields.
pub open spec fn event_on(line: Seq<char>, columns: Option<Seq<Seq<char>>>) -> Option<EventModel> {
    match dialogue_payload(line) {
        None => None,
        Some(payload) => {
            let fields = text::split_up_to(payload, ',', 10);
            if fields.len() < 10 {
                None
            } else {
                Some(
                    EventModel {
                        layer: layer_field(columns, fields),
                        style: field(columns, fields, "style"@, 3),
                        name: field(columns, fields, "name"@, 4),
                        margin_l: field(columns, fields, "marginl"@, 5),
                        margin_r: field(columns, fields, "marginr"@, 6),
                        margin_v: field(columns, fields, "marginv"@, 7),
                        effect: field(columns, fields, "effect"@, 8),
                        text: fields[9],
                    },
                )
            }
        },
    }
}

/// The events on the first `n` lines.
pub open spec fn events_on(lines: Seq<Seq<char>>, n: int) -> Seq<EventModel>
    decreases n,
{
    if n <= 0 {
        Seq::empty()
    } else {
        match event_on(lines[n - 1], columns_at(lines, n - 1)) {
            Some(event) => events_on(lines, n - 1).push(event),
            None => events_on(lines, n - 1),
        }
    }
}

/// The events of a script.
pub open spec fn script_events(script: Seq<char>) -> Seq<EventModel> {
    let lines = text::lines_of(unix_lines(script));
    events_on(lines, lines.len() as int)
}

/// Columns as character sequences.
pub open spec fn column_texts(columns: Option<Vec<Vec<char>>>) -> Option<Seq<Seq<char>>> {
    match columns {
        Some(columns) => Some(text::contents(columns@)),
        None => None,
    }
}

/// Reads the column names of a `Format:` line.
fn read_columns(line: &[char]) -> (columns: Option<Vec<Vec<char>>>)
    ensures
        column_texts(columns) == columns_of(line@),
{
    let inner = trim(line);
    let lowered = to_lower(inner);
    if !begins(lowered.as_slice(), "format:") {
        return None;
    }
    proof {
        reveal_strlit("format:");
        assert(lowered@.len() == inner@.len());
    }
    let list = vstd::slice::slice_subrange(inner, 7, inner.len());
    assert(list@ =~= inner@.skip(7));
    let raw = split_every(list, ',');
    let mut columns: Vec<Vec<char>> = Vec::new();
    let mut i: usize = 0;
    while i < raw.len()
        invariant
            i <= raw@.len(),
            columns@.len() == i,
            forall|k: int|
                0 <= k < i ==> (#[trigger] columns@[k])@ == text::lowered(
                    text::trimmed(raw@[k]@),
                ),
        decreases raw@.len() - i,
    {
        columns.push(to_lower(trim(raw[i].as_slice())));
        i += 1;
    }
    proof {
        let expected = text::contents(raw@).map_values(
            |name: Seq<char>| text::lowered(text::trimmed(name)),
        );
        assert(text::contents(columns@) =~= expected);
    }
    Some(columns)
}

/// Finds a column name.
fn find_column(columns: &Vec<Vec<char>>, key: &str) -> (pos: Option<usize>)
    ensures
        match pos {
            Some(pos) => column_position(text::contents(columns@), key@, 0) == pos,
            None => column_position(text::contents(columns@), key@, 0) < 0,
        },
{
    let mut i: usize = 0;
    while i < columns.len()
        invariant
            i <= columns@.len(),
            column_position(text::contents(columns@), key@, 0) == column_position(
                text::contents(columns@),
                key@,
                i as int,
            ),
        decreases columns@.len() - i,
    {
        assert(text::contents(columns@)[i as int] == columns@[i as int]@);
        if reads(columns[i].as_slice(), key) {
            return Some(i);
        }
        i += 1;
    }
    None
}

/// Reads the field under a column name.
fn read_field(
    columns: &Option<Vec<Vec<char>>>,
    fields: &Vec<Vec<char>>,
    key: &str,
    usual: usize,
) -> (value: String)
    ensures
        value@ == field(column_texts(*columns), text::contents(fields@), key@, usual as int),
{
    let named = match columns {
        Some(columns) => find_column(columns, key),
        None => None,
    };
    let pos: usize = match named {
        Some(pos) => pos,
        None => usual,
    };
    if pos < fields.len() {
        assert(text::contents(fields@)[pos as int] == fields@[pos as int]@);
        string_of(trim(fields[pos].as_slice()))
    } else {
        let empty = String::new();
        assert(empty@ =~= Seq::empty());
        empty
    }
}

/// Reads the layer of an event.
fn read_layer(columns: &Option<Vec<Vec<char>>>, fields: &Vec<Vec<char>>) -> (value: String)
    ensures
        value@ == layer_field(column_texts(*columns), text::contents(fields@)),
{
    let has_layer = match columns {
        Some(columns) => find_column(columns, "layer").is_some(),
        None => true,
    };
    if !has_layer {
        let empty = String::new();
        assert(empty@ =~= Seq::empty());
        return empty;
    }
    read_field(columns, fields, "layer", 0)
}

/// Reads the event on a line.
fn read_event(line: &[char], columns: &Option<Vec<Vec<char>>>) -> (event: Option<AssEvent>)
    ensures
        match event {
            Some(event) => event_on(line@, column_texts(*columns)) == Some(event@),
            None => event_on(line@, column_texts(*columns)) is None,
        },
{
    let inner = trim(line);
    if !begins(inner, "Dialogue:") && !begins(inner, "dialogue:") {
        return None;
    }
    proof {
        reveal_strlit("Dialogue:");
        reveal_strlit("dialogue:");
    }
    let payload = vstd::slice::slice_subrange(inner, 9, inner.len());
    assert(payload@ =~= inner@.skip(9));
    let fields = split_at_most(payload, ',', 10);
    assert(text::contents(fields@).len() == fields@.len());
    if fields.len() < 10 {
        return None;
    }
    assert(text::contents(fields@)[9] == fields@[9]@);
    Some(
        AssEvent {
            layer: read_layer(columns, &fields),
            style: read_field(columns, &fields, "style", 3),
            name: read_field(columns, &fields, "name", 4),
            margin_l: read_field(columns, &fields, "marginl", 5),
            margin_r: read_field(columns, &fields, "marginr", 6),
            margin_v: read_field(columns, &fields, "marginv", 7),
            effect: read_field(columns, &fields, "effect", 8),
            text: string_of(fields[9].as_slice()),
        },
    )
}

/// The `Dialogue:` events of a script, in order. Lines with too few fields
/// are passed over. The column order is that of the `Format:` line of the
/// events, where there is one.
pub fn parse_dialogue_events(script: &str) -> (events: Vec<AssEvent>)
    ensures
        event_models(events@) == script_events(script@),
{
    let chars = chars_of(script);
    let unix = normalise(chars.as_slice());
    let lines = split_lines(unix.as_slice());
    let ghost all = text::contents(lines@);
    let mut columns: Option<Vec<Vec<char>>> = None;
    let mut current = Section::Other;
    let mut events: Vec<AssEvent> = Vec::new();
    let mut i: usize = 0;
    assert(event_models(events@) =~= Seq::empty());
    while i < lines.len()
        invariant
            i <= lines@.len(),
            all == text::contents(lines@),
            current == section_at(all, i - 1),
            column_texts(columns) == columns_at(all, i as int),
            event_models(events@) == events_on(all, i as int),
        decreases lines@.len() - i,
    {
        assert(all[i as int] == lines@[i as int]@);
        let line = lines[i].as_slice();
        match read_event(line, &columns) {
            Some(event) => {
                let ghost before = events@;
                events.push(event);
                assert(event_models(events@) =~= event_models(before).push(event@));
            },
            None => {},
        }
        match section_of(line) {
            Some(opened) => {
                current = opened;
            },
            None => {},
        }
        if current == Section::Events {
            let found = read_columns(line);
            if found.is_some() {
                columns = found;
            }
        }
        i += 1;
    }
    assert(all.len() == lines@.len());
    events
}

/// The text of a block.
pub open spec fn block_text(read_order: u32, event: EventModel) -> Seq<char> {
    text::decimal(read_order as int) + ","@ + event.layer + ","@ + event.style + ","@ + event.name
        + ","@ + event.margin_l + ","@ + event.margin_r + ","@ + event.margin_v + ","@
        + event.effect + ","@ + event.text
}

/// The payload of the block for an event. `read_order` counts the events of
/// the script in file order, from 1. The text goes in as it is.
pub fn encode_block_payload(read_order: u32, event: &AssEvent) -> (payload: Vec<u8>)
    ensures
        payload@ == vstd::utf8::encode_utf8(block_text(read_order, event@)),
{
    let mut out = String::new();
    push_decimal(&mut out, read_order as u64);
    out.append(",");
    out.append(event.layer.as_str());
    out.append(",");
    out.append(event.style.as_str());
    out.append(",");
    out.append(event.name.as_str());
    out.append(",");
    out.append(event.margin_l.as_str());
    out.append(",");
    out.append(event.margin_r.as_str());
    out.append(",");
    out.append(event.margin_v.as_str());
    out.append(",");
    out.append(event.effect.as_str());
    out.append(",");
    out.append(event.text.as_str());
    assert(out@ =~= block_text(read_order, event@));
    vstd::slice::slice_to_vec(out.as_str().as_bytes())
}

} // verus!
