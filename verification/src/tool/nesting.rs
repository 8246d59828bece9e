//! Tags and chapters of a Matroska file that lie within one another. Deep ones
//! are cut into pieces, so that a reader that goes down by recursion needs
//! little stack.

use vstd::prelude::*;
use crate::wire::{self, put_be64, put_slice};

verus! {

/// How many levels of tags or chapters are read at once.
pub const MAX_LEVELS: u32 = 32;

/// How many of them lie in a piece that is read on its own: the tags or
/// chapters, what they hold and the piece itself are the others.
pub const PIECE_LEVELS: u32 = 29;

/// Number of the tags element, without the marker bit of its length.
pub const TAGS: u64 = 0x0254_C367;

/// Number of the tag element.
pub const TAG: u64 = 0x3373;

/// Number of the simple tag element, which holds others of its kind.
pub const SIMPLE_TAG: u64 = 0x27C8;

/// Number of the chapters element.
pub const CHAPTERS: u64 = 0x0043_A770;

/// Number of the edition element.
pub const EDITION: u64 = 0x05B9;

/// Number of the chapter element, which holds others of its kind.
pub const CHAPTER: u64 = 0x36;

/// Number of the void element, whose contents nobody reads.
pub const VOID: u64 = 0x6C;

/// More than any number of an element.
pub const NUMBER_LIMIT: u64 = 0x100_0000_0000_0000;

/// An element that tags or chapters lie in.
#[derive(Debug, Clone, Copy, PartialEq, Eq, Structural)]
pub enum Holder {
    Segment,
    Tags,
    Tag,
    SimpleTag,
    Chapters,
    Edition,
    Chapter,
}

impl Holder {
    /// The holder with a number, if it is one.
    pub open spec fn numbered(id: int) -> Option<Holder> {
        if id == TAGS {
            Some(Holder::Tags)
        } else if id == TAG {
            Some(Holder::Tag)
        } else if id == SIMPLE_TAG {
            Some(Holder::SimpleTag)
        } else if id == CHAPTERS {
            Some(Holder::Chapters)
        } else if id == EDITION {
            Some(Holder::Edition)
        } else if id == CHAPTER {
            Some(Holder::Chapter)
        } else {
            None
        }
    }

    /// Whether the holder is read for another one.
    pub open spec fn holds(self, inner: Holder) -> bool {
        match self {
            Holder::Segment => inner is Tags || inner is Chapters,
            Holder::Tags => inner is Tag,
            Holder::Tag | Holder::SimpleTag => inner is SimpleTag,
            Holder::Chapters => inner is Edition,
            Holder::Edition | Holder::Chapter => inner is Chapter,
        }
    }

    /// The holder with a number that this one is read for, if any.
    pub open spec fn child(self, id: int) -> Option<Holder> {
        match Holder::numbered(id) {
            Some(inner) => if self.holds(inner) {
                Some(inner)
            } else {
                None
            },
            None => None,
        }
    }

    fn child_numbered(self, id: u64) -> (child: Option<Holder>)
        ensures
            child == self.child(id as int),
    {
        match self {
            Holder::Segment => if id == TAGS {
                Some(Holder::Tags)
            } else if id == CHAPTERS {
                Some(Holder::Chapters)
            } else {
                None
            },
            Holder::Tags => if id == TAG {
                Some(Holder::Tag)
            } else {
                None
            },
            Holder::Tag | Holder::SimpleTag => if id == SIMPLE_TAG {
                Some(Holder::SimpleTag)
            } else {
                None
            },
            Holder::Chapters => if id == EDITION {
                Some(Holder::Edition)
            } else {
                None
            },
            Holder::Edition | Holder::Chapter => if id == CHAPTER {
                Some(Holder::Chapter)
            } else {
                None
            },
        }
    }
}

/// The number of bytes of a number that starts with a byte: the zeros in
/// front of its first bit, and one.
pub open spec fn width_of(first: u8) -> int {
    if first >= 0x80 {
        1
    } else if first >= 0x40 {
        2
    } else if first >= 0x20 {
        3
    } else if first >= 0x10 {
        4
    } else if first >= 8 {
        5
    } else if first >= 4 {
        6
    } else if first >= 2 {
        7
    } else {
        8
    }
}

/// The marker bit in the first byte of a number of some bytes.
pub open spec fn marker_of(width: int) -> u8 {
    if width <= 1 {
        0x80
    } else if width == 2 {
        0x40
    } else if width == 3 {
        0x20
    } else if width == 4 {
        0x10
    } else if width == 5 {
        8
    } else if width == 6 {
        4
    } else if width == 7 {
        2
    } else {
        1
    }
}

/// A number with further bytes behind it.
pub open spec fn appended(head: int, tail: Seq<u8>) -> int
    decreases tail.len(),
{
    if tail.len() == 0 {
        head
    } else {
        appended(head, tail.drop_last()) * 0x100 + tail.last()
    }
}

/// The number at the start of some bytes, and how many of them it takes. A
/// byte with all bits stands for an unknown length and is read as 127.
pub open spec fn number_in(bytes: Seq<u8>) -> Option<(int, int)> {
    if bytes.len() == 0 || bytes[0] == 0 {
        None
    } else if bytes[0] == 0xFF {
        Some((127, 1))
    } else {
        let width = width_of(bytes[0]);
        if width > bytes.len() {
            None
        } else {
            Some((appended(bytes[0] - marker_of(width), bytes.subrange(1, width)), width))
        }
    }
}

/// An element: its number, where that ends, and where the contents start and
/// end.
pub struct ElementModel {
    pub id: int,
    pub middle: int,
    pub start: int,
    pub end: int,
}

/// The element at the start of some bytes, if it is whole.
pub open spec fn element_in(bytes: Seq<u8>) -> Option<ElementModel> {
    match number_in(bytes) {
        None => None,
        Some((id, middle)) => match number_in(bytes.skip(middle)) {
            None => None,
            Some((size, width)) => {
                let start = middle + width;
                if size < 0 || start + size > bytes.len() {
                    None
                } else {
                    Some(ElementModel { id, middle, start, end: start + size })
                }
            },
        },
    }
}

/// Whether elements that lie in a holder have tags and chapters on no more
/// than some levels. What stands behind the last whole element is not read.
pub open spec fn nests_within(bytes: Seq<u8>, holder: Holder, levels: nat) -> bool
    decreases levels, bytes.len(),
{
    match element_in(bytes) {
        None => true,
        Some(element) => {
            &&& holder.child(element.id) matches Some(inner) ==> levels > 0 && nests_within(
                bytes.subrange(element.start, element.end),
                inner,
                (levels - 1) as nat,
            )
            &&& nests_within(bytes.skip(element.end), holder, levels)
        },
    }
}

/// Whether the segment at the start of some bytes has tags and chapters on no
/// more than some levels.
pub open spec fn segment_nests_within(bytes: Seq<u8>, levels: nat) -> bool {
    match element_in(bytes) {
        None => true,
        Some(segment) => nests_within(
            bytes.subrange(segment.start, segment.end),
            Holder::Segment,
            levels,
        ),
    }
}

spec fn power(n: nat) -> nat
    decreases n,
{
    if n == 0 {
        1
    } else {
        0x100 * power((n - 1) as nat)
    }
}

proof fn lemma_appended_bound(head: int, tail: Seq<u8>)
    requires
        head >= 0,
    ensures
        0 <= appended(head, tail) < (head + 1) * power(tail.len()),
    decreases tail.len(),
{
    if tail.len() > 0 {
        lemma_appended_bound(head, tail.drop_last());
        let short = power((tail.len() - 1) as nat);
        assert((head + 1) * (0x100 * short) == 0x100 * ((head + 1) * short)) by (nonlinear_arith);
    } else {
        assert((head + 1) * power(0) == head + 1) by (nonlinear_arith)
            requires
                power(0) == 1,
        ;
    }
}

proof fn lemma_power_bound(head: int, width: int, n: nat)
    requires
        1 <= width <= 8,
        n < width,
        0 <= head < marker_of(width),
    ensures
        (head + 1) * power(n) <= NUMBER_LIMIT,
{
    let marker = marker_of(width) as int;
    let factor = power(n) as int;
    reveal_with_fuel(power, 9);
    assert(n == 0 || n == 1 || n == 2 || n == 3 || n == 4 || n == 5 || n == 6 || n == 7);
    assert((head + 1) * factor <= marker * factor) by (nonlinear_arith)
        requires
            head + 1 <= marker,
            factor >= 0,
    ;
    assert(width == 1 || width == 2 || width == 3 || width == 4 || width == 5 || width == 6
        || width == 7 || width == 8);
}

/// A number has up to eight bytes and is not too large.
proof fn lemma_number_bound(bytes: Seq<u8>)
    ensures
        number_in(bytes) matches Some((value, width)) ==> 1 <= width <= 8 && width <= bytes.len()
            && 0 <= value < NUMBER_LIMIT,
{
    if bytes.len() > 0 && bytes[0] != 0 && bytes[0] != 0xFF && width_of(bytes[0]) <= bytes.len() {
        let width = width_of(bytes[0]);
        let head = bytes[0] - marker_of(width);
        lemma_appended_bound(head, bytes.subrange(1, width));
        lemma_power_bound(head, width, (width - 1) as nat);
    }
}

/// Bytes that begin with a number begin with it whatever stands behind it.
proof fn lemma_same_number(bytes: Seq<u8>, other: Seq<u8>)
    requires
        number_in(bytes) matches Some((_, width)) && other.len() >= width && (forall|i: int|
            0 <= i < width ==> #[trigger] other[i] == bytes[i]),
    ensures
        number_in(other) == number_in(bytes),
{
    lemma_number_bound(bytes);
    let (_, width) = number_in(bytes)->0;
    assert(other[0] == bytes[0]);
    assert(other.subrange(1, width) =~= bytes.subrange(1, width));
}

/// Bytes that begin with an element begin with one of its size whatever it
/// contains.
proof fn lemma_same_element(bytes: Seq<u8>, other: Seq<u8>)
    requires
        element_in(bytes) matches Some(element) && other.len() >= element.end && (forall|i: int|
            0 <= i < element.start ==> #[trigger] other[i] == bytes[i]),
    ensures
        element_in(other) == element_in(bytes),
{
    let element = element_in(bytes)->0;
    lemma_number_bound(bytes);
    lemma_number_bound(bytes.skip(element.middle));
    lemma_same_number(bytes, other);
    lemma_same_number(bytes.skip(element.middle), other.skip(element.middle));
}

/// Reads the number at the start of some bytes.
fn read_number(bytes: &[u8]) -> (number: Option<(u64, usize)>)
    ensures
        match number {
            Some((value, width)) => number_in(bytes@) == Some((value as int, width as int))
                && value < NUMBER_LIMIT && 1 <= width <= 8 && width <= bytes@.len(),
            None => number_in(bytes@) is None,
        },
{
    if bytes.len() == 0 {
        return None;
    }
    let first: u8 = bytes[0];
    if first == 0 {
        return None;
    }
    if first == 0xFF {
        return Some((127, 1));
    }
    let (width, marker): (usize, u8) = if first >= 0x80 {
        (1, 0x80)
    } else if first >= 0x40 {
        (2, 0x40)
    } else if first >= 0x20 {
        (3, 0x20)
    } else if first >= 0x10 {
        (4, 0x10)
    } else if first >= 8 {
        (5, 8)
    } else if first >= 4 {
        (6, 4)
    } else if first >= 2 {
        (7, 2)
    } else {
        (8, 1)
    };
    if width > bytes.len() {
        return None;
    }
    let head: u8 = first - marker;
    let mut value: u64 = head as u64;
    let mut k: usize = 1;
    assert(bytes@.subrange(1, 1) =~= Seq::<u8>::empty());
    while k < width
        invariant
            1 <= k <= width <= 8,
            width <= bytes@.len(),
            head < marker == marker_of(width as int),
            value == appended(head as int, bytes@.subrange(1, k as int)),
        decreases width - k,
    {
        proof {
            let more = bytes@.subrange(1, k + 1);
            assert(more.drop_last() =~= bytes@.subrange(1, k as int));
            assert(more.last() == bytes@[k as int]);
            lemma_appended_bound(head as int, more);
            lemma_power_bound(head as int, width as int, k as nat);
        }
        value = value * 0x100 + bytes[k] as u64;
        k += 1;
    }
    proof {
        lemma_number_bound(bytes@);
    }
    Some((value, width))
}

/// Reads the header of the element at the start of some bytes: its number,
/// where that ends, and where the contents start and end.
fn read_element(bytes: &[u8]) -> (element: Option<(u64, usize, usize, usize)>)
    ensures
        match element {
            Some((id, middle, start, end)) => element_in(bytes@) == Some(
                ElementModel {
                    id: id as int,
                    middle: middle as int,
                    start: start as int,
                    end: end as int,
                },
            ) && 1 <= middle <= 8 && middle < start <= end <= bytes@.len() && end - start
                < NUMBER_LIMIT,
            None => element_in(bytes@) is None,
        },
{
    let (id, middle): (u64, usize) = match read_number(bytes) {
        Some(number) => number,
        None => return None,
    };
    let rest: &[u8] = vstd::slice::slice_subrange(bytes, middle, bytes.len());
    assert(rest@ =~= bytes@.skip(middle as int));
    let (size, width): (u64, usize) = match read_number(rest) {
        Some(number) => number,
        None => return None,
    };
    let start: usize = middle + width;
    if size > (bytes.len() - start) as u64 {
        return None;
    }
    Some((id, middle, start, start + size as usize))
}

/// The number of the void element with some bytes.
pub open spec fn void_number(width: int) -> Seq<u8> {
    if width <= 1 {
        seq![0xECu8]
    } else {
        seq![marker_of(width)] + Seq::new((width - 2) as nat, |i: int| 0u8) + seq![VOID as u8]
    }
}

/// Elements that lie in a holder, with tags and chapters on no more than some
/// levels: those below are made void.
pub open spec fn veiled(bytes: Seq<u8>, holder: Holder, levels: nat) -> Seq<u8>
    decreases levels, bytes.len(),
{
    match element_in(bytes) {
        None => bytes,
        Some(element) => {
            let body = bytes.subrange(element.start, element.end);
            let first = match holder.child(element.id) {
                None => bytes.take(element.end),
                Some(inner) => if levels == 0 {
                    void_number(element.middle) + bytes.subrange(element.middle, element.end)
                } else {
                    bytes.take(element.start) + veiled(body, inner, (levels - 1) as nat)
                },
            };
            first + veiled(bytes.skip(element.end), holder, levels)
        },
    }
}

/// A tag or chapter that lies deep, with its header.
pub struct PieceModel {
    pub holder: Holder,
    pub bytes: Seq<u8>,
}

/// The elements that are made void.
pub open spec fn pieces(bytes: Seq<u8>, holder: Holder, levels: nat) -> Seq<PieceModel>
    decreases levels, bytes.len(),
{
    match element_in(bytes) {
        None => Seq::empty(),
        Some(element) => {
            let body = bytes.subrange(element.start, element.end);
            let first = match holder.child(element.id) {
                None => Seq::empty(),
                Some(inner) => if levels == 0 {
                    seq![PieceModel { holder: inner, bytes: bytes.take(element.end) }]
                } else {
                    pieces(body, inner, (levels - 1) as nat)
                },
            };
            first + pieces(bytes.skip(element.end), holder, levels)
        },
    }
}

proof fn lemma_element_bound(bytes: Seq<u8>)
    ensures
        element_in(bytes) matches Some(element) ==> 1 <= element.middle <= 8 && element.middle
            < element.start <= element.end <= bytes.len() && element.end - element.start
            < NUMBER_LIMIT,
{
    lemma_number_bound(bytes);
    if number_in(bytes) is Some {
        let (_, middle) = number_in(bytes)->0;
        lemma_number_bound(bytes.skip(middle));
    }
}

proof fn lemma_zeros(zeros: Seq<u8>)
    requires
        forall|i: int| 0 <= i < zeros.len() ==> #[trigger] zeros[i] == 0,
    ensures
        appended(0, zeros) == 0,
    decreases zeros.len(),
{
    if zeros.len() > 0 {
        lemma_zeros(zeros.drop_last());
    }
}

/// The number of the void element is read as such.
proof fn lemma_void_number(width: int, rest: Seq<u8>)
    requires
        1 <= width <= 8,
    ensures
        void_number(width).len() == width,
        number_in(void_number(width) + rest) == Some((VOID as int, width)),
{
    let bytes = void_number(width) + rest;
    assert(width_of(bytes[0]) == width);
    if width == 1 {
        assert(bytes.subrange(1, width) =~= Seq::<u8>::empty());
    } else {
        let tail = bytes.subrange(1, width);
        assert(tail.last() == VOID);
        lemma_zeros(tail.drop_last());
    }
}

/// Making elements void changes no length.
proof fn lemma_veiled_len(bytes: Seq<u8>, holder: Holder, levels: nat)
    ensures
        veiled(bytes, holder, levels).len() == bytes.len(),
    decreases levels, bytes.len(),
{
    lemma_element_bound(bytes);
    match element_in(bytes) {
        None => {},
        Some(element) => {
            lemma_void_number(element.middle, Seq::empty());
            lemma_veiled_len(bytes.skip(element.end), holder, levels);
            if levels > 0 && holder.child(element.id) is Some {
                lemma_veiled_len(
                    bytes.subrange(element.start, element.end),
                    holder.child(element.id)->0,
                    (levels - 1) as nat,
                );
            }
        },
    }
}

/// An element made void is one of the same size.
proof fn lemma_made_void(bytes: Seq<u8>, after: Seq<u8>)
    requires
        element_in(bytes) is Some,
    ensures
        ({
            let element = element_in(bytes)->0;
            let made = void_number(element.middle) + bytes.subrange(element.middle, element.end);
            &&& made.len() == element.end
            &&& element_in(made + after) == Some(ElementModel { id: VOID as int, ..element })
        }),
{
    let element = element_in(bytes)->0;
    let tail = bytes.subrange(element.middle, element.end);
    let all = void_number(element.middle) + tail + after;
    lemma_element_bound(bytes);
    lemma_void_number(element.middle, tail + after);
    assert(all =~= void_number(element.middle) + (tail + after));
    lemma_number_bound(bytes.skip(element.middle));
    lemma_same_number(bytes.skip(element.middle), all.skip(element.middle));
}

/// Behind void elements there are no more levels than asked for.
pub proof fn veiled_bytes_nest_within(bytes: Seq<u8>, holder: Holder, levels: nat)
    ensures
        veiled(bytes, holder, levels).len() == bytes.len(),
        nests_within(veiled(bytes, holder, levels), holder, levels),
    decreases levels, bytes.len(),
{
    lemma_element_bound(bytes);
    lemma_veiled_len(bytes, holder, levels);
    if element_in(bytes) is Some {
        let element = element_in(bytes)->0;
        let body = bytes.subrange(element.start, element.end);
        let rest = bytes.skip(element.end);
        let after = veiled(rest, holder, levels);
        let all = veiled(bytes, holder, levels);
        veiled_bytes_nest_within(rest, holder, levels);
        if holder.child(element.id) is None {
            assert(all == bytes.take(element.end) + after);
            assert(all.skip(element.end) =~= after);
            lemma_same_element(bytes, all);
        } else if levels == 0 {
            lemma_made_void(bytes, after);
            assert(all.skip(element.end) =~= after);
        } else {
            let inner = holder.child(element.id)->0;
            let within = veiled(body, inner, (levels - 1) as nat);
            veiled_bytes_nest_within(body, inner, (levels - 1) as nat);
            assert(all == bytes.take(element.start) + within + after);
            assert(all.skip(element.end) =~= after);
            assert(all.subrange(element.start, element.end) =~= within);
            lemma_same_element(bytes, all);
        }
    }
}

/// Where there are no more levels than asked for, nothing is made void.
pub proof fn few_levels_are_left_alone(bytes: Seq<u8>, holder: Holder, levels: nat)
    requires
        nests_within(bytes, holder, levels),
    ensures
        veiled(bytes, holder, levels) == bytes,
        pieces(bytes, holder, levels) == Seq::<PieceModel>::empty(),
    decreases levels, bytes.len(),
{
    lemma_element_bound(bytes);
    match element_in(bytes) {
        None => {},
        Some(element) => {
            let body = bytes.subrange(element.start, element.end);
            few_levels_are_left_alone(bytes.skip(element.end), holder, levels);
            match holder.child(element.id) {
                None => {},
                Some(inner) => {
                    few_levels_are_left_alone(body, inner, (levels - 1) as nat);
                    assert(bytes.take(element.start) + body =~= bytes.take(element.end));
                },
            }
            assert(veiled(bytes, holder, levels) =~= bytes);
            assert(pieces(bytes, holder, levels) =~= Seq::<PieceModel>::empty());
        },
    }
}

/// The bytes of some pieces.
pub open spec fn pieces_len(all: Seq<PieceModel>) -> nat
    decreases all.len(),
{
    if all.len() == 0 {
        0
    } else {
        pieces_len(all.drop_last()) + all.last().bytes.len()
    }
}

pub proof fn lemma_pieces_len_concat(a: Seq<PieceModel>, b: Seq<PieceModel>)
    ensures
        pieces_len(a + b) == pieces_len(a) + pieces_len(b),
    decreases b.len(),
{
    if b.len() == 0 {
        assert(a + b =~= a);
    } else {
        assert((a + b).drop_last() =~= a + b.drop_last());
        lemma_pieces_len_concat(a, b.drop_last());
    }
}

/// Whether a piece is a whole element of its kind, with room for the headers
/// around it.
pub open spec fn is_sound(piece: PieceModel) -> bool {
    &&& element_in(piece.bytes) matches Some(element) && element.end == piece.bytes.len()
        && Holder::numbered(element.id) == Some(piece.holder)
    &&& piece.bytes.len() + 58 <= NUMBER_LIMIT
}

/// Pieces lie apart from each other, below the levels that stay.
proof fn lemma_pieces_fit(bytes: Seq<u8>, holder: Holder, levels: nat)
    ensures
        pieces_len(pieces(bytes, holder, levels)) <= bytes.len(),
        forall|i: int|
            0 <= i < pieces(bytes, holder, levels).len() ==> (#[trigger] pieces(
                bytes,
                holder,
                levels,
            )[i]).bytes.len() + 2 * levels <= bytes.len(),
        forall|i: int|
            0 <= i < pieces(bytes, holder, levels).len() ==> {
                let piece = #[trigger] pieces(bytes, holder, levels)[i];
                element_in(piece.bytes) matches Some(element) && element.end == piece.bytes.len()
                    && Holder::numbered(element.id) == Some(piece.holder)
            },
    decreases levels, bytes.len(),
{
    lemma_element_bound(bytes);
    match element_in(bytes) {
        None => {},
        Some(element) => {
            let body = bytes.subrange(element.start, element.end);
            let rest = bytes.skip(element.end);
            lemma_pieces_fit(rest, holder, levels);
            let after = pieces(rest, holder, levels);
            match holder.child(element.id) {
                None => {
                    assert(pieces(bytes, holder, levels) =~= after);
                },
                Some(inner) => if levels == 0 {
                    let whole = bytes.take(element.end);
                    let first = seq![PieceModel { holder: inner, bytes: whole }];
                    lemma_same_element(bytes, whole);
                    lemma_pieces_len_concat(first, after);
                    assert(first.drop_last() =~= Seq::<PieceModel>::empty());
                    reveal_with_fuel(pieces_len, 2);
                } else {
                    lemma_pieces_fit(body, inner, (levels - 1) as nat);
                    lemma_pieces_len_concat(pieces(body, inner, (levels - 1) as nat), after);
                },
            }
        },
    }
}

/// The pieces of the contents of an element are sound.
proof fn lemma_pieces_are_sound(bytes: Seq<u8>, holder: Holder, levels: nat)
    requires
        bytes.len() <= NUMBER_LIMIT,
        levels >= PIECE_LEVELS,
    ensures
        forall|i: int|
            0 <= i < pieces(bytes, holder, levels).len() ==> is_sound(
                #[trigger] pieces(bytes, holder, levels)[i],
            ),
{
    lemma_pieces_fit(bytes, holder, levels);
}

/// A tag or chapter that lies deep, with its header.
#[derive(Clone, Copy)]
pub struct Piece<'a> {
    pub holder: Holder,
    pub bytes: &'a [u8],
}

impl<'a> View for Piece<'a> {
    type V = PieceModel;

    open spec fn view(&self) -> PieceModel {
        PieceModel { holder: self.holder, bytes: self.bytes@ }
    }
}

/// Pieces as their contents.
pub open spec fn piece_models(found: Seq<Piece<'_>>) -> Seq<PieceModel> {
    Seq::new(found.len(), |i: int| found[i]@)
}

/// Appends the number of the void element with some bytes.
fn put_void_number(out: &mut Vec<u8>, width: usize)
    requires
        1 <= width <= 8,
    ensures
        final(out)@ == old(out)@ + void_number(width as int),
{
    if width == 1 {
        out.push(0xEC);
        return;
    }
    let marker: u8 = match width {
        2 => 0x40,
        3 => 0x20,
        4 => 0x10,
        5 => 8,
        6 => 4,
        7 => 2,
        _ => 1,
    };
    let ghost before = out@;
    out.push(marker);
    let mut k: usize = 2;
    assert(out@ =~= before + (seq![marker] + Seq::new(0, |i: int| 0u8)));
    while k < width
        invariant
            2 <= k <= width <= 8,
            out@ == before + (seq![marker] + Seq::new((k - 2) as nat, |i: int| 0u8)),
        decreases width - k,
    {
        out.push(0);
        k += 1;
        assert(out@ =~= before + (seq![marker] + Seq::new((k - 2) as nat, |i: int| 0u8)));
    }
    out.push(VOID as u8);
    assert(out@ =~= before + void_number(width as int));
}

/// Appends elements that lie in a holder, with tags and chapters on no more
/// than some levels, and collects those below.
#[verifier::rlimit(60)]
fn put_veiled<'a>(
    bytes: &'a [u8],
    holder: Holder,
    levels: u32,
    out: &mut Vec<u8>,
    found: &mut Vec<Piece<'a>>,
)
    ensures
        final(out)@ == old(out)@ + veiled(bytes@, holder, levels as nat),
        piece_models(final(found)@) == piece_models(old(found)@) + pieces(
            bytes@,
            holder,
            levels as nat,
        ),
    decreases levels,
{
    let ghost all_bytes = out@ + veiled(bytes@, holder, levels as nat);
    let ghost all_found = piece_models(found@) + pieces(bytes@, holder, levels as nat);
    let mut rest: &'a [u8] = bytes;
    loop
        invariant
            all_bytes == old(out)@ + veiled(bytes@, holder, levels as nat),
            all_found == piece_models(old(found)@) + pieces(bytes@, holder, levels as nat),
            out@ + veiled(rest@, holder, levels as nat) == all_bytes,
            piece_models(found@) + pieces(rest@, holder, levels as nat) == all_found,
        decreases rest@.len(),
    {
        let (id, middle, start, end): (u64, usize, usize, usize) = match read_element(rest) {
            Some(element) => element,
            None => {
                put_slice(out, rest);
                assert(piece_models(found@) + Seq::<PieceModel>::empty() =~= piece_models(found@));
                return;
            },
        };
        let ghost out_before = out@;
        let ghost found_before = piece_models(found@);
        let after: &'a [u8] = vstd::slice::slice_subrange(rest, end, rest.len());
        let ghost later = veiled(after@, holder, levels as nat);
        let ghost later_found = pieces(after@, holder, levels as nat);
        assert(after@ =~= rest@.skip(end as int));
        match holder.child_numbered(id) {
            None => {
                let whole: &'a [u8] = vstd::slice::slice_subrange(rest, 0, end);
                assert(whole@ =~= rest@.take(end as int));
                put_slice(out, whole);
                assert(out@ + later =~= out_before + (whole@ + later));
                assert(Seq::<PieceModel>::empty() + later_found =~= later_found);
            },
            Some(inner) => {
                if levels == 0 {
                    let tail: &'a [u8] = vstd::slice::slice_subrange(rest, middle, end);
                    let whole: &'a [u8] = vstd::slice::slice_subrange(rest, 0, end);
                    assert(whole@ =~= rest@.take(end as int));
                    put_void_number(out, middle);
                    put_slice(out, tail);
                    assert(out@ + later =~= out_before + (void_number(middle as int) + tail@
                        + later));
                    let piece = Piece { holder: inner, bytes: whole };
                    found.push(piece);
                    assert(piece_models(found@) =~= found_before + seq![piece@]);
                    assert(piece_models(found@) + later_found =~= found_before + (seq![piece@]
                        + later_found));
                } else {
                    let head: &'a [u8] = vstd::slice::slice_subrange(rest, 0, start);
                    let body: &'a [u8] = vstd::slice::slice_subrange(rest, start, end);
                    assert(head@ =~= rest@.take(start as int));
                    put_slice(out, head);
                    put_veiled(body, inner, levels - 1, out, found);
                    let ghost within = veiled(body@, inner, (levels - 1) as nat);
                    let ghost inside = pieces(body@, inner, (levels - 1) as nat);
                    assert(out@ + later =~= out_before + (head@ + within + later));
                    assert(piece_models(found@) + later_found =~= found_before + (inside
                        + later_found));
                }
            },
        }
        rest = after;
    }
}

/// The segment at the start of some bytes, with tags and chapters on as many
/// levels as are read at once.
pub open spec fn shallow(bytes: Seq<u8>) -> Seq<u8> {
    match element_in(bytes) {
        None => bytes,
        Some(segment) => bytes.take(segment.start) + veiled(
            bytes.subrange(segment.start, segment.end),
            Holder::Segment,
            MAX_LEVELS as nat,
        ) + bytes.skip(segment.end),
    }
}

/// The tags and chapters of a segment that lie deeper.
pub open spec fn deep(bytes: Seq<u8>) -> Seq<PieceModel> {
    match element_in(bytes) {
        None => Seq::empty(),
        Some(segment) => pieces(
            bytes.subrange(segment.start, segment.end),
            Holder::Segment,
            MAX_LEVELS as nat,
        ),
    }
}

/// A segment whose tags and chapters lie on as many levels as are read at once
/// is read as it is.
pub proof fn shallow_segments_are_left_alone(bytes: Seq<u8>)
    requires
        segment_nests_within(bytes, MAX_LEVELS as nat),
    ensures
        shallow(bytes) == bytes,
        deep(bytes) == Seq::<PieceModel>::empty(),
{
    lemma_element_bound(bytes);
    if element_in(bytes) is Some {
        let segment = element_in(bytes)->0;
        few_levels_are_left_alone(
            bytes.subrange(segment.start, segment.end),
            Holder::Segment,
            MAX_LEVELS as nat,
        );
        assert(shallow(bytes) =~= bytes);
    }
}

/// Cuts a segment down to the levels that are read at once; what lies deeper
/// is handed out in pieces.
pub fn make_shallow<'a>(bytes: &'a [u8]) -> (cut: (Vec<u8>, Vec<Piece<'a>>))
    ensures
        cut.0@ == shallow(bytes@),
        segment_nests_within(cut.0@, MAX_LEVELS as nat),
        piece_models(cut.1@) == deep(bytes@),
        forall|i: int| 0 <= i < cut.1@.len() ==> is_sound((#[trigger] cut.1@[i])@),
{
    let mut out: Vec<u8> = Vec::new();
    let mut found: Vec<Piece<'a>> = Vec::new();
    match read_element(bytes) {
        None => {
            put_slice(&mut out, bytes);
            assert(out@ =~= bytes@);
            assert(piece_models(found@) =~= Seq::<PieceModel>::empty());
        },
        Some((_, _, start, end)) => {
            let head: &'a [u8] = vstd::slice::slice_subrange(bytes, 0, start);
            let body: &'a [u8] = vstd::slice::slice_subrange(bytes, start, end);
            let tail: &'a [u8] = vstd::slice::slice_subrange(bytes, end, bytes.len());
            put_slice(&mut out, head);
            assert(piece_models(found@) =~= Seq::<PieceModel>::empty());
            put_veiled(body, Holder::Segment, MAX_LEVELS, &mut out, &mut found);
            put_slice(&mut out, tail);
            proof {
                let within = veiled(body@, Holder::Segment, MAX_LEVELS as nat);
                veiled_bytes_nest_within(body@, Holder::Segment, MAX_LEVELS as nat);
                assert(head@ =~= bytes@.take(start as int));
                assert(tail@ =~= bytes@.skip(end as int));
                assert(out@ =~= shallow(bytes@));
                lemma_same_element(bytes@, out@);
                assert(out@.subrange(start as int, end as int) =~= within);
                assert(piece_models(found@) =~= deep(bytes@));
                lemma_pieces_are_sound(body@, Holder::Segment, MAX_LEVELS as nat);
                assert forall|i: int| 0 <= i < found@.len() implies is_sound(
                    (#[trigger] found@[i])@,
                ) by {
                    assert(piece_models(found@)[i] == found@[i]@);
                }
            }
        },
    }
    (out, found)
}

/// The length of the contents of an element, in eight bytes.
pub open spec fn length_field(len: nat) -> Seq<u8> {
    wire::be64((NUMBER_LIMIT + len) as u64)
}

/// An element with a number and contents.
pub open spec fn sealed(number: Seq<u8>, body: Seq<u8>) -> Seq<u8> {
    number + length_field(body.len()) + body
}

/// The number of a segment as bytes.
pub open spec fn segment_number() -> Seq<u8> {
    seq![0x18u8, 0x53, 0x80, 0x67]
}

/// The number of segment information as bytes.
pub open spec fn info_number() -> Seq<u8> {
    seq![0x15u8, 0x49, 0xA9, 0x66]
}

/// The number of tags as bytes.
pub open spec fn tags_number() -> Seq<u8> {
    seq![0x12u8, 0x54, 0xC3, 0x67]
}

/// The number of a tag as bytes.
pub open spec fn tag_number() -> Seq<u8> {
    seq![0x73u8, 0x73]
}

/// The number of the targets of a tag as bytes.
pub open spec fn targets_number() -> Seq<u8> {
    seq![0x63u8, 0xC0]
}

/// The number of chapters as bytes.
pub open spec fn chapters_number() -> Seq<u8> {
    seq![0x10u8, 0x43, 0xA7, 0x70]
}

/// The number of an edition as bytes.
pub open spec fn edition_number() -> Seq<u8> {
    seq![0x45u8, 0xB9]
}

/// Segment information that names no application.
pub open spec fn bare_info() -> Seq<u8> {
    sealed(info_number(), seq![0x4Du8, 0x80, 0x80, 0x57, 0x41, 0x80])
}

/// The contents of a piece.
pub open spec fn piece_body(piece: PieceModel) -> Seq<u8> {
    match element_in(piece.bytes) {
        None => Seq::empty(),
        Some(element) => piece.bytes.subrange(element.start, element.end),
    }
}

/// A piece with tags or chapters on as many levels as a piece has room for.
pub open spec fn shallow_piece(piece: PieceModel) -> Seq<u8> {
    match element_in(piece.bytes) {
        None => piece.bytes,
        Some(element) => piece.bytes.take(element.start) + veiled(
            piece_body(piece),
            piece.holder,
            PIECE_LEVELS as nat,
        ),
    }
}

/// The deeper tags or chapters of a piece.
pub open spec fn deeper(piece: PieceModel) -> Seq<PieceModel> {
    pieces(piece_body(piece), piece.holder, PIECE_LEVELS as nat)
}

/// A segment with a chapter and nothing else.
pub open spec fn chapter_segment(content: Seq<u8>) -> Seq<u8> {
    sealed(
        segment_number(),
        bare_info() + sealed(chapters_number(), sealed(edition_number(), content)),
    )
}

/// The contents of a tag with a simple tag and no targets.
pub open spec fn tag_body(content: Seq<u8>) -> Seq<u8> {
    sealed(targets_number(), Seq::empty()) + content
}

/// A segment with a simple tag and nothing else.
pub open spec fn tag_segment(content: Seq<u8>) -> Seq<u8> {
    sealed(
        segment_number(),
        bare_info() + sealed(tags_number(), sealed(tag_number(), tag_body(content))),
    )
}

/// A segment with a piece and nothing else.
pub open spec fn lone_segment(piece: PieceModel) -> Seq<u8> {
    if piece.holder is Chapter {
        chapter_segment(shallow_piece(piece))
    } else {
        tag_segment(shallow_piece(piece))
    }
}

proof fn lemma_four_parts(y: u32)
    ensures
        y == (y / 0x100_0000) * 0x100_0000 + (y / 0x1_0000 % 0x100) * 0x1_0000 + (y / 0x100 % 0x100)
            * 0x100 + y % 0x100,
        y / 0x100_0000 < 0x100,
{
    assert(y / 0x1_0000 == (y / 0x100_0000) * 0x100 + y / 0x1_0000 % 0x100);
    assert(y / 0x100 == (y / 0x1_0000) * 0x100 + y / 0x100 % 0x100);
}

proof fn lemma_length_field(len: nat, rest: Seq<u8>)
    requires
        len < NUMBER_LIMIT,
    ensures
        length_field(len).len() == 8,
        number_in(length_field(len) + rest) == Some((len as int, 8int)),
{
    let bytes = length_field(len) + rest;
    let x = (NUMBER_LIMIT + len) as u64;
    let high = (x / 0x1_0000_0000) as u32;
    let low = (x % 0x1_0000_0000) as u32;
    lemma_four_parts(high);
    lemma_four_parts(low);
    assert(high / 0x100_0000 == 1);
    let t = bytes.subrange(1, 8);
    lemma_appended_seven(t);
    assert(bytes[0] == wire::be32(high)[0]);
    assert(t[0] == wire::be32(high)[1]);
    assert(t[1] == wire::be32(high)[2]);
    assert(t[2] == wire::be32(high)[3]);
    assert(t[3] == wire::be32(low)[0]);
    assert(t[4] == wire::be32(low)[1]);
    assert(t[5] == wire::be32(low)[2]);
    assert(t[6] == wire::be32(low)[3]);
    assert(appended(0, t) == (high - 0x100_0000) * 0x1_0000_0000 + low);
}

proof fn lemma_appended_seven(t: Seq<u8>)
    requires
        t.len() == 7,
    ensures
        appended(0, t) == t[0] * 0x1_0000_0000_0000 + t[1] * 0x100_0000_0000 + t[2]
            * 0x1_0000_0000 + t[3] * 0x100_0000 + t[4] * 0x1_0000 + t[5] * 0x100 + t[6],
{
    let t6 = t.drop_last();
    let t5 = t6.drop_last();
    let t4 = t5.drop_last();
    let t3 = t4.drop_last();
    let t2 = t3.drop_last();
    let t1 = t2.drop_last();
    assert(appended(0, t1.drop_last()) == 0);
    assert(appended(0, t1) == t[0]);
    assert(appended(0, t2) == t[0] * 0x100 + t[1]);
    assert(appended(0, t3) == appended(0, t2) * 0x100 + t[2]);
    assert(appended(0, t4) == appended(0, t3) * 0x100 + t[3]);
    assert(appended(0, t5) == appended(0, t4) * 0x100 + t[4]);
    assert(appended(0, t6) == appended(0, t5) * 0x100 + t[5]);
}

proof fn lemma_two_bytes(number: Seq<u8>)
    requires
        number.len() == 2,
        0x40 <= number[0] < 0x80,
    ensures
        number_in(number) == Some(((number[0] - 0x40) * 0x100 + number[1], 2int)),
{
    let tail = number.subrange(1, 2);
    assert(tail.drop_last().len() == 0);
    reveal_with_fuel(appended, 2);
}

proof fn lemma_four_bytes(number: Seq<u8>)
    requires
        number.len() == 4,
        0x10 <= number[0] < 0x20,
    ensures
        number_in(number) == Some(
            (
                ((number[0] - 0x10) * 0x100 + number[1]) * 0x1_0000 + number[2] * 0x100
                    + number[3],
                4int,
            ),
        ),
{
    let tail = number.subrange(1, 4);
    assert(tail.drop_last().drop_last().drop_last().len() == 0);
    reveal_with_fuel(appended, 4);
}

/// A made element is read back, and its levels are those of its contents.
proof fn lemma_sealed(
    number: Seq<u8>,
    id: int,
    body: Seq<u8>,
    rest: Seq<u8>,
    holder: Holder,
    levels: nat,
)
    requires
        number_in(number) == Some((id, number.len() as int)),
        body.len() < NUMBER_LIMIT,
    ensures
        sealed(number, body).len() == number.len() + 8 + body.len(),
        element_in(sealed(number, body) + rest) matches Some(element) && element.id == id
            && element.start == number.len() + 8 && element.end == element.start + body.len(),
        nests_within(sealed(number, body) + rest, holder, levels) == ((holder.child(id) matches Some(
            inner,
        ) ==> levels > 0 && nests_within(body, inner, (levels - 1) as nat)) && nests_within(
            rest,
            holder,
            levels,
        )),
{
    let all = sealed(number, body) + rest;
    lemma_length_field(body.len(), body + rest);
    lemma_same_number(number, all);
    assert(all.skip(number.len() as int) =~= length_field(body.len()) + (body + rest));
    let element = element_in(all)->0;
    assert(all.subrange(element.start, element.end) =~= body);
    assert(all.skip(element.end) =~= rest);
}

/// A segment has the levels of what stands behind its information.
proof fn lemma_with_info(held: Seq<u8>, levels: nat)
    requires
        held.len() + 18 < NUMBER_LIMIT,
        nests_within(held, Holder::Segment, levels),
    ensures
        segment_nests_within(sealed(segment_number(), bare_info() + held), levels),
{
    let none = Seq::<u8>::empty();
    let names = seq![0x4Du8, 0x80, 0x80, 0x57, 0x41, 0x80];
    let body = bare_info() + held;
    let whole = sealed(segment_number(), body);
    lemma_four_bytes(info_number());
    lemma_sealed(info_number(), 0x0549_A966, names, held, Holder::Segment, levels);
    lemma_four_bytes(segment_number());
    lemma_sealed(segment_number(), 0x0853_8067, body, none, Holder::Segment, levels);
    assert(whole + none =~= whole);
    let segment = element_in(whole)->0;
    assert(whole.subrange(segment.start, segment.end) =~= body);
}

proof fn lemma_chapter_segment(content: Seq<u8>, levels: nat)
    requires
        content.len() + 40 < NUMBER_LIMIT,
        nests_within(content, Holder::Edition, levels),
    ensures
        segment_nests_within(chapter_segment(content), levels + 2),
{
    let none = Seq::<u8>::empty();
    let edition = sealed(edition_number(), content);
    let chapters = sealed(chapters_number(), edition);
    lemma_two_bytes(edition_number());
    lemma_sealed(edition_number(), EDITION as int, content, none, Holder::Chapters, levels + 1);
    assert(edition + none =~= edition);
    lemma_four_bytes(chapters_number());
    lemma_sealed(chapters_number(), CHAPTERS as int, edition, none, Holder::Segment, levels + 2);
    assert(chapters + none =~= chapters);
    lemma_with_info(chapters, levels + 2);
}

proof fn lemma_tag_segment(content: Seq<u8>, levels: nat)
    requires
        content.len() + 50 < NUMBER_LIMIT,
        nests_within(content, Holder::Tag, levels),
    ensures
        segment_nests_within(tag_segment(content), levels + 2),
{
    let none = Seq::<u8>::empty();
    let body = tag_body(content);
    let tag = sealed(tag_number(), body);
    let tags = sealed(tags_number(), tag);
    lemma_two_bytes(targets_number());
    lemma_sealed(targets_number(), 0x23C0, none, content, Holder::Tag, levels);
    lemma_two_bytes(tag_number());
    lemma_sealed(tag_number(), TAG as int, body, none, Holder::Tags, levels + 1);
    assert(tag + none =~= tag);
    lemma_four_bytes(tags_number());
    lemma_sealed(tags_number(), TAGS as int, tag, none, Holder::Segment, levels + 2);
    assert(tags + none =~= tags);
    lemma_with_info(tags, levels + 2);
}

/// A piece that is cut down has the levels that it has room for, wherever it
/// lies.
proof fn lemma_shallow_piece(piece: PieceModel, holder: Holder)
    requires
        is_sound(piece),
        holder.child(element_in(piece.bytes)->0.id) matches Some(inner) ==> inner == piece.holder,
    ensures
        shallow_piece(piece).len() == piece.bytes.len(),
        nests_within(shallow_piece(piece), holder, (PIECE_LEVELS + 1) as nat),
{
    let element = element_in(piece.bytes)->0;
    let content = shallow_piece(piece);
    let within = veiled(piece_body(piece), piece.holder, PIECE_LEVELS as nat);
    lemma_element_bound(piece.bytes);
    veiled_bytes_nest_within(piece_body(piece), piece.holder, PIECE_LEVELS as nat);
    lemma_same_element(piece.bytes, content);
    assert(content.subrange(element.start, element.end) =~= within);
    assert(content.skip(element.end) =~= Seq::<u8>::empty());
    assert(nests_within(Seq::<u8>::empty(), holder, (PIECE_LEVELS + 1) as nat));
}

/// A segment with a sound piece and nothing else has as many levels as are
/// read at once.
proof fn lemma_lone_segment(piece: PieceModel)
    requires
        is_sound(piece),
    ensures
        shallow_piece(piece).len() == piece.bytes.len(),
        segment_nests_within(lone_segment(piece), MAX_LEVELS as nat),
{
    if piece.holder is Chapter {
        lemma_shallow_piece(piece, Holder::Edition);
        lemma_chapter_segment(shallow_piece(piece), (PIECE_LEVELS + 1) as nat);
    } else {
        lemma_shallow_piece(piece, Holder::Tag);
        lemma_tag_segment(shallow_piece(piece), (PIECE_LEVELS + 1) as nat);
    }
}

/// What stands in front of a chapter of some bytes that has a segment to
/// itself.
spec fn chapter_lead(len: nat) -> Seq<u8> {
    segment_number() + length_field(len + 40) + bare_info() + chapters_number() + length_field(
        len + 10,
    ) + edition_number() + length_field(len)
}

/// What stands in front of a simple tag of some bytes that has a segment to
/// itself.
spec fn tag_lead(len: nat) -> Seq<u8> {
    segment_number() + length_field(len + 50) + bare_info() + tags_number() + length_field(len + 20)
        + tag_number() + length_field(len + 10) + targets_number() + length_field(0)
}

proof fn lemma_chapter_lead(content: Seq<u8>)
    ensures
        chapter_segment(content) == chapter_lead(content.len()) + content,
{
    let edition = sealed(edition_number(), content);
    let chapters = sealed(chapters_number(), edition);
    assert(edition.len() == content.len() + 10);
    assert(chapters.len() == content.len() + 22);
    assert((bare_info() + chapters).len() == content.len() + 40);
    assert(chapter_segment(content) =~= chapter_lead(content.len()) + content);
}

proof fn lemma_tag_lead(content: Seq<u8>)
    ensures
        tag_segment(content) == tag_lead(content.len()) + content,
{
    let tag = sealed(tag_number(), tag_body(content));
    let tags = sealed(tags_number(), tag);
    assert(tag_body(content).len() == content.len() + 10);
    assert(tag.len() == content.len() + 20);
    assert(tags.len() == content.len() + 32);
    assert((bare_info() + tags).len() == content.len() + 50);
    assert(tag_segment(content) =~= tag_lead(content.len()) + content);
}

/// Appends the number of an element and the length of its contents.
fn put_number(out: &mut Vec<u8>, number: &[u8], len: u64)
    requires
        len < NUMBER_LIMIT,
    ensures
        final(out)@ == old(out)@ + number@ + length_field(len as nat),
{
    put_slice(out, number);
    put_be64(out, NUMBER_LIMIT + len);
}

fn put_bare_info(out: &mut Vec<u8>)
    ensures
        final(out)@ == old(out)@ + bare_info(),
{
    let number: [u8; 4] = [0x15, 0x49, 0xA9, 0x66];
    let names: [u8; 6] = [0x4D, 0x80, 0x80, 0x57, 0x41, 0x80];
    assert(number@ =~= info_number());
    assert(names@ =~= seq![0x4Du8, 0x80, 0x80, 0x57, 0x41, 0x80]);
    let ghost before = out@;
    put_number(out, &number, 6);
    put_slice(out, &names);
    assert(out@ =~= before + bare_info());
}

fn put_chapter_lead(out: &mut Vec<u8>, len: u64)
    requires
        len + 40 < NUMBER_LIMIT,
    ensures
        final(out)@ == old(out)@ + chapter_lead(len as nat),
{
    let segment: [u8; 4] = [0x18, 0x53, 0x80, 0x67];
    let chapters: [u8; 4] = [0x10, 0x43, 0xA7, 0x70];
    let edition: [u8; 2] = [0x45, 0xB9];
    assert(segment@ =~= segment_number());
    assert(chapters@ =~= chapters_number());
    assert(edition@ =~= edition_number());
    let ghost before = out@;
    put_number(out, &segment, len + 40);
    put_bare_info(out);
    put_number(out, &chapters, len + 10);
    put_number(out, &edition, len);
    assert(out@ =~= before + chapter_lead(len as nat));
}

fn put_tag_lead(out: &mut Vec<u8>, len: u64)
    requires
        len + 50 < NUMBER_LIMIT,
    ensures
        final(out)@ == old(out)@ + tag_lead(len as nat),
{
    let segment: [u8; 4] = [0x18, 0x53, 0x80, 0x67];
    let tags: [u8; 4] = [0x12, 0x54, 0xC3, 0x67];
    let tag: [u8; 2] = [0x73, 0x73];
    let targets: [u8; 2] = [0x63, 0xC0];
    assert(segment@ =~= segment_number());
    assert(tags@ =~= tags_number());
    assert(tag@ =~= tag_number());
    assert(targets@ =~= targets_number());
    let ghost before = out@;
    put_number(out, &segment, len + 50);
    put_bare_info(out);
    put_number(out, &tags, len + 20);
    put_number(out, &tag, len + 10);
    put_number(out, &targets, 0);
    assert(out@ =~= before + tag_lead(len as nat));
}

/// Appends a piece that is cut down to the levels that it has room for, and
/// collects what lies deeper.
fn put_shallow_piece<'a>(piece: Piece<'a>, out: &mut Vec<u8>, found: &mut Vec<Piece<'a>>)
    requires
        is_sound(piece@),
    ensures
        final(out)@ == old(out)@ + shallow_piece(piece@),
        piece_models(final(found)@) == piece_models(old(found)@) + deeper(piece@),
{
    match read_element(piece.bytes) {
        Some((_, _, start, end)) => {
            let head: &'a [u8] = vstd::slice::slice_subrange(piece.bytes, 0, start);
            let body: &'a [u8] = vstd::slice::slice_subrange(piece.bytes, start, end);
            let ghost before = out@;
            assert(head@ =~= piece.bytes@.take(start as int));
            put_slice(out, head);
            put_veiled(body, piece.holder, PIECE_LEVELS, out, found);
            assert(out@ =~= before + shallow_piece(piece@));
        },
        None => {},
    }
}

/// Further sound pieces among sound ones.
proof fn lemma_sound_together(piece: PieceModel, before: Seq<Piece<'_>>, after: Seq<Piece<'_>>)
    requires
        is_sound(piece),
        forall|i: int| 0 <= i < before.len() ==> is_sound((#[trigger] before[i])@),
        piece_models(after) == piece_models(before) + deeper(piece),
    ensures
        forall|i: int| 0 <= i < after.len() ==> is_sound((#[trigger] after[i])@),
{
    lemma_element_bound(piece.bytes);
    lemma_pieces_are_sound(piece_body(piece), piece.holder, PIECE_LEVELS as nat);
    let joined = piece_models(before) + deeper(piece);
    assert(piece_models(after).len() == after.len());
    assert(joined.len() == after.len());
    assert forall|i: int| 0 <= i < after.len() implies is_sound((#[trigger] after[i])@) by {
        assert(joined[i] == after[i]@);
        if i < before.len() {
            assert(piece_models(before)[i] == before[i]@);
        } else {
            assert(after[i]@ == deeper(piece)[i - before.len()]);
        }
    }
}

/// Makes a segment with a piece and nothing else; what lies too deep for it is
/// handed out in further pieces.
pub fn make_lone<'a>(piece: Piece<'a>, found: &mut Vec<Piece<'a>>) -> (out: Vec<u8>)
    requires
        is_sound(piece@),
        forall|i: int| 0 <= i < old(found)@.len() ==> is_sound((#[trigger] old(found)@[i])@),
    ensures
        out@ == lone_segment(piece@),
        segment_nests_within(out@, MAX_LEVELS as nat),
        piece_models(final(found)@) == piece_models(old(found)@) + deeper(piece@),
        forall|i: int| 0 <= i < final(found)@.len() ==> is_sound((#[trigger] final(found)@[i])@),
{
    let len: u64 = piece.bytes.len() as u64;
    let mut out: Vec<u8> = Vec::new();
    let ghost none = out@;
    let ghost content = shallow_piece(piece@);
    proof {
        lemma_lone_segment(piece@);
    }
    if piece.holder == Holder::Chapter {
        put_chapter_lead(&mut out, len);
        proof {
            lemma_chapter_lead(content);
            assert(none + chapter_lead(len as nat) =~= chapter_lead(len as nat));
        }
    } else {
        put_tag_lead(&mut out, len);
        proof {
            lemma_tag_lead(content);
            assert(none + tag_lead(len as nat) =~= tag_lead(len as nat));
        }
    }
    assert(out@ + content == lone_segment(piece@));
    put_shallow_piece(piece, &mut out, found);
    proof {
        lemma_sound_together(piece@, old(found)@, found@);
    }
    out
}

/// What lies deeper in a piece takes fewer bytes than the piece.
pub proof fn lemma_deeper_len(piece: PieceModel)
    ensures
        pieces_len(deeper(piece)) <= piece_body(piece).len(),
        piece.bytes.len() > 0 ==> piece_body(piece).len() < piece.bytes.len(),
        piece.bytes.len() == 0 ==> deeper(piece).len() == 0,
{
    lemma_element_bound(piece.bytes);
    lemma_pieces_fit(piece_body(piece), piece.holder, PIECE_LEVELS as nat);
}

} // verus!
