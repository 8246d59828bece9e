//! How elements are read from the bytes of a Matroska file.

use vstd::prelude::*;
use crate::muxer::ebml;
use crate::tool::nesting::{self, ElementModel, Holder};

verus! {

/// The width of a number is told by the first one among the bits of its first
/// byte, and that one is its marker.
pub proof fn first_bytes_tell_the_width(first: u8)
    ensures
        nesting::width_of(first) == 1 <==> 128 <= first,
        nesting::width_of(first) == 2 <==> 64 <= first < 128,
        nesting::width_of(first) == 3 <==> 32 <= first < 64,
        nesting::width_of(first) == 4 <==> 16 <= first < 32,
        nesting::width_of(first) == 5 <==> 8 <= first < 16,
        nesting::width_of(first) == 6 <==> 4 <= first < 8,
        nesting::width_of(first) == 7 <==> 2 <= first < 4,
        nesting::width_of(first) == 8 <==> first < 2,
        nesting::marker_of(1) == 128 && nesting::marker_of(2) == 64 && nesting::marker_of(3) == 32
            && nesting::marker_of(4) == 16 && nesting::marker_of(5) == 8 && nesting::marker_of(6)
            == 4 && nesting::marker_of(7) == 2 && nesting::marker_of(8) == 1,
{
}

proof fn lemma_push(head: int, tail: Seq<u8>, last: u8)
    ensures
        nesting::appended(head, tail.push(last)) == nesting::appended(head, tail) * 256 + last,
        nesting::appended(head, Seq::empty()) == head,
{
    assert(tail.push(last).drop_last() =~= tail);
}

/// Numbers, the most significant byte first, without their marker. A byte of
/// all ones stands for 127; there is no number where the first byte is zero or
/// bytes are missing.
pub proof fn numbers_are_read_from_their_bytes(b: Seq<u8>)
    ensures
        nesting::number_in(b) is None <==> b.len() == 0 || b[0] == 0 || b[0] < 255
            && nesting::width_of(b[0]) > b.len(),
        b.len() >= 1 && 128 <= b[0] ==> nesting::number_in(b) == Some((b[0] - 128, 1int)),
        b.len() >= 2 && 64 <= b[0] < 128 ==> nesting::number_in(b) == Some(
            (256 * (b[0] - 64) + b[1], 2int),
        ),
        b.len() >= 3 && 32 <= b[0] < 64 ==> nesting::number_in(b) == Some(
            (256 * (256 * (b[0] - 32) + b[1]) + b[2], 3int),
        ),
        b.len() >= 4 && 16 <= b[0] < 32 ==> nesting::number_in(b) == Some(
            (256 * (256 * (256 * (b[0] - 16) + b[1]) + b[2]) + b[3], 4int),
        ),
        b.len() >= 5 && 8 <= b[0] < 16 ==> nesting::number_in(b) == Some(
            (256 * (256 * (256 * (256 * (b[0] - 8) + b[1]) + b[2]) + b[3]) + b[4], 5int),
        ),
        b.len() >= 8 && b[0] == 1 ==> nesting::number_in(b) == Some(
            (
                256 * (256 * (256 * (256 * (256 * (256 * b[1] + b[2]) + b[3]) + b[4]) + b[5])
                    + b[6]) + b[7],
                8int,
            ),
        ),
{
    if b.len() > 0 && b[0] > 0 && b[0] < 255 {
        let width = nesting::width_of(b[0]);
        if width <= b.len() {
            let h = b[0] - nesting::marker_of(width);
            let t = b.subrange(1, width);
            let e = Seq::<u8>::empty();
            lemma_push(h, e, b[1]);
            assert(b.subrange(1, 1) =~= e);
            if width >= 2 {
                assert(b.subrange(1, 2) =~= e.push(b[1]));
            }
            if width >= 3 {
                lemma_push(h, b.subrange(1, 2), b[2]);
                assert(b.subrange(1, 3) =~= b.subrange(1, 2).push(b[2]));
            }
            if width >= 4 {
                lemma_push(h, b.subrange(1, 3), b[3]);
                assert(b.subrange(1, 4) =~= b.subrange(1, 3).push(b[3]));
            }
            if width >= 5 {
                lemma_push(h, b.subrange(1, 4), b[4]);
                assert(b.subrange(1, 5) =~= b.subrange(1, 4).push(b[4]));
            }
            if width >= 6 {
                lemma_push(h, b.subrange(1, 5), b[5]);
                assert(b.subrange(1, 6) =~= b.subrange(1, 5).push(b[5]));
            }
            if width >= 7 {
                lemma_push(h, b.subrange(1, 6), b[6]);
                assert(b.subrange(1, 7) =~= b.subrange(1, 6).push(b[6]));
            }
            if width >= 8 {
                lemma_push(h, b.subrange(1, 7), b[7]);
                assert(b.subrange(1, 8) =~= b.subrange(1, 7).push(b[7]));
            }
        }
    }
}

/// An element is a number, a length, and as many bytes as the length says.
pub proof fn elements_are_a_number_and_a_length(b: Seq<u8>)
    ensures
        nesting::element_in(b) matches Some(e) ==> {
            &&& nesting::number_in(b) == Some((e.id, e.middle))
            &&& nesting::number_in(b.skip(e.middle)) == Some((e.end - e.start, e.start - e.middle))
            &&& 0 <= e.middle <= e.start <= e.end <= b.len()
        },
        nesting::number_in(b) matches Some((id, middle)) ==> (nesting::number_in(
            b.skip(middle),
        ) matches Some((size, width)) ==> size >= 0 && middle + width + size <= b.len()
            ==> nesting::element_in(b) == Some(
            ElementModel { id, middle, start: middle + width, end: middle + width + size },
        )),
{
    if nesting::number_in(b) is Some {
        let (id, middle) = nesting::number_in(b)->0;
        lemma_width(b);
        if nesting::number_in(b.skip(middle)) is Some {
            lemma_width(b.skip(middle));
        }
    }
}

proof fn lemma_width(b: Seq<u8>)
    ensures
        nesting::number_in(b) matches Some((value, width)) ==> 1 <= width <= b.len(),
{
}

/// The numbers of the elements that hold elements of their own kind, without
/// their markers.
pub proof fn numbers_of_the_holders(id: int)
    ensures
        Holder::numbered(id) == Some(Holder::Tags) <==> id == 0x0254_C367,
        Holder::numbered(id) == Some(Holder::Tag) <==> id == 0x3373,
        Holder::numbered(id) == Some(Holder::SimpleTag) <==> id == 0x27C8,
        Holder::numbered(id) == Some(Holder::Chapters) <==> id == 0x0043_A770,
        Holder::numbered(id) == Some(Holder::Edition) <==> id == 0x05B9,
        Holder::numbered(id) == Some(Holder::Chapter) <==> id == 0x36,
        Holder::numbered(id) != Some(Holder::Segment),
{
}

/// What holds what: a segment tags and chapters, tags each tag, a tag and a
/// simple tag simple tags, chapters editions, an edition and a chapter chapters.
pub proof fn holders_hold_their_own(outer: Holder, inner: Holder)
    ensures
        outer.holds(inner) <==> (outer == Holder::Segment && (inner == Holder::Tags || inner
            == Holder::Chapters)) || (outer == Holder::Tags && inner == Holder::Tag) || ((outer
            == Holder::Tag || outer == Holder::SimpleTag) && inner == Holder::SimpleTag) || (outer
            == Holder::Chapters && inner == Holder::Edition) || ((outer == Holder::Edition || outer
            == Holder::Chapter) && inner == Holder::Chapter),
{
}

/// An element that must not be seen keeps its width and becomes a void
/// element.
pub proof fn veils_keep_the_width(width: int)
    requires
        1 <= width <= 4,
    ensures
        nesting::void_number(width).len() == width,
        nesting::number_in(nesting::void_number(width)) == Some((0x6Cint, width)),
{
    let b = nesting::void_number(width);
    numbers_are_read_from_their_bytes(b);
    if width == 2 {
        assert(b =~= seq![0x40u8, 0x6C]);
    } else if width == 3 {
        assert(b =~= seq![0x20u8, 0, 0x6C]);
    } else if width == 4 {
        assert(b =~= seq![0x10u8, 0, 0, 0x6C]);
    }
}

/// A written element of a four-byte number and up to 126 bytes is found where it
/// stands.
pub proof fn written_elements_are_found(id: u64, body: Seq<u8>, rest: Seq<u8>)
    requires
        0x1000_0000 <= id < 0x2000_0000,
        body.len() < 0x7F,
    ensures
        nesting::element_in(ebml::element(id, body) + rest) == Some(
            ElementModel { id: id - 0x1000_0000, middle: 4, start: 5, end: 5 + body.len() as int },
        ),
{
    let all = ebml::element(id, body) + rest;
    reveal(ebml::element_header);
    reveal_with_fuel(ebml::big_endian, 5);
    let number = ebml::big_endian(id as nat);
    let a = (id / 0x100_0000) as u8;
    let b = (id / 0x1_0000 % 0x100) as u8;
    let c = (id / 0x100 % 0x100) as u8;
    let d = (id % 0x100) as u8;
    assert(number =~= seq![a, b, c, d]);
    let l = (0x80 + body.len()) as u8;
    assert(ebml::length_bytes(body.len()) =~= seq![l]);
    assert(all =~= seq![a, b, c, d, l] + body + rest);
    numbers_are_read_from_their_bytes(all);
    let tail = all.skip(4);
    assert(tail[0] == l);
    numbers_are_read_from_their_bytes(tail);
    elements_are_a_number_and_a_length(all);
}

/// A sealed element has a length of eight bytes: it is found as it was made.
pub proof fn sealed_elements_are_found(number: Seq<u8>, body: Seq<u8>, rest: Seq<u8>)
    requires
        number.len() == 4,
        16 <= number[0] < 32,
        body.len() < 0x100_0000_0000_0000,
    ensures
        nesting::element_in(nesting::sealed(number, body) + rest) == Some(
            ElementModel {
                id: 256 * (256 * (256 * (number[0] - 16) + number[1]) + number[2]) + number[3],
                middle: 4,
                start: 12,
                end: 12 + body.len() as int,
            },
        ),
{
    let all = nesting::sealed(number, body) + rest;
    let size = (0x100_0000_0000_0000 + body.len()) as u64;
    let field = nesting::length_field(body.len());
    crate::wire::big_endian_bytes(0, 0, 0, size);
    assert(field.len() == 8);
    assert(field[0] == 1);
    assert(all[0] == number[0] && all[1] == number[1] && all[2] == number[2] && all[3]
        == number[3]);
    numbers_are_read_from_their_bytes(all);
    let tail = all.skip(4);
    assert(tail[0] == field[0] && tail[1] == field[1] && tail[2] == field[2] && tail[3] == field[3]
        && tail[4] == field[4] && tail[5] == field[5] && tail[6] == field[6] && tail[7]
        == field[7]);
    numbers_are_read_from_their_bytes(tail);
    elements_are_a_number_and_a_length(all);
}

/// A chapter by itself stands in a segment of its own, in an edition; a tag in a
/// segment of its own, behind its targets. Each segment has an information
/// element without contents.
#[verifier::spinoff_prover]
pub proof fn lone_pieces_stand_in_their_own_segment(content: Seq<u8>)
    ensures
        ({
            let info = nesting::sealed(
                seq![0x15u8, 0x49, 0xA9, 0x66],
                seq![0x4Du8, 0x80, 0x80, 0x57, 0x41, 0x80],
            );
            &&& nesting::chapter_segment(content) == nesting::sealed(
                seq![0x18u8, 0x53, 0x80, 0x67],
                info + nesting::sealed(
                    seq![0x10u8, 0x43, 0xA7, 0x70],
                    nesting::sealed(seq![0x45u8, 0xB9], content),
                ),
            )
            &&& nesting::tag_segment(content) == nesting::sealed(
                seq![0x18u8, 0x53, 0x80, 0x67],
                info + nesting::sealed(
                    seq![0x12u8, 0x54, 0xC3, 0x67],
                    nesting::sealed(
                        seq![0x73u8, 0x73],
                        nesting::sealed(seq![0x63u8, 0xC0], Seq::empty()) + content,
                    ),
                ),
            )
        }),
{
    assert(nesting::segment_number() == seq![0x18u8, 0x53, 0x80, 0x67]);
    assert(nesting::info_number() == seq![0x15u8, 0x49, 0xA9, 0x66]);
    assert(nesting::chapters_number() == seq![0x10u8, 0x43, 0xA7, 0x70]);
    assert(nesting::edition_number() == seq![0x45u8, 0xB9]);
    assert(nesting::tags_number() == seq![0x12u8, 0x54, 0xC3, 0x67]);
    assert(nesting::tag_number() == seq![0x73u8, 0x73]);
    assert(nesting::targets_number() == seq![0x63u8, 0xC0]);
    let inner = nesting::sealed(nesting::edition_number(), content);
    let chapters = nesting::bare_info() + nesting::sealed(nesting::chapters_number(), inner);
    assert(nesting::chapter_segment(content) == nesting::sealed(
        nesting::segment_number(),
        chapters,
    ));
    let tag = nesting::sealed(nesting::tag_number(), nesting::tag_body(content));
    let tags = nesting::bare_info() + nesting::sealed(nesting::tags_number(), tag);
    assert(nesting::tag_segment(content) == nesting::sealed(nesting::segment_number(), tags));
}

} // verus!
