//! Cyclic redundancy checks without reflection, initial value or final xor.

use vstd::prelude::*;
use crate::polynomial::{self, Poly};

verus! {

/// One bit of a CRC-8 with polynomial 0x07.
pub open spec fn crc8_bit(r: u8) -> u8 {
    if r & 0x80u8 != 0 {
        (r << 1u8) ^ 0x07u8
    } else {
        r << 1u8
    }
}

/// One byte of a CRC-8 with polynomial 0x07.
pub open spec fn crc8_byte(crc: u8, byte: u8) -> u8 {
    crc8_bit(
        crc8_bit(
            crc8_bit(crc8_bit(crc8_bit(crc8_bit(crc8_bit(crc8_bit(crc ^ byte))))))),
    )
}

/// The CRC-8 of `data`, most significant bit first.
pub open spec fn crc8_of(data: Seq<u8>) -> u8
    decreases data.len(),
{
    if data.len() == 0 {
        0
    } else {
        crc8_byte(crc8_of(data.drop_last()), data.last())
    }
}

/// One bit of a CRC-16 with polynomial 0x8005.
pub open spec fn crc16_bit(r: u16) -> u16 {
    if r & 0x8000u16 != 0 {
        (r << 1u16) ^ 0x8005u16
    } else {
        r << 1u16
    }
}

/// One byte of a CRC-16 with polynomial 0x8005.
pub open spec fn crc16_byte(crc: u16, byte: u8) -> u16 {
    crc16_bit(
        crc16_bit(
            crc16_bit(
                crc16_bit(
                    crc16_bit(crc16_bit(crc16_bit(crc16_bit(crc ^ ((byte as u16) << 8u16))))),
                ),
            ),
        ),
    )
}

/// The CRC-16 of `data`, most significant bit first.
pub open spec fn crc16_of(data: Seq<u8>) -> u16
    decreases data.len(),
{
    if data.len() == 0 {
        0
    } else {
        crc16_byte(crc16_of(data.drop_last()), data.last())
    }
}

/// One bit of a CRC-32 with polynomial 0x04C11DB7.
pub open spec fn crc32_bit(r: u32) -> u32 {
    if r & 0x8000_0000u32 != 0 {
        (r << 1u32) ^ 0x04C1_1DB7u32
    } else {
        r << 1u32
    }
}

/// Eight bits of a CRC-32 with polynomial 0x04C11DB7.
pub open spec fn crc32_shift8(r: u32) -> u32 {
    crc32_bit(
        crc32_bit(crc32_bit(crc32_bit(crc32_bit(crc32_bit(crc32_bit(crc32_bit(r))))))),
    )
}

/// One byte of a CRC-32 with polynomial 0x04C11DB7.
pub open spec fn crc32_byte(crc: u32, byte: u8) -> u32 {
    crc32_shift8(crc ^ ((byte as u32) << 24u32))
}

/// The CRC-32 of `data`, most significant bit first.
pub open spec fn crc32_of(data: Seq<u8>) -> u32
    decreases data.len(),
{
    if data.len() == 0 {
        0
    } else {
        crc32_byte(crc32_of(data.drop_last()), data.last())
    }
}

/// Appending its own CRC-8 to a message makes the CRC-8 of the whole zero.
pub proof fn crc8_completes(data: Seq<u8>)
    ensures
        crc8_of(data.push(crc8_of(data))) == 0,
{
    let crc = crc8_of(data);
    assert(data.push(crc).drop_last() =~= data);
    assert(crc ^ crc == 0u8) by (bit_vector);
    assert(0u8 & 0x80u8 == 0u8 && 0u8 << 1u8 == 0u8) by (bit_vector);
}

/// Appending its own CRC-16, most significant byte first, to a message makes
/// the CRC-16 of the whole zero.
pub proof fn crc16_completes(data: Seq<u8>)
    ensures
        crc16_of(data + crate::wire::be16(crc16_of(data))) == 0,
{
    let crc = crc16_of(data);
    let high = (crc / 0x100) as u8;
    let low = (crc % 0x100) as u8;
    let whole = data + crate::wire::be16(crc);
    assert(whole.drop_last().drop_last() =~= data);
    assert(whole.drop_last().last() == high);
    assert(whole.last() == low);
    let wide = low as u16;
    assert(crc ^ ((high as u16) << 8u16) == wide << 0u16) by (bit_vector)
        requires
            high == (crc / 0x100) as u8,
            low == (crc % 0x100) as u8,
            wide == low as u16,
    ;
    lemma_crc16_bit_clear(wide, 0);
    lemma_crc16_bit_clear(wide, 1);
    lemma_crc16_bit_clear(wide, 2);
    lemma_crc16_bit_clear(wide, 3);
    lemma_crc16_bit_clear(wide, 4);
    lemma_crc16_bit_clear(wide, 5);
    lemma_crc16_bit_clear(wide, 6);
    lemma_crc16_bit_clear(wide, 7);
    assert(crc16_of(whole.drop_last()) == crc16_byte(crc, high));
    assert(crc16_byte(crc, high) == wide << 8u16);
    assert(crc16_of(whole) == crc16_byte(wide << 8u16, low));
    assert((wide << 8u16) ^ (wide << 8u16) == 0u16) by (bit_vector);
    assert(0u16 & 0x8000u16 == 0u16 && 0u16 << 1u16 == 0u16) by (bit_vector);
}

/// A bit step on a value whose top bit is still clear only shifts.
proof fn lemma_crc16_bit_clear(low: u16, k: u16)
    requires
        low < 0x100,
        k < 8,
    ensures
        crc16_bit(low << k) == low << ((k + 1) as u16),
{
    assert((low << k) & 0x8000u16 == 0u16 && (low << k) << 1u16 == low << ((k + 1) as u16))
        by (bit_vector)
        requires
            low < 0x100,
            k < 8,
    ;
}

/// A bit step on a value whose top bit is still clear only shifts.
proof fn lemma_crc32_bit_clear(low: u32, k: u32)
    requires
        low < 0x100_0000,
        k < 8,
    ensures
        crc32_bit(low << k) == low << ((k + 1) as u32),
{
    assert((low << k) & 0x8000_0000u32 == 0u32 && (low << k) << 1u32 == low << ((k + 1) as u32))
        by (bit_vector)
        requires
            low < 0x100_0000,
            k < 8,
    ;
}

/// A bit step is linear.
proof fn lemma_crc32_bit_linear(a: u32, b: u32)
    ensures
        crc32_bit(a ^ b) == crc32_bit(a) ^ crc32_bit(b),
{
    assert(crc32_bit(a ^ b) == crc32_bit(a) ^ crc32_bit(b)) by (bit_vector);
}

/// Eight bit steps are linear.
proof fn lemma_crc32_shift8_linear(a: u32, b: u32)
    ensures
        crc32_shift8(a ^ b) == crc32_shift8(a) ^ crc32_shift8(b),
{
    let (a1, b1) = (crc32_bit(a), crc32_bit(b));
    let (a2, b2) = (crc32_bit(a1), crc32_bit(b1));
    let (a3, b3) = (crc32_bit(a2), crc32_bit(b2));
    let (a4, b4) = (crc32_bit(a3), crc32_bit(b3));
    let (a5, b5) = (crc32_bit(a4), crc32_bit(b4));
    let (a6, b6) = (crc32_bit(a5), crc32_bit(b5));
    let (a7, b7) = (crc32_bit(a6), crc32_bit(b6));
    lemma_crc32_bit_linear(a, b);
    lemma_crc32_bit_linear(a1, b1);
    lemma_crc32_bit_linear(a2, b2);
    lemma_crc32_bit_linear(a3, b3);
    lemma_crc32_bit_linear(a4, b4);
    lemma_crc32_bit_linear(a5, b5);
    lemma_crc32_bit_linear(a6, b6);
    lemma_crc32_bit_linear(a7, b7);
}

/// A byte step of the CRC-32 through a table of the 256 eight-bit steps.
proof fn lemma_crc32_table_step(crc: u32, byte: u8, index: u32)
    requires
        index == ((crc >> 24u32) ^ (byte as u32)) & 0xFFu32,
    ensures
        index < 256,
        crc32_byte(crc, byte) == (crc << 8u32) ^ crc32_shift8(index << 24u32),
{
    let low = crc & 0xFF_FFFFu32;
    assert(index < 256 && low < 0x100_0000 && crc ^ ((byte as u32) << 24u32) == (low << 0u32) ^ (
    index << 24u32) && low << 8u32 == crc << 8u32) by (bit_vector)
        requires
            index == ((crc >> 24u32) ^ (byte as u32)) & 0xFFu32,
            low == crc & 0xFF_FFFFu32,
    ;
    lemma_crc32_shift8_linear(low << 0u32, index << 24u32);
    lemma_crc32_bit_clear(low, 0);
    lemma_crc32_bit_clear(low, 1);
    lemma_crc32_bit_clear(low, 2);
    lemma_crc32_bit_clear(low, 3);
    lemma_crc32_bit_clear(low, 4);
    lemma_crc32_bit_clear(low, 5);
    lemma_crc32_bit_clear(low, 6);
    lemma_crc32_bit_clear(low, 7);
}

/// The CRC-8 of `data`.
pub fn crc8_bytes(data: &[u8]) -> (crc: u8)
    ensures
        crc == crc8_of(data@),
{
    let mut crc: u8 = 0;
    let mut i: usize = 0;
    while i < data.len()
        invariant
            i <= data@.len(),
            crc == crc8_of(data@.take(i as int)),
        decreases data@.len() - i,
    {
        let ghost before = crc;
        crc = crc ^ data[i];
        let mut bit: u8 = 0;
        let ghost byte = data@[i as int];
        while bit < 8
            invariant
                bit <= 8,
                crc == iterate8(before ^ byte, bit as nat),
            decreases 8 - bit,
        {
            crc = if crc & 0x80 != 0 {
                (crc << 1) ^ 0x07
            } else {
                crc << 1
            };
            bit += 1;
        }
        proof {
            reveal_with_fuel(iterate8, 9);
            assert(data@.take(i + 1).drop_last() =~= data@.take(i as int));
        }
        i += 1;
    }
    assert(data@.take(i as int) =~= data@);
    crc
}

/// `n` bit steps of the CRC-8.
pub open spec fn iterate8(r: u8, n: nat) -> u8
    decreases n,
{
    if n == 0 {
        r
    } else {
        crc8_bit(iterate8(r, (n - 1) as nat))
    }
}

/// `n` bit steps of the CRC-16.
pub open spec fn iterate16(r: u16, n: nat) -> u16
    decreases n,
{
    if n == 0 {
        r
    } else {
        crc16_bit(iterate16(r, (n - 1) as nat))
    }
}

/// `n` bit steps of the CRC-32.
pub open spec fn iterate32(r: u32, n: nat) -> u32
    decreases n,
{
    if n == 0 {
        r
    } else {
        crc32_bit(iterate32(r, (n - 1) as nat))
    }
}

/// The CRC-16 of `data`.
pub fn crc16_bytes(data: &[u8]) -> (crc: u16)
    ensures
        crc == crc16_of(data@),
{
    let mut crc: u16 = 0;
    let mut i: usize = 0;
    while i < data.len()
        invariant
            i <= data@.len(),
            crc == crc16_of(data@.take(i as int)),
        decreases data@.len() - i,
    {
        let ghost before = crc;
        let ghost byte = data@[i as int];
        crc = crc ^ ((data[i] as u16) << 8);
        let mut bit: u8 = 0;
        while bit < 8
            invariant
                bit <= 8,
                crc == iterate16(before ^ ((byte as u16) << 8u16), bit as nat),
            decreases 8 - bit,
        {
            crc = if crc & 0x8000 != 0 {
                (crc << 1) ^ 0x8005
            } else {
                crc << 1
            };
            bit += 1;
        }
        proof {
            reveal_with_fuel(iterate16, 9);
            assert(data@.take(i + 1).drop_last() =~= data@.take(i as int));
        }
        i += 1;
    }
    assert(data@.take(i as int) =~= data@);
    crc
}

/// The CRC-32 of `data`, bit by bit.
pub fn crc32_bytes(data: &[u8]) -> (crc: u32)
    ensures
        crc == crc32_of(data@),
{
    let mut crc: u32 = 0;
    let mut i: usize = 0;
    while i < data.len()
        invariant
            i <= data@.len(),
            crc == crc32_of(data@.take(i as int)),
        decreases data@.len() - i,
    {
        let ghost before = crc;
        let ghost byte = data@[i as int];
        crc = crc ^ ((data[i] as u32) << 24);
        let mut bit: u8 = 0;
        while bit < 8
            invariant
                bit <= 8,
                crc == iterate32(before ^ ((byte as u32) << 24u32), bit as nat),
            decreases 8 - bit,
        {
            crc = if crc & 0x8000_0000 != 0 {
                (crc << 1) ^ 0x04C1_1DB7
            } else {
                crc << 1
            };
            bit += 1;
        }
        proof {
            reveal_with_fuel(iterate32, 9);
            assert(data@.take(i + 1).drop_last() =~= data@.take(i as int));
        }
        i += 1;
    }
    assert(data@.take(i as int) =~= data@);
    crc
}

/// The 256 eight-bit steps of the CRC-32, indexed by the top byte.
pub fn crc32_table() -> (table: Vec<u32>)
    ensures
        table@.len() == 256,
        forall|i: int|
            0 <= i < 256 ==> #[trigger] table@[i] == crc32_shift8((i as u32) << 24u32),
{
    let mut table: Vec<u32> = Vec::with_capacity(256);
    let mut i: u32 = 0;
    while i < 256
        invariant
            i <= 256,
            table@.len() == i,
            forall|k: int|
                0 <= k < i ==> #[trigger] table@[k] == crc32_shift8((k as u32) << 24u32),
        decreases 256 - i,
    {
        let mut r: u32 = i << 24;
        let mut bit: u8 = 0;
        while bit < 8
            invariant
                bit <= 8,
                r == iterate32(i << 24u32, bit as nat),
            decreases 8 - bit,
        {
            r = if r & 0x8000_0000 != 0 {
                (r << 1) ^ 0x04C1_1DB7
            } else {
                r << 1
            };
            bit += 1;
        }
        proof {
            reveal_with_fuel(iterate32, 9);
        }
        table.push(r);
        i += 1;
    }
    table
}

/// The CRC-32 of `data`, a byte at a time through a table.
pub fn crc32_with_table(table: &Vec<u32>, data: &[u8]) -> (crc: u32)
    requires
        table@.len() == 256,
        forall|i: int|
            0 <= i < 256 ==> #[trigger] table@[i] == crc32_shift8((i as u32) << 24u32),
    ensures
        crc == crc32_of(data@),
{
    let mut crc: u32 = 0;
    let mut i: usize = 0;
    while i < data.len()
        invariant
            i <= data@.len(),
            crc == crc32_of(data@.take(i as int)),
            table@.len() == 256,
            forall|k: int|
                0 <= k < 256 ==> #[trigger] table@[k] == crc32_shift8((k as u32) << 24u32),
        decreases data@.len() - i,
    {
        let byte: u8 = data[i];
        let index: u32 = ((crc >> 24) ^ (byte as u32)) & 0xFF;
        proof {
            lemma_crc32_table_step(crc, byte, index);
            assert(data@.take(i + 1).drop_last() =~= data@.take(i as int));
        }
        crc = (crc << 8) ^ table[index as usize];
        i += 1;
    }
    assert(data@.take(i as int) =~= data@);
    crc
}

/// The register of a CRC-8 as a polynomial.
pub open spec fn register8(r: u8) -> Poly {
    |i: int| 0 <= i < 8 && (r >> (i as u8)) & 1u8 == 1u8
}

/// The polynomial that a CRC-8 divides by: the power with exponent 8, and
/// those that the bits of 0x07 stand for.
pub open spec fn divisor8() -> Poly {
    |i: int|
        i == 8 || i == 2 || i == 1 || i == 0
}

/// A bit step takes the divisor off where the power in front is set.
proof fn lemma_crc8_step(r: u8)
    ensures
        polynomial::raised(register8(r), 1) == (if r & 0x80u8 != 0 {
            polynomial::plus(divisor8(), register8(crc8_bit(r)))
        } else {
            register8(crc8_bit(r))
        }),
{
    let left = polynomial::raised(register8(r), 1);
    let next = register8(crc8_bit(r));
    let right = if r & 0x80u8 != 0 {
        polynomial::plus(divisor8(), next)
    } else {
        next
    };
    assert forall|i: int| #[trigger] left(i) == right(i) by {
        if 0 <= i <= 8 {
            lemma_crc8_step_bit(r, i as u8);
        }
    }
    assert(left =~= right);
}

proof fn lemma_crc8_step_bit(r: u8, i: u8)
    requires
        i <= 8,
    ensures
        i == 8 ==> ((r >> 7u8) & 1u8 == 1u8) == (r & 0x80u8 != 0),
        i == 0 ==> ((crc8_bit(r) >> i) & 1u8 == 1u8) == (r & 0x80u8 != 0),
        0 < i < 8 ==> ((r >> ((i - 1) as u8)) & 1u8 == 1u8) == (((crc8_bit(r) >> i)
            & 1u8 == 1u8) != (r & 0x80u8 != 0 && (i == 2 || i == 1 || i == 0))),
{
    assert((i == 8 ==> ((r >> 7u8) & 1u8 == 1u8) == (r & 0x80u8 != 0)) && (i == 0
        ==> ((crc8_bit(r) >> i) & 1u8 == 1u8) == (r & 0x80u8 != 0)) && (0 < i < 8
        ==> ((r >> ((i - 1) as u8)) & 1u8 == 1u8) == (((crc8_bit(r) >> i) & 1u8
        == 1u8) != (r & 0x80u8 != 0 && (i == 2 || i == 1 || i == 0)))))
        by (bit_vector)
        requires
            i <= 8,
    ;
}

/// A byte is added to the highest powers of the register.
proof fn lemma_crc8_mixed(crc: u8, byte: u8)
    ensures
        register8(crc ^ byte) == polynomial::plus(
            register8(crc),
            polynomial::raised(polynomial::byte_poly(byte), 0),
        ),
{
    let left = register8(crc ^ byte);
    let right = polynomial::plus(
        register8(crc),
        polynomial::raised(polynomial::byte_poly(byte), 0),
    );
    assert forall|i: int| #[trigger] left(i) == right(i) by {
        if 0 <= i < 8 {
            let k = i as u8;
            let j = (i - 0) as u8;
            let mixed = crc ^ byte;
            assert(((mixed >> k) & 1u8 == 1u8) == (((crc >> k) & 1u8 == 1u8) != (k
                >= 0 && (byte >> j) & 1u8 == 1u8))) by (bit_vector)
                requires
                    k < 8,
                    k >= 0 ==> j == k - 0,
                    mixed == crc ^ byte,
            ;
        }
    }
    assert(left =~= right);
}

/// The eight bits by which a byte step divides.
spec fn taken8(r: u8) -> Seq<bool> {
    Seq::new(8, |k: int| iterate8(r, k as nat) & 0x80u8 != 0)
}

/// A CRC-8 is what is left when the message, raised by 8 powers, is divided.
pub proof fn crc8_is_the_remainder(data: Seq<u8>)
    ensures
        polynomial::is_remainder(
            register8(crc8_of(data)),
            polynomial::raised(polynomial::message(data), 8),
            divisor8(),
            8,
        ),
        polynomial::has_degree(divisor8(), 8),
    decreases data.len(),
{
    let rest = register8(crc8_of(data));
    assert(polynomial::below(rest, 8));
    if data.len() == 0 {
        assert(forall|k: u8| #![auto] (0u8 >> k) & 1u8 == 0u8) by (bit_vector);
        assert(polynomial::raised(polynomial::message(data), 8) =~= polynomial::plus(
            polynomial::times(Seq::empty(), divisor8()),
            rest,
        ));
    } else {
        let before = data.drop_last();
        let byte = data.last();
        let crc = crc8_of(before);
        let mixed = crc ^ byte;
        crc8_is_the_remainder(before);
        let quotient = choose|q: Seq<bool>|
            polynomial::raised(polynomial::message(before), 8) == polynomial::plus(
                #[trigger] polynomial::times(q, divisor8()),
                register8(crc),
            );
        let rests = Seq::new(9, |k: int| register8(iterate8(mixed, k as nat)));
        assert forall|k: int| 0 <= k < 8 implies polynomial::raised(#[trigger] rests[k], 1) == (
        if taken8(mixed)[k] {
            polynomial::plus(divisor8(), rests[k + 1])
        } else {
            rests[k + 1]
        }) by {
            lemma_crc8_step(iterate8(mixed, k as nat));
            assert(iterate8(mixed, (k + 1) as nat) == crc8_bit(iterate8(mixed, k as nat)));
        }
        polynomial::lemma_division_steps(rests, taken8(mixed), divisor8());
        lemma_crc8_mixed(crc, byte);
        assert(rests[0] == register8(mixed));
        assert(rests[8] == rest) by {
            reveal_with_fuel(iterate8, 9);
        }
        polynomial::lemma_byte_divided(
            before,
            byte,
            8,
            quotient,
            taken8(mixed),
            (register8(crc), rests[0], rest),
            divisor8(),
        );
        assert(before.push(byte) =~= data);
        assert(polynomial::raised(polynomial::message(data), 8) == polynomial::plus(
            polynomial::times(quotient + taken8(mixed), divisor8()),
            rest,
        ));
    }
}

/// The register of a CRC-16 as a polynomial.
pub open spec fn register16(r: u16) -> Poly {
    |i: int| 0 <= i < 16 && (r >> (i as u16)) & 1u16 == 1u16
}

/// The polynomial that a CRC-16 divides by: the power with exponent 16, and
/// those that the bits of 0x8005 stand for.
pub open spec fn divisor16() -> Poly {
    |i: int|
        i == 16 || i == 15 || i == 2 || i == 0
}

/// A bit step takes the divisor off where the power in front is set.
proof fn lemma_crc16_step(r: u16)
    ensures
        polynomial::raised(register16(r), 1) == (if r & 0x8000u16 != 0 {
            polynomial::plus(divisor16(), register16(crc16_bit(r)))
        } else {
            register16(crc16_bit(r))
        }),
{
    let left = polynomial::raised(register16(r), 1);
    let next = register16(crc16_bit(r));
    let right = if r & 0x8000u16 != 0 {
        polynomial::plus(divisor16(), next)
    } else {
        next
    };
    assert forall|i: int| #[trigger] left(i) == right(i) by {
        if 0 <= i <= 16 {
            lemma_crc16_step_bit(r, i as u16);
        }
    }
    assert(left =~= right);
}

proof fn lemma_crc16_step_bit(r: u16, i: u16)
    requires
        i <= 16,
    ensures
        i == 16 ==> ((r >> 15u16) & 1u16 == 1u16) == (r & 0x8000u16 != 0),
        i == 0 ==> ((crc16_bit(r) >> i) & 1u16 == 1u16) == (r & 0x8000u16 != 0),
        0 < i < 16 ==> ((r >> ((i - 1) as u16)) & 1u16 == 1u16) == (((crc16_bit(r) >> i)
            & 1u16 == 1u16) != (r & 0x8000u16 != 0 && (i == 15 || i == 2 || i == 0))),
{
    assert((i == 16 ==> ((r >> 15u16) & 1u16 == 1u16) == (r & 0x8000u16 != 0)) && (i == 0
        ==> ((crc16_bit(r) >> i) & 1u16 == 1u16) == (r & 0x8000u16 != 0)) && (0 < i < 16
        ==> ((r >> ((i - 1) as u16)) & 1u16 == 1u16) == (((crc16_bit(r) >> i) & 1u16
        == 1u16) != (r & 0x8000u16 != 0 && (i == 15 || i == 2 || i == 0)))))
        by (bit_vector)
        requires
            i <= 16,
    ;
}

/// A byte is added to the highest powers of the register.
proof fn lemma_crc16_mixed(crc: u16, byte: u8)
    ensures
        register16(crc ^ ((byte as u16) << 8u16)) == polynomial::plus(
            register16(crc),
            polynomial::raised(polynomial::byte_poly(byte), 8),
        ),
{
    let left = register16(crc ^ ((byte as u16) << 8u16));
    let right = polynomial::plus(
        register16(crc),
        polynomial::raised(polynomial::byte_poly(byte), 8),
    );
    assert forall|i: int| #[trigger] left(i) == right(i) by {
        if 0 <= i < 16 {
            let k = i as u16;
            let j = (i - 8) as u8;
            let mixed = crc ^ ((byte as u16) << 8u16);
            assert(((mixed >> k) & 1u16 == 1u16) == (((crc >> k) & 1u16 == 1u16) != (k
                >= 8 && (byte >> j) & 1u8 == 1u8))) by (bit_vector)
                requires
                    k < 16,
                    k >= 8 ==> j == k - 8,
                    mixed == crc ^ ((byte as u16) << 8u16),
            ;
        }
    }
    assert(left =~= right);
}

/// The eight bits by which a byte step divides.
spec fn taken16(r: u16) -> Seq<bool> {
    Seq::new(8, |k: int| iterate16(r, k as nat) & 0x8000u16 != 0)
}

/// A CRC-16 is what is left when the message, raised by 16 powers, is divided.
pub proof fn crc16_is_the_remainder(data: Seq<u8>)
    ensures
        polynomial::is_remainder(
            register16(crc16_of(data)),
            polynomial::raised(polynomial::message(data), 16),
            divisor16(),
            16,
        ),
        polynomial::has_degree(divisor16(), 16),
    decreases data.len(),
{
    let rest = register16(crc16_of(data));
    assert(polynomial::below(rest, 16));
    if data.len() == 0 {
        assert(forall|k: u16| #![auto] (0u16 >> k) & 1u16 == 0u16) by (bit_vector);
        assert(polynomial::raised(polynomial::message(data), 16) =~= polynomial::plus(
            polynomial::times(Seq::empty(), divisor16()),
            rest,
        ));
    } else {
        let before = data.drop_last();
        let byte = data.last();
        let crc = crc16_of(before);
        let mixed = crc ^ ((byte as u16) << 8u16);
        crc16_is_the_remainder(before);
        let quotient = choose|q: Seq<bool>|
            polynomial::raised(polynomial::message(before), 16) == polynomial::plus(
                #[trigger] polynomial::times(q, divisor16()),
                register16(crc),
            );
        let rests = Seq::new(9, |k: int| register16(iterate16(mixed, k as nat)));
        assert forall|k: int| 0 <= k < 8 implies polynomial::raised(#[trigger] rests[k], 1) == (
        if taken16(mixed)[k] {
            polynomial::plus(divisor16(), rests[k + 1])
        } else {
            rests[k + 1]
        }) by {
            lemma_crc16_step(iterate16(mixed, k as nat));
            assert(iterate16(mixed, (k + 1) as nat) == crc16_bit(iterate16(mixed, k as nat)));
        }
        polynomial::lemma_division_steps(rests, taken16(mixed), divisor16());
        lemma_crc16_mixed(crc, byte);
        assert(rests[0] == register16(mixed));
        assert(rests[8] == rest) by {
            reveal_with_fuel(iterate16, 9);
        }
        polynomial::lemma_byte_divided(
            before,
            byte,
            16,
            quotient,
            taken16(mixed),
            (register16(crc), rests[0], rest),
            divisor16(),
        );
        assert(before.push(byte) =~= data);
        assert(polynomial::raised(polynomial::message(data), 16) == polynomial::plus(
            polynomial::times(quotient + taken16(mixed), divisor16()),
            rest,
        ));
    }
}

/// The register of a CRC-32 as a polynomial.
pub open spec fn register32(r: u32) -> Poly {
    |i: int| 0 <= i < 32 && (r >> (i as u32)) & 1u32 == 1u32
}

/// The polynomial that a CRC-32 divides by: the power with exponent 32, and
/// those that the bits of 0x04C11DB7 stand for.
pub open spec fn divisor32() -> Poly {
    |i: int|
        i == 32 || i == 26 || i == 23 || i == 22 || i == 16 || i == 12 || i == 11 || i == 10 || i == 8
            || i == 7 || i == 5 || i == 4 || i == 2 || i == 1 || i == 0
}

/// A bit step takes the divisor off where the power in front is set.
proof fn lemma_crc32_step(r: u32)
    ensures
        polynomial::raised(register32(r), 1) == (if r & 0x8000_0000u32 != 0 {
            polynomial::plus(divisor32(), register32(crc32_bit(r)))
        } else {
            register32(crc32_bit(r))
        }),
{
    let left = polynomial::raised(register32(r), 1);
    let next = register32(crc32_bit(r));
    let right = if r & 0x8000_0000u32 != 0 {
        polynomial::plus(divisor32(), next)
    } else {
        next
    };
    assert forall|i: int| #[trigger] left(i) == right(i) by {
        if 0 <= i <= 32 {
            lemma_crc32_step_bit(r, i as u32);
        }
    }
    assert(left =~= right);
}

proof fn lemma_crc32_step_bit(r: u32, i: u32)
    requires
        i <= 32,
    ensures
        i == 32 ==> ((r >> 31u32) & 1u32 == 1u32) == (r & 0x8000_0000u32 != 0),
        i == 0 ==> ((crc32_bit(r) >> i) & 1u32 == 1u32) == (r & 0x8000_0000u32 != 0),
        0 < i < 32 ==> ((r >> ((i - 1) as u32)) & 1u32 == 1u32) == (((crc32_bit(r) >> i)
            & 1u32 == 1u32) != (r & 0x8000_0000u32 != 0 && (
            i == 26 || i == 23 || i == 22 || i == 16 || i == 12 || i == 11 || i == 10 || i == 8 || i == 7
            || i == 5 || i == 4 || i == 2 || i == 1 || i == 0))),
{
    assert((i == 32 ==> ((r >> 31u32) & 1u32 == 1u32) == (r & 0x8000_0000u32 != 0)) && (i == 0
        ==> ((crc32_bit(r) >> i) & 1u32 == 1u32) == (r & 0x8000_0000u32 != 0)) && (0 < i < 32
        ==> ((r >> ((i - 1) as u32)) & 1u32 == 1u32) == (((crc32_bit(r) >> i) & 1u32
        == 1u32) != (r & 0x8000_0000u32 != 0 && (
            i == 26 || i == 23 || i == 22 || i == 16 || i == 12 || i == 11 || i == 10 || i == 8 || i == 7
            || i == 5 || i == 4 || i == 2 || i == 1 || i == 0)))))
        by (bit_vector)
        requires
            i <= 32,
    ;
}

/// A byte is added to the highest powers of the register.
proof fn lemma_crc32_mixed(crc: u32, byte: u8)
    ensures
        register32(crc ^ ((byte as u32) << 24u32)) == polynomial::plus(
            register32(crc),
            polynomial::raised(polynomial::byte_poly(byte), 24),
        ),
{
    let left = register32(crc ^ ((byte as u32) << 24u32));
    let right = polynomial::plus(
        register32(crc),
        polynomial::raised(polynomial::byte_poly(byte), 24),
    );
    assert forall|i: int| #[trigger] left(i) == right(i) by {
        if 0 <= i < 32 {
            let k = i as u32;
            let j = (i - 24) as u8;
            let mixed = crc ^ ((byte as u32) << 24u32);
            assert(((mixed >> k) & 1u32 == 1u32) == (((crc >> k) & 1u32 == 1u32) != (k
                >= 24 && (byte >> j) & 1u8 == 1u8))) by (bit_vector)
                requires
                    k < 32,
                    k >= 24 ==> j == k - 24,
                    mixed == crc ^ ((byte as u32) << 24u32),
            ;
        }
    }
    assert(left =~= right);
}

/// The eight bits by which a byte step divides.
spec fn taken32(r: u32) -> Seq<bool> {
    Seq::new(8, |k: int| iterate32(r, k as nat) & 0x8000_0000u32 != 0)
}

/// A CRC-32 is what is left when the message, raised by 32 powers, is divided.
pub proof fn crc32_is_the_remainder(data: Seq<u8>)
    ensures
        polynomial::is_remainder(
            register32(crc32_of(data)),
            polynomial::raised(polynomial::message(data), 32),
            divisor32(),
            32,
        ),
        polynomial::has_degree(divisor32(), 32),
    decreases data.len(),
{
    let rest = register32(crc32_of(data));
    assert(polynomial::below(rest, 32));
    if data.len() == 0 {
        assert(forall|k: u32| #![auto] (0u32 >> k) & 1u32 == 0u32) by (bit_vector);
        assert(polynomial::raised(polynomial::message(data), 32) =~= polynomial::plus(
            polynomial::times(Seq::empty(), divisor32()),
            rest,
        ));
    } else {
        let before = data.drop_last();
        let byte = data.last();
        let crc = crc32_of(before);
        let mixed = crc ^ ((byte as u32) << 24u32);
        crc32_is_the_remainder(before);
        let quotient = choose|q: Seq<bool>|
            polynomial::raised(polynomial::message(before), 32) == polynomial::plus(
                #[trigger] polynomial::times(q, divisor32()),
                register32(crc),
            );
        let rests = Seq::new(9, |k: int| register32(iterate32(mixed, k as nat)));
        assert forall|k: int| 0 <= k < 8 implies polynomial::raised(#[trigger] rests[k], 1) == (
        if taken32(mixed)[k] {
            polynomial::plus(divisor32(), rests[k + 1])
        } else {
            rests[k + 1]
        }) by {
            lemma_crc32_step(iterate32(mixed, k as nat));
            assert(iterate32(mixed, (k + 1) as nat) == crc32_bit(iterate32(mixed, k as nat)));
        }
        polynomial::lemma_division_steps(rests, taken32(mixed), divisor32());
        lemma_crc32_mixed(crc, byte);
        assert(rests[0] == register32(mixed));
        assert(rests[8] == rest) by {
            reveal_with_fuel(iterate32, 9);
        }
        polynomial::lemma_byte_divided(
            before,
            byte,
            32,
            quotient,
            taken32(mixed),
            (register32(crc), rests[0], rest),
            divisor32(),
        );
        assert(before.push(byte) =~= data);
        assert(polynomial::raised(polynomial::message(data), 32) == polynomial::plus(
            polynomial::times(quotient + taken32(mixed), divisor32()),
            rest,
        ));
    }
}

/// The polynomials of the checksums, behind any message: where the next byte
/// leaves a one at the lowest place of the highest byte, that one is replaced by
/// the lower terms.
pub proof fn checksums_have_their_polynomials(data: Seq<u8>)
    ensures
        crc8_of(data.push(crc8_of(data) ^ 1u8)) == 0x07,
        ({
            let r = crc16_of(data);
            crc16_of(data.push(((r >> 8u16) ^ 1u16) as u8)) == (r << 8u16) ^ 0x8005u16
        }),
        ({
            let r = crc32_of(data);
            crc32_of(data.push(((r >> 24u32) ^ 1u32) as u8)) == (r << 8u32) ^ 0x04C1_1DB7u32
        }),
{
    let a = crc8_of(data);
    let b = crc16_of(data);
    let c = crc32_of(data);
    assert(data.push(a ^ 1u8).drop_last() =~= data);
    assert(data.push(((b >> 8u16) ^ 1u16) as u8).drop_last() =~= data);
    assert(data.push(((c >> 24u32) ^ 1u32) as u8).drop_last() =~= data);
    assert(crc8_byte(a, a ^ 1u8) == 0x07u8) by (bit_vector);
    assert(crc16_byte(b, ((b >> 8u16) ^ 1u16) as u8) == (b << 8u16) ^ 0x8005u16) by (bit_vector);
    assert(crc32_byte(c, ((c >> 24u32) ^ 1u32) as u8) == (c << 8u32) ^ 0x04C1_1DB7u32)
        by (bit_vector);
}

} // verus!
