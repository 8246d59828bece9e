//! Polynomials whose coefficients are bits, and what is left of one when it is
//! divided by another.

use vstd::prelude::*;

verus! {

/// A polynomial: whether the power with an exponent is part of it.
pub type Poly = spec_fn(int) -> bool;

/// The polynomial without powers.
pub open spec fn zero() -> Poly {
    |i: int| false
}

/// The sum of two polynomials: a power that is part of both cancels out.
pub open spec fn plus(a: Poly, b: Poly) -> Poly {
    |i: int| a(i) != b(i)
}

/// A polynomial times the power with exponent `k`.
pub open spec fn raised(a: Poly, k: int) -> Poly {
    |i: int| a(i - k)
}

/// The product of the polynomial with some coefficients, that of the highest
/// power first, and another one.
pub open spec fn times(coefficients: Seq<bool>, b: Poly) -> Poly
    decreases coefficients.len(),
{
    if coefficients.len() == 0 {
        zero()
    } else {
        let higher = raised(times(coefficients.drop_last(), b), 1);
        if coefficients.last() {
            plus(higher, b)
        } else {
            higher
        }
    }
}

/// Whether a polynomial has no powers but those below a degree.
pub open spec fn below(a: Poly, degree: int) -> bool {
    forall|i: int| !(0 <= i < degree) ==> !#[trigger] a(i)
}

/// Whether a polynomial has a degree.
pub open spec fn has_degree(a: Poly, degree: int) -> bool {
    &&& a(degree)
    &&& forall|i: int| i > degree ==> !#[trigger] a(i)
}

/// Whether dividing a polynomial by one of some degree leaves a remainder.
pub open spec fn is_remainder(rest: Poly, dividend: Poly, divisor: Poly, degree: int) -> bool {
    &&& below(rest, degree)
    &&& exists|quotient: Seq<bool>| dividend == plus(#[trigger] times(quotient, divisor), rest)
}

/// The bit of a byte with a place value of a power of two.
pub open spec fn bit_of(byte: u8, k: int) -> bool {
    (byte >> (k as u8)) & 1u8 == 1u8
}

/// The polynomial of a byte.
pub open spec fn byte_poly(byte: u8) -> Poly {
    |i: int| 0 <= i < 8 && bit_of(byte, i)
}

/// The polynomial whose coefficients are the bits of some bytes, the most
/// significant bit of the first byte that of the highest power.
pub open spec fn message(data: Seq<u8>) -> Poly {
    |i: int| 0 <= i < 8 * data.len() && bit_of(data[data.len() - 1 - i / 8], i % 8)
}

/// A further byte behind a message.
pub proof fn lemma_message_extends(data: Seq<u8>, byte: u8)
    ensures
        message(data.push(byte)) == plus(raised(message(data), 8), byte_poly(byte)),
{
    let longer = data.push(byte);
    assert forall|i: int| #[trigger] message(longer)(i) == plus(
        raised(message(data), 8),
        byte_poly(byte),
    )(i) by {
        if 8 <= i < 8 * longer.len() {
            assert(i / 8 == (i - 8) / 8 + 1 && i % 8 == (i - 8) % 8);
            assert(longer[longer.len() - 1 - i / 8] == data[data.len() - 1 - (i - 8) / 8]);
        } else if 0 <= i < 8 {
            assert(i / 8 == 0 && i % 8 == i);
        }
    }
    assert(message(longer) =~= plus(raised(message(data), 8), byte_poly(byte)));
}

/// Coefficients behind others take the product of those to higher powers.
pub proof fn lemma_times_joined(front: Seq<bool>, back: Seq<bool>, b: Poly)
    ensures
        times(front + back, b) == plus(raised(times(front, b), back.len() as int), times(back, b)),
    decreases back.len(),
{
    let whole = front + back;
    let split = plus(raised(times(front, b), back.len() as int), times(back, b));
    if back.len() == 0 {
        assert(whole =~= front);
        assert(times(whole, b) =~= split);
    } else {
        lemma_times_joined(front, back.drop_last(), b);
        assert(whole.drop_last() =~= front + back.drop_last());
        assert(whole.last() == back.last());
        let n = back.len() as int;
        assert(raised(times(whole.drop_last(), b), 1) =~= plus(
            raised(times(front, b), n),
            raised(times(back.drop_last(), b), 1),
        ));
        assert(times(whole, b) =~= split);
    }
}

/// Leading coefficients that are not set change nothing.
proof fn lemma_leading_zeros(n: nat, coefficients: Seq<bool>, b: Poly)
    ensures
        times(Seq::new(n, |i: int| false) + coefficients, b) == times(coefficients, b),
    decreases n,
{
    let zeros = Seq::new(n, |i: int| false);
    lemma_zeros(n, b);
    lemma_times_joined(zeros, coefficients, b);
    assert(plus(raised(zero(), coefficients.len() as int), times(coefficients, b)) =~= times(
        coefficients,
        b,
    ));
}

/// Without coefficients the product is zero.
proof fn lemma_zeros(n: nat, b: Poly)
    ensures
        times(Seq::new(n, |i: int| false), b) == zero(),
    decreases n,
{
    let zeros = Seq::new(n, |i: int| false);
    if n > 0 {
        lemma_zeros((n - 1) as nat, b);
        assert(zeros.drop_last() =~= Seq::new((n - 1) as nat, |i: int| false));
        assert(raised(zero(), 1) =~= zero());
    }
}

/// Coefficients that differ.
spec fn differing(a: Seq<bool>, b: Seq<bool>) -> Seq<bool> {
    Seq::new(a.len(), |i: int| a[i] != b[i])
}

/// Products add up as their coefficients do.
proof fn lemma_times_adds(p: Seq<bool>, q: Seq<bool>, b: Poly)
    requires
        p.len() == q.len(),
    ensures
        times(differing(p, q), b) == plus(times(p, b), times(q, b)),
    decreases p.len(),
{
    let d = differing(p, q);
    if p.len() == 0 {
        assert(times(d, b) =~= plus(times(p, b), times(q, b)));
    } else {
        lemma_times_adds(p.drop_last(), q.drop_last(), b);
        assert(d.drop_last() =~= differing(p.drop_last(), q.drop_last()));
        assert(raised(times(d.drop_last(), b), 1) =~= plus(
            raised(times(p.drop_last(), b), 1),
            raised(times(q.drop_last(), b), 1),
        ));
        assert(times(d, b) =~= plus(times(p, b), times(q, b)));
    }
}

/// A product has no power above the degrees of both put together; with a
/// leading coefficient it has that one.
proof fn lemma_leading_power(coefficients: Seq<bool>, b: Poly, degree: int)
    requires
        has_degree(b, degree),
    ensures
        forall|i: int| i >= coefficients.len() + degree ==> !#[trigger] times(coefficients, b)(i),
        coefficients.len() > 0 ==> times(coefficients, b)(coefficients.len() - 1 + degree)
            == coefficients[0],
    decreases coefficients.len(),
{
    if coefficients.len() > 0 {
        let rest = coefficients.drop_last();
        lemma_leading_power(rest, b, degree);
        let higher = raised(times(rest, b), 1);
        assert forall|i: int| i >= coefficients.len() + degree implies !#[trigger] times(
            coefficients,
            b,
        )(i) by {
            assert(!times(rest, b)(i - 1));
            assert(!b(i));
        }
        let top = coefficients.len() - 1 + degree;
        if coefficients.len() == 1 {
            assert(!times(rest, b)(top - 1));
        } else {
            assert(rest[0] == coefficients[0]);
            assert(higher(top) == times(rest, b)(top - 1));
            assert(!b(top));
        }
    }
}

/// A product below the degree of one factor has no coefficients in the other.
proof fn lemma_small_product(coefficients: Seq<bool>, b: Poly, degree: int)
    requires
        has_degree(b, degree),
        degree >= 0,
        below(times(coefficients, b), degree),
    ensures
        times(coefficients, b) == zero(),
    decreases coefficients.len(),
{
    if coefficients.len() > 0 {
        lemma_leading_power(coefficients, b, degree);
        let top = coefficients.len() - 1 + degree;
        assert(!times(coefficients, b)(top));
        let tail = coefficients.skip(1);
        assert(coefficients =~= Seq::new(1, |i: int| false) + tail);
        lemma_leading_zeros(1, tail, b);
        lemma_small_product(tail, b, degree);
    }
}

/// A division leaves one remainder only.
pub proof fn remainder_is_unique(
    a: Poly,
    b: Poly,
    dividend: Poly,
    divisor: Poly,
    degree: int,
)
    requires
        degree >= 0,
        has_degree(divisor, degree),
        is_remainder(a, dividend, divisor, degree),
        is_remainder(b, dividend, divisor, degree),
    ensures
        a == b,
{
    let p = choose|p: Seq<bool>| dividend == plus(#[trigger] times(p, divisor), a);
    let q = choose|q: Seq<bool>| dividend == plus(#[trigger] times(q, divisor), b);
    let pp = Seq::new(q.len(), |i: int| false) + p;
    let qq = Seq::new(p.len(), |i: int| false) + q;
    lemma_leading_zeros(q.len(), p, divisor);
    lemma_leading_zeros(p.len(), q, divisor);
    lemma_times_adds(pp, qq, divisor);
    let product = times(differing(pp, qq), divisor);
    assert forall|i: int| #[trigger] product(i) == (a(i) != b(i)) by {
        assert(dividend(i) == (times(p, divisor)(i) != a(i)));
        assert(dividend(i) == (times(q, divisor)(i) != b(i)));
    }
    assert(below(product, degree)) by {
        assert forall|i: int| !(0 <= i < degree) implies !#[trigger] product(i) by {
            assert(!a(i) && !b(i));
        }
    }
    lemma_small_product(differing(pp, qq), divisor, degree);
    assert forall|i: int| #[trigger] a(i) == b(i) by {
        assert(!product(i));
    }
    assert(a =~= b);
}

/// Some steps of a long division, each of which takes the divisor off where
/// the power in front is set.
pub proof fn lemma_division_steps(rests: Seq<Poly>, quotient: Seq<bool>, divisor: Poly)
    requires
        rests.len() == quotient.len() + 1,
        forall|k: int|
            0 <= k < quotient.len() ==> raised(#[trigger] rests[k], 1) == (if quotient[k] {
                plus(divisor, rests[k + 1])
            } else {
                rests[k + 1]
            }),
    ensures
        raised(rests[0], quotient.len() as int) == plus(times(quotient, divisor), rests.last()),
    decreases quotient.len(),
{
    let n = quotient.len() as int;
    if n == 0 {
        assert(raised(rests[0], 0) =~= plus(zero(), rests[0]));
    } else {
        let fewer = rests.drop_last();
        let shorter = quotient.drop_last();
        assert forall|k: int| 0 <= k < shorter.len() implies raised(#[trigger] fewer[k], 1) == (
        if shorter[k] {
            plus(divisor, fewer[k + 1])
        } else {
            fewer[k + 1]
        }) by {
            assert(fewer[k] == rests[k] && fewer[k + 1] == rests[k + 1]);
        }
        lemma_division_steps(fewer, shorter, divisor);
        assert(fewer.last() == rests[n - 1]);
        assert(raised(rests[0], n) =~= raised(raised(rests[0], n - 1), 1));
        assert(raised(raised(rests[0], n - 1), 1) =~= plus(
            raised(times(shorter, divisor), 1),
            raised(rests[n - 1], 1),
        ));
        assert(raised(rests[0], n) =~= plus(times(quotient, divisor), rests.last()));
    }
}

/// The division of a message goes on with a further byte, which is added to
/// the highest powers of what is left so far.
pub proof fn lemma_byte_divided(
    data: Seq<u8>,
    byte: u8,
    degree: int,
    quotient: Seq<bool>,
    more: Seq<bool>,
    rests: (Poly, Poly, Poly),
    divisor: Poly,
)
    requires
        more.len() == 8,
        raised(message(data), degree) == plus(times(quotient, divisor), rests.0),
        rests.1 == plus(rests.0, raised(byte_poly(byte), degree - 8)),
        raised(rests.1, 8) == plus(times(more, divisor), rests.2),
    ensures
        raised(message(data.push(byte)), degree) == plus(times(quotient + more, divisor), rests.2),
{
    lemma_message_extends(data, byte);
    lemma_times_joined(quotient, more, divisor);
    let before = raised(message(data), degree);
    assert(raised(message(data.push(byte)), degree) =~= plus(
        raised(before, 8),
        raised(raised(byte_poly(byte), degree - 8), 8),
    ));
    assert(raised(before, 8) =~= plus(
        raised(times(quotient, divisor), 8),
        raised(rests.0, 8),
    ));
    assert(raised(rests.1, 8) =~= plus(
        raised(rests.0, 8),
        raised(raised(byte_poly(byte), degree - 8), 8),
    ));
    let whole = raised(message(data.push(byte)), degree);
    let parts = plus(times(quotient + more, divisor), rests.2);
    assert forall|i: int| #[trigger] whole(i) == parts(i) by {
        assert(raised(rests.1, 8)(i) == (times(more, divisor)(i) != rests.2(i)));
        assert(raised(rests.1, 8)(i) == (raised(rests.0, 8)(i) != raised(
            raised(byte_poly(byte), degree - 8),
            8,
        )(i)));
    }
    assert(whole =~= parts);
}

} // verus!
