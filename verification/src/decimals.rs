//! Times in seconds, written out with three decimals.

use vstd::prelude::*;
use vstd::arithmetic::power2::pow2;
use vstd::string::StringExecFns;
use crate::seconds::{self, power_of_two, round_even, Seconds, HIDDEN_BIT, INFINITY_BITS, SIGN_BIT};
use crate::text::{self, push_decimal, push_digit};

verus! {

impl Seconds {
    /// The magnitude of a finite time in thousandths of a second, rounded to
    /// the nearest whole number and to the even one where two are equally
    /// near.
    pub open spec fn thousandths(self) -> nat {
        if self.scale() >= 0 {
            self.significand() * 1000 * pow2(self.scale() as nat)
        } else {
            seconds::rounded_even(self.significand() * 1000, pow2((-self.scale()) as nat))
        }
    }

    /// The time with three decimals; infinity and what is no number have
    /// names.
    pub open spec fn three_decimals(self) -> Seq<char> {
        if self.magnitude() > INFINITY_BITS {
            "NaN"@
        } else {
            (if self.bits >= SIGN_BIT {
                "-"@
            } else {
                Seq::empty()
            }) + (if self.finite() {
                fixed_point(self.thousandths())
            } else {
                "inf"@
            })
        }
    }

    /// The time with three decimals.
    pub fn to_three_decimals(&self) -> (text: String)
        ensures
            text@ == self.three_decimals(),
    {
        let magnitude: u64 = if self.bits >= SIGN_BIT {
            self.bits - SIGN_BIT
        } else {
            self.bits
        };
        if magnitude > INFINITY_BITS {
            return String::from_str("NaN");
        }
        let mut out: String = String::new();
        if self.bits >= SIGN_BIT {
            out.append("-");
        }
        assert(out@ =~= (if self.bits >= SIGN_BIT {
            "-"@
        } else {
            Seq::empty()
        }));
        if !self.is_finite() {
            out.append("inf");
            return out;
        }
        let (significand, scale): (u64, i32) = self.parts();
        if scale >= 0 {
            push_large(&mut out, significand, scale as u32);
        } else {
            push_small(&mut out, significand, (-scale) as u32);
        }
        out
    }
}

/// A number of thousandths with a point in front of the last three digits.
pub open spec fn fixed_point(thousandths: nat) -> Seq<char> {
    let n = thousandths as int;
    text::digits((n / 1000) as nat, 10) + "."@ + text::digit(n / 100 % 10) + text::digit(
        n / 10 % 10,
    ) + text::digit(n % 10)
}

/// Appends a fraction with a denominator of a power of two.
fn push_small(out: &mut String, significand: u64, k: u32)
    requires
        significand < 2 * HIDDEN_BIT,
        1 <= k <= 1074,
    ensures
        final(out)@ == old(out)@ + fixed_point(
            seconds::rounded_even(significand as nat * 1000, pow2(k as nat)),
        ),
{
    let scaled: u128 = significand as u128 * 1000;
    let n: u64 = if k < 100 {
        let unit: u128 = power_of_two(k);
        proof {
            seconds::lemma_power_fits(k as nat);
        }
        let rounded: u128 = round_even(scaled, unit);
        assert(rounded <= scaled + 1) by {
            assert(scaled / unit <= scaled) by (nonlinear_arith)
                requires
                    unit > 0,
            ;
        }
        rounded as u64
    } else {
        proof {
            seconds::lemma_powers();
            vstd::arithmetic::power2::lemma_pow2_strictly_increases(64, k as nat);
            let d = pow2(k as nat);
            vstd::arithmetic::div_mod::lemma_small_mod(scaled as nat, d);
            vstd::arithmetic::div_mod::lemma_basic_div(scaled as int, d as int);
        }
        0
    };
    push_decimal(out, n / 1000);
    out.append(".");
    push_digit(out, n / 100 % 10);
    push_digit(out, n / 10 % 10);
    push_digit(out, n % 10);
    assert(out@ =~= old(out)@ + fixed_point(n as nat));
}

/// The number with some digits, that of the lowest place first, in front of
/// which stands another number.
pub open spec fn number_from(places: Seq<u8>, i: int, high: nat) -> nat
    decreases places.len() - i,
{
    if 0 <= i < places.len() {
        places[i] as nat + 10 * number_from(places, i + 1, high)
    } else {
        high
    }
}

/// Whether places hold decimal digits, the highest of them no zero.
spec fn well_placed(places: Seq<u8>) -> bool {
    &&& places.len() > 0
    &&& places.last() > 0
    &&& forall|i: int| 0 <= i < places.len() ==> (#[trigger] places[i]) < 10
}

/// A further place takes over the lowest digit of what stands in front.
proof fn lemma_place(places: Seq<u8>, place: u8, i: int, high: nat)
    requires
        0 <= i <= places.len(),
    ensures
        number_from(places.push(place), i, high) == number_from(
            places,
            i,
            place as nat + 10 * high,
        ),
    decreases places.len() - i,
{
    if i < places.len() {
        lemma_place(places, place, i + 1, high);
    } else {
        reveal_with_fuel(number_from, 2);
    }
}

/// The digits from the highest place down to one.
spec fn text_down_to(places: Seq<u8>, i: int) -> Seq<char>
    decreases places.len() - i,
{
    if 0 <= i < places.len() {
        text_down_to(places, i + 1) + text::digit(places[i] as int)
    } else {
        Seq::empty()
    }
}

/// The digits are those of the number.
proof fn lemma_text(places: Seq<u8>, i: int)
    requires
        well_placed(places),
        0 <= i < places.len(),
    ensures
        number_from(places, i, 0) > 0,
        text_down_to(places, i) == text::digits(number_from(places, i, 0), 10),
    decreases places.len() - i,
{
    let n = number_from(places, i, 0);
    reveal_with_fuel(number_from, 2);
    reveal_with_fuel(text_down_to, 2);
    if i + 1 < places.len() {
        lemma_text(places, i + 1);
        let higher = number_from(places, i + 1, 0);
        assert(places[i] < 10);
        assert(n / 10 == higher && n % 10 == places[i]);
    } else {
        assert(n == places.last());
        assert(text_down_to(places, i) =~= text::digit(n as int));
    }
}

/// The places of a number.
fn places_of(value: u64) -> (places: Vec<u8>)
    requires
        value > 0,
    ensures
        well_placed(places@),
        number_from(places@, 0, 0) == value,
{
    let mut places: Vec<u8> = Vec::new();
    let mut rest: u64 = value;
    while rest >= 10
        invariant
            rest > 0,
            number_from(places@, 0, rest as nat) == value,
            forall|i: int| 0 <= i < places@.len() ==> (#[trigger] places@[i]) < 10,
        decreases rest,
    {
        proof {
            lemma_place(places@, (rest % 10) as u8, 0, (rest / 10) as nat);
        }
        places.push((rest % 10) as u8);
        rest = rest / 10;
    }
    proof {
        lemma_place(places@, rest as u8, 0, 0);
    }
    places.push(rest as u8);
    places
}

/// The places of twice a number.
fn doubled(places: &Vec<u8>) -> (twice: Vec<u8>)
    requires
        well_placed(places@),
    ensures
        well_placed(twice@),
        number_from(twice@, 0, 0) == 2 * number_from(places@, 0, 0),
{
    let mut twice: Vec<u8> = Vec::new();
    let mut carry: u8 = 0;
    let mut i: usize = 0;
    while i < places.len()
        invariant
            i <= places@.len(),
            carry <= 1,
            well_placed(places@),
            twice@.len() == i,
            forall|k: int| 0 <= k < twice@.len() ==> (#[trigger] twice@[k]) < 10,
            2 * number_from(places@, 0, 0) == number_from(
                twice@,
                0,
                2 * number_from(places@, i as int, 0) + carry as nat,
            ),
            i == places@.len() && carry == 0 ==> twice@.last() > 0,
        decreases places@.len() - i,
    {
        assert(places@[i as int] < 10);
        let sum: u8 = 2 * places[i] + carry;
        proof {
            lemma_place(
                twice@,
                (sum % 10) as u8,
                0,
                2 * number_from(places@, i + 1, 0) + (sum / 10) as nat,
            );
        }
        twice.push(sum % 10);
        carry = sum / 10;
        i = i + 1;
    }
    if carry > 0 {
        proof {
            lemma_place(twice@, carry, 0, 0);
        }
        twice.push(carry);
    }
    twice
}

/// Appends a number times a power of two.
fn push_large(out: &mut String, significand: u64, scale: u32)
    requires
        0 < significand,
        scale <= 971,
    ensures
        final(out)@ == old(out)@ + fixed_point(significand as nat * 1000 * pow2(scale as nat)),
{
    let mut places: Vec<u8> = places_of(significand);
    let mut k: u32 = 0;
    proof {
        seconds::lemma_powers();
    }
    while k < scale
        invariant
            k <= scale,
            well_placed(places@),
            number_from(places@, 0, 0) == significand as nat * pow2(k as nat),
        decreases scale - k,
    {
        proof {
            vstd::arithmetic::power2::lemma_pow2_unfold((k + 1) as nat);
            assert(2 * (significand as nat * pow2(k as nat)) == significand as nat * (2 * pow2(
                k as nat,
            ))) by (nonlinear_arith);
        }
        places = doubled(&places);
        k = k + 1;
    }
    let ghost whole = number_from(places@, 0, 0);
    let mut i: usize = places.len();
    assert(out@ =~= old(out)@ + text_down_to(places@, i as int));
    while i > 0
        invariant
            i <= places@.len(),
            well_placed(places@),
            out@ == old(out)@ + text_down_to(places@, i as int),
        decreases i,
    {
        i = i - 1;
        assert(places@[i as int] < 10);
        push_digit(out, places[i] as u64);
        assert(out@ =~= old(out)@ + text_down_to(places@, i as int));
    }
    proof {
        lemma_text(places@, 0);
        let power = pow2(scale as nat);
        assert(significand as nat * 1000 * power == 1000 * whole) by (nonlinear_arith)
            requires
                whole == significand as nat * power,
        ;
    }
    out.append(".");
    push_digit(out, 0);
    push_digit(out, 0);
    push_digit(out, 0);
    assert(out@ =~= old(out)@ + fixed_point(1000 * whole));
}

} // verus!
