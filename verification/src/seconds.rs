//! Times in seconds as IEEE 754 double-precision numbers, computed with
//! integers.

use vstd::prelude::*;
use vstd::arithmetic::power2::pow2;

verus! {

/// The bits of a negative zero, and the least bits of a negative number.
pub const SIGN_BIT: u64 = 0x8000_0000_0000_0000;

/// The bits of positive infinity.
pub const INFINITY_BITS: u64 = 0x7FF0_0000_0000_0000;

/// The bits of a number that is no number.
pub const NAN_BITS: u64 = 0x7FF8_0000_0000_0000;

/// The least significand of a normal number.
pub const HIDDEN_BIT: u64 = 0x10_0000_0000_0000;

/// Ticks per second of the media clock.
pub const TICKS_PER_SECOND: u32 = 90_000;

/// A time in seconds: the bits of a double-precision number.
#[derive(Debug, Clone, Copy, PartialEq, Eq, Hash, Structural)]
pub struct Seconds {
    /// Sign, exponent and fraction, as `f64::to_bits` gives them.
    pub bits: u64,
}

/// `a / d` rounded to the nearest whole number, and to the even one where two
/// are equally near.
pub open spec fn rounded_even(a: nat, d: nat) -> nat {
    let q = a / d;
    let r = a % d;
    if 2 * r > d || (2 * r == d && q % 2 == 1) {
        q + 1
    } else {
        q
    }
}

/// By how many bits a whole number is longer than a significand.
pub open spec fn excess_bits(v: nat) -> nat
    decreases v,
{
    if v < 2 * HIDDEN_BIT {
        0
    } else {
        1 + excess_bits(v / 2)
    }
}

/// A whole number rounded to as many bits as a significand has.
pub open spec fn rounded_significand(v: nat) -> nat {
    rounded_even(v, pow2(excess_bits(v)))
}

/// The bits of `m * 2^x`, where `m` is at most `2^53`; infinity where that is
/// too large.
pub open spec fn encoded(m: nat, x: int) -> int
    decreases (if m < HIDDEN_BIT && x > -1074 { x + 1074 } else { 0 }),
{
    if m < HIDDEN_BIT && x > -1074 && m > 0 {
        encoded(2 * m, x - 1)
    } else if m == 0 {
        0
    } else if (x + 1074) * HIDDEN_BIT + m >= INFINITY_BITS {
        INFINITY_BITS as int
    } else {
        (x + 1074) * HIDDEN_BIT + m
    }
}

/// The bits of the double nearest to `v * 2^x`.
pub open spec fn nearest_scaled(v: nat, x: int) -> int {
    encoded(rounded_significand(v), x + excess_bits(v))
}

/// A fraction of at least one, as a fraction between one and two and the power
/// of two that makes up for it.
pub open spec fn halved_until_normal(num: nat, den: nat, e: int) -> (nat, nat, int)
    decreases num - den,
{
    if den > 0 && num >= 2 * den {
        halved_until_normal(num, 2 * den, e + 1)
    } else {
        (num, den, e)
    }
}

/// A fraction below one, as a fraction between one and two and the power of
/// two that makes up for it.
pub open spec fn doubled_until_normal(num: nat, den: nat, e: int) -> (nat, nat, int)
    decreases (if num < den { den - num } else { 0 }),
{
    if 0 < num < den {
        doubled_until_normal(2 * num, den, e - 1)
    } else {
        (num, den, e)
    }
}

/// A positive fraction as a fraction between one and two and a power of two.
pub open spec fn normal(num: nat, den: nat) -> (nat, nat, int) {
    if num >= den {
        halved_until_normal(num, den, 0)
    } else {
        doubled_until_normal(num, den, 0)
    }
}

/// The bits of the double nearest to `num / den`.
pub open spec fn nearest_ratio(num: nat, den: nat) -> int {
    if num == 0 {
        0
    } else {
        let (n, d, e) = normal(num, den);
        encoded(rounded_even(n * HIDDEN_BIT as nat, d), e - 52)
    }
}

/// A whole number rounded to one that a double can hold.
pub open spec fn rounded_whole(v: nat) -> nat {
    rounded_significand(v) * pow2(excess_bits(v))
}

/// The sign bit of a number, on top of the bits of its magnitude.
pub open spec fn signed_bits(negative: bool, bits: int) -> int {
    if negative {
        SIGN_BIT + bits
    } else {
        bits
    }
}

/// The magnitude of a whole number.
pub open spec fn magnitude_of(value: int) -> nat {
    if value < 0 {
        (-value) as nat
    } else {
        value as nat
    }
}

impl Seconds {
    /// The bits without the sign.
    pub open spec fn magnitude(self) -> int {
        if self.bits >= SIGN_BIT {
            self.bits - SIGN_BIT
        } else {
            self.bits as int
        }
    }

    /// Whether the number of seconds is finite.
    pub open spec fn finite(self) -> bool {
        self.magnitude() < INFINITY_BITS
    }

    /// Whether a finite number of seconds is below zero.
    pub open spec fn negative(self) -> bool {
        self.bits > SIGN_BIT
    }

    /// The significand of a finite time: a whole number.
    pub open spec fn significand(self) -> nat {
        if self.magnitude() < HIDDEN_BIT {
            self.magnitude() as nat
        } else {
            (self.magnitude() % (HIDDEN_BIT as int) + HIDDEN_BIT) as nat
        }
    }

    /// The power of two by which the significand is multiplied.
    pub open spec fn scale(self) -> int {
        if self.magnitude() < HIDDEN_BIT {
            -1074
        } else {
            self.magnitude() / (HIDDEN_BIT as int) - 1075
        }
    }

    /// The time in ticks of a clock, for a finite time that is not negative:
    /// its product with the clock rate as a double, rounded to a whole number
    /// and up where two are equally near.
    pub open spec fn in_ticks_at(self, rate: u32) -> int {
        let product = rounded_whole(self.significand() * rate as nat);
        let ticks = if self.scale() >= 0 {
            product * pow2(self.scale() as nat)
        } else {
            let unit = pow2((-self.scale()) as nat);
            (2 * product + unit) / (2 * unit)
        };
        if ticks > u64::MAX {
            u64::MAX as int
        } else {
            ticks as int
        }
    }

    /// The time in ticks of the media clock.
    pub open spec fn in_ticks(self) -> int {
        self.in_ticks_at(TICKS_PER_SECOND)
    }

    /// The double nearest to a whole number.
    pub open spec fn of_whole(value: int) -> Seconds {
        Seconds {
            bits: signed_bits(value < 0, nearest_scaled(magnitude_of(value), 0)) as u64,
        }
    }

    /// A whole number as a double, divided by another.
    pub open spec fn of_ratio(value: int, per_second: nat) -> Seconds {
        if per_second == 0 {
            Seconds {
                bits: if value == 0 {
                    NAN_BITS
                } else {
                    signed_bits(value < 0, INFINITY_BITS as int) as u64
                },
            }
        } else {
            Seconds {
                bits: signed_bits(
                    value < 0,
                    nearest_ratio(rounded_whole(magnitude_of(value)), per_second),
                ) as u64,
            }
        }
    }

    /// The sum of two times that are not negative.
    pub open spec fn plus(self, other: Seconds) -> Seconds {
        Seconds {
            bits: if self.magnitude() > INFINITY_BITS || other.magnitude() > INFINITY_BITS {
                NAN_BITS
            } else if !self.finite() || !other.finite() {
                INFINITY_BITS
            } else {
                let scale = if self.scale() <= other.scale() {
                    self.scale()
                } else {
                    other.scale()
                };
                nearest_scaled(
                    self.significand() * pow2((self.scale() - scale) as nat) + other.significand()
                        * pow2((other.scale() - scale) as nat),
                    scale,
                ) as u64
            },
        }
    }
}

/// A whole number fits a significand once its excess bits are gone, and no
/// sooner.
pub proof fn excess_bits_are_exact(v: nat)
    ensures
        v < 2 * HIDDEN_BIT * pow2(excess_bits(v)),
        excess_bits(v) > 0 ==> v >= HIDDEN_BIT * pow2(excess_bits(v)),
    decreases v,
{
    lemma_powers();
    if v >= 2 * HIDDEN_BIT {
        let k = excess_bits(v / 2);
        excess_bits_are_exact(v / 2);
        vstd::arithmetic::power2::lemma_pow2_unfold(k + 1);
        let p = pow2(k);
        assert(2 * HIDDEN_BIT * (2 * p) == 2 * (2 * HIDDEN_BIT * p)) by (nonlinear_arith);
        assert(HIDDEN_BIT * (2 * p) == 2 * (HIDDEN_BIT * p)) by (nonlinear_arith);
        if k == 0 {
            assert(p == 1);
        }
    } else {
        assert(excess_bits(v) == 0);
        assert(pow2(0) == 1);
    }
}

/// The rounded quotient is off by at most half a unit.
pub proof fn rounded_even_is_nearest(a: nat, d: nat)
    requires
        d > 0,
    ensures
        2 * (rounded_even(a, d) * d - a) <= d,
        2 * (a - rounded_even(a, d) * d) <= d,
{
    let q = a / d;
    vstd::arithmetic::div_mod::lemma_fundamental_div_mod(a as int, d as int);
    assert(d * q == q * d) by (nonlinear_arith);
    assert((q + 1) * d == q * d + d) by (nonlinear_arith);
}

pub(crate) proof fn lemma_powers()
    ensures
        pow2(0) == 1,
        pow2(11) == 2048,
        pow2(12) == 4096,
        pow2(32) == 0x1_0000_0000,
        pow2(52) == HIDDEN_BIT,
        pow2(53) == 2 * HIDDEN_BIT,
        pow2(64) == 0x1_0000_0000_0000_0000,
        pow2(127) == 0x8000_0000_0000_0000_0000_0000_0000_0000,
        pow2(128) == 0x1_0000_0000_0000_0000_0000_0000_0000_0000,
{
    vstd::arithmetic::power2::lemma2_to64();
    vstd::arithmetic::power2::lemma2_to64_rest();
    vstd::arithmetic::power2::lemma_pow2_adds(63, 64);
    vstd::arithmetic::power2::lemma_pow2_unfold(128);
}

/// `2^k`.
pub(crate) fn power_of_two(k: u32) -> (power: u128)
    requires
        k < 128,
    ensures
        power == pow2(k as nat),
{
    let mut power: u128 = 1;
    let mut i: u32 = 0;
    proof {
        lemma_powers();
    }
    while i < k
        invariant
            i <= k < 128,
            power == pow2(i as nat),
        decreases k - i,
    {
        proof {
            vstd::arithmetic::power2::lemma_pow2_unfold((i + 1) as nat);
            lemma_power_fits((i + 1) as nat);
        }
        power = 2 * power;
        i = i + 1;
    }
    power
}

pub(crate) proof fn lemma_power_fits(k: nat)
    requires
        k < 128,
    ensures
        0 < pow2(k) <= 0x8000_0000_0000_0000_0000_0000_0000_0000,
{
    lemma_powers();
    vstd::arithmetic::power2::lemma_pow2_pos(k);
    if k < 127 {
        vstd::arithmetic::power2::lemma_pow2_strictly_increases(k, 127);
    }
}

/// `a / d`, rounded to the nearest whole number.
pub(crate) fn round_even(a: u128, d: u128) -> (rounded: u128)
    requires
        d > 0,
    ensures
        rounded == rounded_even(a as nat, d as nat),
{
    let q: u128 = a / d;
    let r: u128 = a % d;
    if r > d - r || (r == d - r && q % 2 == 1) {
        assert(q + 1 <= u128::MAX) by (nonlinear_arith)
            requires
                q == a / d,
                r == a % d,
                0 < r < d,
                a <= u128::MAX,
        ;
        q + 1
    } else {
        q
    }
}

/// A whole number rounded to a significand, and the bits that were dropped.
fn round_significand(v: u128) -> (rounded: (u64, u32))
    ensures
        rounded.0 == rounded_significand(v as nat),
        rounded.1 == excess_bits(v as nat),
        rounded.0 <= 2 * HIDDEN_BIT,
        rounded.1 <= 75,
{
    let mut rest: u128 = v;
    let mut dropped: u32 = 0;
    proof {
        lemma_powers();
    }
    while rest >= 2 * HIDDEN_BIT as u128
        invariant
            dropped <= 75,
            rest < pow2((128 - dropped) as nat),
            excess_bits(v as nat) == dropped + excess_bits(rest as nat),
        decreases rest,
    {
        proof {
            lemma_powers();
            vstd::arithmetic::power2::lemma_pow2_unfold((128 - dropped) as nat);
        }
        rest = rest / 2;
        dropped = dropped + 1;
    }
    proof {
        excess_bits_are_exact(v as nat);
    }
    let unit: u128 = power_of_two(dropped);
    let significand: u128 = round_even(v, unit);
    proof {
        lemma_power_fits(dropped as nat);
        assert(v / unit < 2 * HIDDEN_BIT) by (nonlinear_arith)
            requires
                v < 2 * HIDDEN_BIT * unit,
                unit > 0,
        ;
    }
    (significand as u64, dropped)
}

/// The bits of `m * 2^x`.
fn encode(m: u64, x: i32) -> (bits: u64)
    requires
        m <= 2 * HIDDEN_BIT,
        -1074 <= x <= 2000,
    ensures
        bits == encoded(m as nat, x as int),
        bits <= INFINITY_BITS,
        x <= 900 ==> bits < INFINITY_BITS,
{
    if m == 0 {
        return 0;
    }
    let mut significand: u64 = m;
    let mut scale: i32 = x;
    while significand < HIDDEN_BIT && scale > -1074
        invariant
            0 < significand <= 2 * HIDDEN_BIT,
            -1074 <= scale <= 2000,
            scale <= x,
            encoded(m as nat, x as int) == encoded(significand as nat, scale as int),
        decreases scale + 1074,
    {
        significand = 2 * significand;
        scale = scale - 1;
    }
    if scale >= 973 {
        return INFINITY_BITS;
    }
    let bits: u64 = (scale + 1074) as u64 * HIDDEN_BIT + significand;
    if bits >= INFINITY_BITS {
        INFINITY_BITS
    } else {
        bits
    }
}

/// The bits of the double nearest to `num / den`.
fn divide(num: u128, den: u128) -> (bits: u64)
    requires
        num <= 0x1_0000_0000_0000_0000,
        0 < den <= 0x1_0000_0000,
    ensures
        bits == nearest_ratio(num as nat, den as nat),
        bits < INFINITY_BITS,
{
    if num == 0 {
        return 0;
    }
    let mut n: u128 = num;
    let mut d: u128 = den;
    let mut e: i32 = 0;
    proof {
        lemma_powers();
    }
    if num >= den {
        while n >= 2 * d
            invariant
                n == num <= 0x1_0000_0000_0000_0000,
                0 < d <= n,
                0 <= e <= 64,
                d >= pow2(e as nat),
                halved_until_normal(num as nat, den as nat, 0) == halved_until_normal(
                    n as nat,
                    d as nat,
                    e as int,
                ),
            decreases n - d,
        {
            proof {
                lemma_powers();
                vstd::arithmetic::power2::lemma_pow2_unfold((e + 1) as nat);
            }
            d = 2 * d;
            e = e + 1;
        }
    } else {
        while n < d
            invariant
                0 < n < 2 * d,
                d == den <= 0x1_0000_0000,
                -32 <= e <= 0,
                n >= pow2((-e) as nat),
                doubled_until_normal(num as nat, den as nat, 0) == doubled_until_normal(
                    n as nat,
                    d as nat,
                    e as int,
                ),
            decreases (if n < d { d - n } else { 0 }),
        {
            proof {
                lemma_powers();
                vstd::arithmetic::power2::lemma_pow2_unfold((1 - e) as nat);
            }
            n = 2 * n;
            e = e - 1;
        }
    }
    let m: u128 = round_even(n * HIDDEN_BIT as u128, d);
    proof {
        assert((n * HIDDEN_BIT) / d as int <= 2 * HIDDEN_BIT - 1) by (nonlinear_arith)
            requires
                n < 2 * d,
                n > 0,
                d > 0,
        ;
    }
    encode(m as u64, e - 52)
}

/// A whole number rounded to one that a double can hold.
fn round_whole(v: u64) -> (rounded: u128)
    ensures
        rounded == rounded_whole(v as nat),
        rounded <= 0x1_0000_0000_0000_0000,
{
    let (m, k): (u64, u32) = round_significand(v as u128);
    let unit: u128 = power_of_two(k);
    proof {
        excess_bits_are_exact(v as nat);
        lemma_rounded_whole_fits(v);
    }
    m as u128 * unit
}

proof fn lemma_rounded_whole_fits(v: u64)
    ensures
        rounded_whole(v as nat) <= 0x1_0000_0000_0000_0000,
{
    let k = excess_bits(v as nat);
    let unit = pow2(k);
    lemma_powers();
    excess_bits_are_exact(v as nat);
    vstd::arithmetic::power2::lemma_pow2_pos(k);
    if k > 11 {
        if k > 12 {
            vstd::arithmetic::power2::lemma_pow2_strictly_increases(12, k);
        }
        assert(HIDDEN_BIT * unit >= HIDDEN_BIT * 4096) by (nonlinear_arith)
            requires
                unit >= 4096,
        ;
        vstd::arithmetic::power2::lemma_pow2_unfold(k);
    }
    let q = (v as nat) / unit;
    assert(q < 2 * HIDDEN_BIT) by (nonlinear_arith)
        requires
            v < 2 * HIDDEN_BIT * unit,
            unit > 0,
            q == (v as nat) / unit,
    ;
    let m = rounded_significand(v as nat);
    assert(m <= 2 * HIDDEN_BIT);
    if k < 11 {
        vstd::arithmetic::power2::lemma_pow2_strictly_increases(k, 11);
    }
    assert(unit <= 2048);
    assert(m * unit <= 2 * HIDDEN_BIT * 2048) by (nonlinear_arith)
        requires
            m <= 2 * HIDDEN_BIT,
            unit <= 2048,
    ;
}

/// The magnitude of a whole number.
fn unsigned_value(value: i64) -> (magnitude: u64)
    ensures
        magnitude == magnitude_of(value as int),
{
    if value < 0 {
        (-(value + 1)) as u64 + 1
    } else {
        value as u64
    }
}

/// A sum in which one time has no bits that reach the other rounds to the
/// larger time.
proof fn lemma_far_sum(large: nat, small: nat, distance: nat)
    requires
        HIDDEN_BIT <= large < 2 * HIDDEN_BIT,
        2 * small < pow2(distance),
    ensures
        excess_bits(large * pow2(distance) + small) == distance,
        rounded_significand(large * pow2(distance) + small) == large,
{
    lemma_far_excess(large, small, distance);
    let unit = pow2(distance);
    let total = large * unit + small;
    vstd::arithmetic::power2::lemma_pow2_pos(distance);
    vstd::arithmetic::div_mod::lemma_fundamental_div_mod_converse(
        total as int,
        unit as int,
        large as int,
        small as int,
    );
}

proof fn lemma_far_excess(large: nat, small: nat, distance: nat)
    requires
        HIDDEN_BIT <= large < 2 * HIDDEN_BIT,
        small < pow2(distance),
    ensures
        excess_bits(large * pow2(distance) + small) == distance,
    decreases distance,
{
    lemma_powers();
    vstd::arithmetic::power2::lemma_pow2_pos(if distance > 0 { (distance - 1) as nat } else { 0 });
    if distance > 0 {
        let half = pow2((distance - 1) as nat);
        vstd::arithmetic::power2::lemma_pow2_unfold(distance);
        assert(large * (2 * half) == 2 * (large * half)) by (nonlinear_arith);
        let total = large * pow2(distance) + small;
        assert(total / 2 == large * half + small / 2);
        assert(large * half >= HIDDEN_BIT) by (nonlinear_arith)
            requires
                large >= HIDDEN_BIT,
                half >= 1,
        ;
        lemma_far_excess(large, small / 2, (distance - 1) as nat);
        assert(excess_bits(total) == 1 + excess_bits(total / 2));
    } else {
        assert(large * pow2(0) + small == large);
    }
}

impl Seconds {
    /// Whether the number of seconds is finite.
    pub fn is_finite(&self) -> (yes: bool)
        ensures
            yes == self.finite(),
    {
        self.unsigned() < INFINITY_BITS
    }

    /// Whether a finite number of seconds is below zero.
    pub fn is_negative(&self) -> (yes: bool)
        ensures
            yes == self.negative(),
    {
        self.bits > SIGN_BIT
    }

    /// Whether this time, finite and not negative, comes before another such
    /// time. Positive numbers are ordered as their bits are.
    pub fn is_before(&self, other: &Seconds) -> (yes: bool)
        ensures
            yes == (self.magnitude() < other.magnitude()),
    {
        self.unsigned() < other.unsigned()
    }

    fn unsigned(&self) -> (magnitude: u64)
        ensures
            magnitude == self.magnitude(),
    {
        if self.bits >= SIGN_BIT {
            self.bits - SIGN_BIT
        } else {
            self.bits
        }
    }

    /// Significand and scale.
    pub(crate) fn parts(&self) -> (parts: (u64, i32))
        requires
            self.finite(),
        ensures
            parts.0 == self.significand(),
            parts.1 == self.scale(),
            parts.0 < 2 * HIDDEN_BIT,
            -1074 <= parts.1 <= 971,
            parts.1 > -1074 ==> parts.0 >= HIDDEN_BIT,
    {
        let magnitude: u64 = self.unsigned();
        if magnitude < HIDDEN_BIT {
            (magnitude, -1074)
        } else {
            (magnitude % HIDDEN_BIT + HIDDEN_BIT, (magnitude / HIDDEN_BIT) as i32 - 1075)
        }
    }

    /// The time in ticks of the media clock.
    pub fn ticks(&self) -> (ticks: u64)
        requires
            self.finite(),
            !self.negative(),
        ensures
            ticks == self.in_ticks(),
    {
        self.ticks_at(TICKS_PER_SECOND)
    }

    /// The time in ticks of a clock.
    pub fn ticks_at(&self, rate: u32) -> (ticks: u64)
        requires
            self.finite(),
            !self.negative(),
            rate <= 0x2_0000,
        ensures
            ticks == self.in_ticks_at(rate),
    {
        let (significand, scale): (u64, i32) = self.parts();
        assert(significand * rate <= 2 * HIDDEN_BIT * 0x2_0000) by (nonlinear_arith)
            requires
                significand <= 2 * HIDDEN_BIT,
                rate <= 0x2_0000,
        ;
        let (m, k): (u64, u32) = round_significand(significand as u128 * rate as u128);
        let unit: u128 = power_of_two(k);
        proof {
            lemma_product_fits(significand, rate);
        }
        let product: u128 = m as u128 * unit;
        if scale >= 0 {
            shift_up(product, scale as u32)
        } else {
            shift_down(product, (-scale) as u32)
        }
    }

    /// The double nearest to a whole number.
    pub fn from_whole(value: i64) -> (time: Seconds)
        ensures
            time == Seconds::of_whole(value as int),
    {
        let magnitude: u64 = unsigned_value(value);
        let (m, k): (u64, u32) = round_significand(magnitude as u128);
        let bits: u64 = encode(m, k as i32);
        if value < 0 {
            Seconds { bits: SIGN_BIT + bits }
        } else {
            Seconds { bits }
        }
    }

    /// A whole number as a double, divided by another.
    pub fn from_ratio(value: i64, per_second: u32) -> (time: Seconds)
        ensures
            time == Seconds::of_ratio(value as int, per_second as nat),
    {
        let time: Seconds = Seconds::from_count(unsigned_value(value), per_second);
        if value < 0 {
            Seconds { bits: SIGN_BIT + time.bits }
        } else {
            time
        }
    }

    /// A count as a double, divided by another.
    pub fn from_count(count: u64, per_second: u32) -> (time: Seconds)
        ensures
            time == Seconds::of_ratio(count as int, per_second as nat),
            time.bits < SIGN_BIT,
            per_second > 0 ==> time.finite() && time.bits == nearest_ratio(
                rounded_whole(count as nat),
                per_second as nat,
            ),
    {
        let bits: u64 = if per_second != 0 {
            divide(round_whole(count), per_second as u128)
        } else if count == 0 {
            NAN_BITS
        } else {
            INFINITY_BITS
        };
        Seconds { bits }
    }

    /// The time after a number of ticks of the media clock.
    pub fn from_ticks(ticks: u64) -> (time: Seconds)
        ensures
            time == Seconds::of_ratio(ticks as int, TICKS_PER_SECOND as nat),
            time.finite(),
            !time.negative(),
    {
        Seconds::from_count(ticks, TICKS_PER_SECOND)
    }

    /// The sum of two times that are not negative.
    pub fn later_by(&self, other: &Seconds) -> (sum: Seconds)
        ensures
            sum == self.plus(*other),
    {
        if self.unsigned() > INFINITY_BITS || other.unsigned() > INFINITY_BITS {
            return Seconds { bits: NAN_BITS };
        }
        if !self.is_finite() || !other.is_finite() {
            return Seconds { bits: INFINITY_BITS };
        }
        let (mine, my_scale): (u64, i32) = self.parts();
        let (theirs, their_scale): (u64, i32) = other.parts();
        if my_scale >= their_scale {
            Seconds { bits: add_scaled(mine, my_scale, theirs, their_scale) }
        } else {
            let bits: u64 = add_scaled(theirs, their_scale, mine, my_scale);
            Seconds { bits }
        }
    }
}

/// The bits of the double nearest to `large * 2^high + small * 2^low`.
fn add_scaled(large: u64, high: i32, small: u64, low: i32) -> (bits: u64)
    requires
        -1074 <= low <= high <= 971,
        large < 2 * HIDDEN_BIT,
        small < 2 * HIDDEN_BIT,
        high > -1074 ==> large >= HIDDEN_BIT,
    ensures
        bits == nearest_scaled(
            large as nat * pow2((high - low) as nat) + small as nat * pow2(0),
            low as int,
        ),
{
    let distance: u32 = (high - low) as u32;
    proof {
        lemma_powers();
    }
    if distance <= 64 {
        let unit: u128 = power_of_two(distance);
        proof {
            if distance < 64 {
                vstd::arithmetic::power2::lemma_pow2_strictly_increases(distance as nat, 64);
            }
            assert(large as nat * unit <= 2 * HIDDEN_BIT * 0x1_0000_0000_0000_0000)
                by (nonlinear_arith)
                requires
                    large < 2 * HIDDEN_BIT,
                    unit <= 0x1_0000_0000_0000_0000,
            ;
        }
        let (m, k): (u64, u32) = round_significand(large as u128 * unit + small as u128);
        encode(m, low + k as i32)
    } else {
        proof {
            vstd::arithmetic::power2::lemma_pow2_strictly_increases(64, distance as nat);
            lemma_far_sum(large as nat, small as nat, distance as nat);
        }
        encode(large, high)
    }
}

proof fn lemma_product_fits(significand: u64, rate: u32)
    requires
        significand < 2 * HIDDEN_BIT,
        rate <= 0x2_0000,
    ensures
        rounded_whole(significand as nat * rate as nat) <= 0x80_0000_0000_0000_0000,
{
    let v = significand as nat * rate as nat;
    assert(v < 2 * HIDDEN_BIT * 0x2_0000) by (nonlinear_arith)
        requires
            significand < 2 * HIDDEN_BIT,
            rate <= 0x2_0000,
            v == significand as nat * rate as nat,
    ;
    let k = excess_bits(v);
    let unit = pow2(k);
    lemma_powers();
    vstd::arithmetic::power2::lemma2_to64();
    excess_bits_are_exact(v);
    vstd::arithmetic::power2::lemma_pow2_pos(k);
    if k > 17 {
        if k > 18 {
            vstd::arithmetic::power2::lemma_pow2_strictly_increases(18, k);
        }
        assert(HIDDEN_BIT * unit >= HIDDEN_BIT * 0x40000) by (nonlinear_arith)
            requires
                unit >= 0x40000,
        ;
    }
    let q = v / unit;
    assert(q < 2 * HIDDEN_BIT) by (nonlinear_arith)
        requires
            v < 2 * HIDDEN_BIT * unit,
            unit > 0,
            q == v / unit,
    ;
    let m = rounded_significand(v);
    if k < 17 {
        vstd::arithmetic::power2::lemma_pow2_strictly_increases(k, 17);
    }
    assert(m * unit <= 2 * HIDDEN_BIT * 0x20000) by (nonlinear_arith)
        requires
            m <= 2 * HIDDEN_BIT,
            unit <= 0x20000,
    ;
}

/// `product * 2^scale`, or the largest number of ticks.
fn shift_up(product: u128, scale: u32) -> (ticks: u64)
    requires
        product <= 0x80_0000_0000_0000_0000,
    ensures
        ({
            let exact = product * pow2(scale as nat);
            ticks == if exact > u64::MAX {
                u64::MAX as int
            } else {
                exact
            }
        }),
{
    proof {
        lemma_powers();
    }
    if product == 0 {
        assert(0 * pow2(scale as nat) == 0);
        return 0;
    }
    if scale >= 64 {
        proof {
            if scale > 64 {
                vstd::arithmetic::power2::lemma_pow2_strictly_increases(64, scale as nat);
            }
            assert(product * pow2(scale as nat) >= 0x1_0000_0000_0000_0000) by (nonlinear_arith)
                requires
                    product >= 1,
                    pow2(scale as nat) >= 0x1_0000_0000_0000_0000,
            ;
        }
        return u64::MAX;
    }
    if product > u64::MAX as u128 {
        proof {
            vstd::arithmetic::power2::lemma_pow2_pos(scale as nat);
            assert(product * pow2(scale as nat) >= product) by (nonlinear_arith)
                requires
                    pow2(scale as nat) >= 1,
                    product >= 0,
            ;
        }
        return u64::MAX;
    }
    let unit: u128 = power_of_two(scale);
    proof {
        vstd::arithmetic::power2::lemma_pow2_strictly_increases(scale as nat, 64);
        assert(product * unit <= u64::MAX * 0x1_0000_0000_0000_0000) by (nonlinear_arith)
            requires
                product <= u64::MAX,
                unit <= 0x1_0000_0000_0000_0000,
        ;
    }
    let exact: u128 = product * unit;
    if exact > u64::MAX as u128 {
        u64::MAX
    } else {
        exact as u64
    }
}

/// `product / 2^scale`, rounded, or the largest number of ticks.
fn shift_down(product: u128, scale: u32) -> (ticks: u64)
    requires
        product <= 0x80_0000_0000_0000_0000,
        scale > 0,
    ensures
        ({
            let unit = pow2(scale as nat);
            let exact = (2 * product + unit) / (2 * unit) as int;
            ticks == if exact > u64::MAX {
                u64::MAX as int
            } else {
                exact
            }
        }),
{
    proof {
        lemma_powers();
    }
    if scale >= 100 {
        proof {
            vstd::arithmetic::power2::lemma2_to64();
            vstd::arithmetic::power2::lemma_pow2_adds(64, 16);
            vstd::arithmetic::power2::lemma_pow2_strictly_increases(80, scale as nat);
            let unit = pow2(scale as nat);
            vstd::arithmetic::div_mod::lemma_fundamental_div_mod_converse(
                2 * product + unit,
                (2 * unit) as int,
                0,
                2 * product + unit,
            );
        }
        return 0;
    }
    let unit: u128 = power_of_two(scale);
    proof {
        lemma_power_fits(scale as nat);
        vstd::arithmetic::power2::lemma_pow2_strictly_increases(scale as nat, 127);
        vstd::arithmetic::power2::lemma_pow2_strictly_increases(scale as nat, 126);
        vstd::arithmetic::power2::lemma_pow2_unfold(127);
    }
    let exact: u128 = (2 * product + unit) / (2 * unit);
    if exact > u64::MAX as u128 {
        u64::MAX
    } else {
        exact as u64
    }
}

/// Halving a fraction of at least one keeps its value.
proof fn lemma_halved(num: nat, den: nat, k: nat)
    requires
        0 < den <= num,
    ensures
        ({
            let (n, d, e) = halved_until_normal(num, den, k as int);
            &&& e >= k
            &&& n == num
            &&& d == den * pow2((e - k) as nat)
            &&& d <= n < 2 * d
        }),
    decreases num - den,
{
    lemma_powers();
    let (n, d, e) = halved_until_normal(num, den, k as int);
    if num >= 2 * den {
        lemma_halved(num, 2 * den, k + 1);
        vstd::arithmetic::power2::lemma_pow2_unfold((e - k) as nat);
        let p = pow2((e - k - 1) as nat);
        assert(2 * den * p == den * (2 * p)) by (nonlinear_arith);
    } else {
        assert(den * pow2(0) == den);
    }
}

/// Doubling a fraction below one keeps its value.
proof fn lemma_doubled(num: nat, den: nat, k: nat)
    requires
        0 < num < 2 * den,
    ensures
        ({
            let (n, d, e) = doubled_until_normal(num, den, -(k as int));
            &&& -e >= k
            &&& d == den
            &&& n == num * pow2((-e - k) as nat)
            &&& d <= n < 2 * d
        }),
    decreases (if num < den { den - num } else { 0 }),
{
    lemma_powers();
    let (n, d, e) = doubled_until_normal(num, den, -(k as int));
    if num < den {
        lemma_doubled(2 * num, den, k + 1);
        vstd::arithmetic::power2::lemma_pow2_unfold((-e - k) as nat);
        let p = pow2((-e - k - 1) as nat);
        assert(2 * num * p == num * (2 * p)) by (nonlinear_arith);
    } else {
        assert(num * pow2(0) == num);
    }
}

/// The quotient of a tick count and the clock rate, as a significand of the
/// full length and a power of two: no further from the count than half the
/// rate, once multiplied by it.
proof fn lemma_quotient(ticks: nat) -> (parts: (nat, nat))
    requires
        0 < ticks < 0x4_0000_0000_0000,
    ensures
        ({
            let (m, k) = parts;
            let unit = pow2(k);
            &&& 18 <= k < 70
            &&& nearest_ratio(ticks, TICKS_PER_SECOND as nat) == encoded(m, -(k as int))
            &&& HIDDEN_BIT <= m <= 2 * HIDDEN_BIT
            &&& 2 * (m * TICKS_PER_SECOND - ticks * unit) <= TICKS_PER_SECOND
            &&& 2 * (ticks * unit - m * TICKS_PER_SECOND) <= TICKS_PER_SECOND
        }),
{
    lemma_powers();
    vstd::arithmetic::power2::lemma2_to64();
    vstd::arithmetic::power2::lemma2_to64_rest();
    let rate: nat = TICKS_PER_SECOND as nat;
    let hidden: nat = HIDDEN_BIT as nat;
    let (n, d, e) = normal(ticks, rate);
    let m = rounded_even(n * hidden, d);
    let k = (52 - e) as nat;
    let unit = pow2(k);
    if ticks >= rate {
        lemma_halved(ticks, rate, 0);
        let p = pow2(e as nat);
        vstd::arithmetic::power2::lemma_pow2_pos(e as nat);
        if e >= 34 {
            if e > 34 {
                vstd::arithmetic::power2::lemma_pow2_strictly_increases(34, e as nat);
            }
            assert(rate * p >= 0x1_0000 * 0x4_0000_0000) by (nonlinear_arith)
                requires
                    rate >= 0x1_0000,
                    p >= 0x4_0000_0000,
            ;
        }
        assert(p * unit == hidden) by {
            vstd::arithmetic::power2::lemma_pow2_adds(e as nat, k);
        }
        rounded_even_is_nearest(n * hidden, d);
        assert(m * (rate * p) == (m * rate) * p) by (nonlinear_arith);
        assert(ticks * (p * unit) == (ticks * unit) * p) by (nonlinear_arith);
        assert(2 * (m * rate - ticks * unit) <= rate && 2 * (ticks * unit - m * rate) <= rate)
            by (nonlinear_arith)
            requires
                2 * ((m * rate) * p - (ticks * unit) * p) <= rate * p,
                2 * ((ticks * unit) * p - (m * rate) * p) <= rate * p,
                p > 0,
        ;
    } else {
        lemma_doubled(ticks, rate, 0);
        let p = pow2((-e) as nat);
        vstd::arithmetic::power2::lemma_pow2_pos((-e) as nat);
        if -e >= 18 {
            if -e > 18 {
                vstd::arithmetic::power2::lemma_pow2_strictly_increases(18, (-e) as nat);
            }
            assert(ticks * p >= 0x4_0000) by (nonlinear_arith)
                requires
                    ticks >= 1,
                    p >= 0x4_0000,
            ;
        }
        assert(p * hidden == unit) by {
            vstd::arithmetic::power2::lemma_pow2_adds((-e) as nat, 52);
        }
        rounded_even_is_nearest(n * hidden, d);
        assert((ticks * p) * hidden == ticks * (p * hidden)) by (nonlinear_arith);
    }
    let q = (n * hidden) / d;
    assert(hidden <= q < 2 * hidden) by (nonlinear_arith)
        requires
            q == (n * hidden) / d,
            0 < d <= n < 2 * d,
            hidden > 0,
    ;
    (m, k)
}

/// The parts of an encoded number of full length are the number again.
proof fn lemma_encoded_parts(m: nat, k: nat) -> (parts: (nat, nat))
    requires
        HIDDEN_BIT <= m <= 2 * HIDDEN_BIT,
        18 <= k < 70,
    ensures
        ({
            let time = Seconds { bits: encoded(m, -(k as int)) as u64 };
            let (s, y) = parts;
            &&& 0 <= encoded(m, -(k as int)) < INFINITY_BITS
            &&& time.finite() && !time.negative()
            &&& time.significand() == s && time.scale() == -(y as int)
            &&& HIDDEN_BIT <= s < 2 * HIDDEN_BIT
            &&& 0 < y
            &&& (m == s && y == k || m == 2 * s && y + 1 == k)
        }),
{
    let x = -(k as int);
    let bits = (x + 1074) * HIDDEN_BIT + m;
    assert(bits == encoded(m, x));
    let time = Seconds { bits: bits as u64 };
    if m < 2 * HIDDEN_BIT {
        vstd::arithmetic::div_mod::lemma_fundamental_div_mod_converse(
            bits,
            HIDDEN_BIT as int,
            x + 1075,
            m - HIDDEN_BIT,
        );
        (m, k)
    } else {
        vstd::arithmetic::div_mod::lemma_fundamental_div_mod_converse(
            bits,
            HIDDEN_BIT as int,
            x + 1076,
            0,
        );
        (HIDDEN_BIT as nat, (k - 1) as nat)
    }
}

/// A time on the media clock survives its way through seconds: counted in
/// ticks, it is the same again. The clock runs for almost four centuries
/// before its ticks are too many.
pub proof fn ticks_survive_seconds(ticks: nat)
    requires
        ticks < 0x4_0000_0000_0000,
    ensures
        ({
            let time = Seconds::of_ratio(ticks as int, TICKS_PER_SECOND as nat);
            time.finite() && !time.negative() && time.in_ticks() == ticks
        }),
{
    let rate: nat = TICKS_PER_SECOND as nat;
    let time = Seconds::of_ratio(ticks as int, rate);
    lemma_powers();
    assert(excess_bits(ticks) == 0);
    assert(rounded_significand(ticks) == ticks);
    assert(ticks * 1 == ticks);
    assert(rounded_whole(ticks) == ticks);
    if ticks == 0 {
        assert(time.significand() * rate == 0) by (nonlinear_arith)
            requires
                time.significand() == 0,
        ;
        assert(excess_bits(0) == 0);
        assert(rounded_whole(0) == 0);
        vstd::arithmetic::power2::lemma_pow2_pos(1074);
        let unit = pow2(1074);
        assert(unit / (2 * unit) == 0) by (nonlinear_arith)
            requires
                unit > 0,
        ;
        assert((2 * 0nat + unit) / (2 * unit) == 0);
    } else {
        let (m, k) = lemma_quotient(ticks);
        let (s, y) = lemma_encoded_parts(m, k);
        let unit = pow2(y);
        vstd::arithmetic::power2::lemma_pow2_pos(y);
        if m == 2 * s {
            vstd::arithmetic::power2::lemma_pow2_unfold(k);
            assert(ticks * (2 * unit) == 2 * (ticks * unit)) by (nonlinear_arith);
            assert((2 * s) * rate == 2 * (s * rate)) by (nonlinear_arith);
        }
        let exact = s * rate;
        let dropped = excess_bits(exact);
        let ulp = pow2(dropped);
        let product = rounded_whole(exact);
        excess_bits_are_exact(exact);
        vstd::arithmetic::power2::lemma_pow2_pos(dropped);
        rounded_even_is_nearest(exact, ulp);
        assert(exact >= HIDDEN_BIT * rate) by (nonlinear_arith)
            requires
                exact == s * rate,
                s >= HIDDEN_BIT,
        ;
        assert(dropped > 0);
        let target = ticks * unit;
        assert(3 * rate < unit) by (nonlinear_arith)
            requires
                target == ticks * unit,
                ticks < 0x4_0000_0000_0000,
                2 * (exact - target) <= rate,
                exact >= HIDDEN_BIT * rate,
                rate == 90_000,
                unit > 0,
        ;
        assert(3 * ulp < unit) by (nonlinear_arith)
            requires
                exact >= HIDDEN_BIT * ulp,
                2 * (exact - target) <= rate,
                target == ticks * unit,
                ticks < 0x4_0000_0000_0000,
                3 * rate < unit,
                unit > 0,
        ;
        assert(2 * (product - target) < unit && 2 * (target - product) < unit);
        assert(2 * product + unit == ticks * (2 * unit) + (2 * (product - target) + unit))
            by (nonlinear_arith)
            requires
                target == ticks * unit,
        ;
        vstd::arithmetic::div_mod::lemma_fundamental_div_mod_converse(
            (2 * product + unit) as int,
            (2 * unit) as int,
            ticks as int,
            2 * (product - target) + unit,
        );
    }
}

/// The bits of a time are a sign, eleven bits of exponent and 52 of fraction.
/// An exponent above 0 puts a one in front of the fraction and counts from
/// -1075; 0 counts as 1 without it.
pub proof fn bits_are_exponent_and_fraction(exponent: u64, fraction: u64, minus: bool)
    requires
        exponent < 2047,
        fraction < 0x10_0000_0000_0000,
    ensures
        ({
            let time = Seconds {
                bits: (exponent * 0x10_0000_0000_0000 + fraction + (if minus {
                    0x8000_0000_0000_0000int
                } else {
                    0int
                })) as u64,
            };
            &&& time.finite()
            &&& exponent > 0 ==> time.significand() == 0x10_0000_0000_0000 + fraction
                && time.scale() == exponent - 1075
            &&& exponent == 0 ==> time.significand() == fraction && time.scale() == -1074
            &&& time.negative() <==> minus && (exponent > 0 || fraction > 0)
        }),
{
    let bits = exponent * 0x10_0000_0000_0000 + fraction;
    assert(exponent > 0 ==> bits / 0x10_0000_0000_0000 == exponent);
    assert(bits % 0x10_0000_0000_0000 == fraction);
}

/// A quotient halfway between two whole numbers is rounded to the even one.
pub proof fn halves_are_rounded_to_even(a: nat, d: nat)
    requires
        d > 0,
        2 * (a % d) == d,
    ensures
        rounded_even(a, d) % 2 == 0,
        rounded_even(a, d) == a / d || rounded_even(a, d) == a / d + 1,
{
}

/// A number that fits a significand is stored as it is: what is read back is
/// the number doubled some times and a scale that is lower by as much, or, where
/// the number is one bit too long, half of it at a scale one higher.
pub proof fn stored_numbers_are_read_back(m: nat, x: int) -> (k: nat)
    requires
        0 < m <= 2 * HIDDEN_BIT,
        -1074 <= x,
        (x + 1074) * HIDDEN_BIT + m < INFINITY_BITS,
    ensures
        ({
            let time = Seconds { bits: encoded(m, x) as u64 };
            &&& time.finite() && !time.negative()
            &&& (time.significand() == m * pow2(k) && time.scale() == x - k) || (2
                * time.significand() == m && time.scale() == x + 1)
        }),
    decreases x + 1074,
{
    lemma_powers();
    if m < HIDDEN_BIT && x > -1074 {
        let k = stored_numbers_are_read_back(2 * m, x - 1);
        vstd::arithmetic::power2::lemma_pow2_unfold(k + 1);
        let p = pow2(k);
        assert(2 * m * p == m * (2 * p)) by (nonlinear_arith);
        assert(encoded(m, x) == encoded(2 * m, x - 1));
        assert(m * pow2(0) == m);
        let time = Seconds { bits: encoded(m, x) as u64 };
        if time.significand() == 2 * m * p && time.scale() == x - 1 - k {
            k + 1
        } else {
            0
        }
    } else {
        let bits = (x + 1074) * HIDDEN_BIT + m;
        assert(m * pow2(0) == m);
        assert(encoded(m, x) == bits);
        if m >= 2 * HIDDEN_BIT {
            assert(bits == (x + 1076) * HIDDEN_BIT);
            assert(bits / (HIDDEN_BIT as int) == x + 1076);
            assert(bits % (HIDDEN_BIT as int) == 0);
        } else if m >= HIDDEN_BIT {
            let f = m - HIDDEN_BIT;
            assert(bits == (x + 1075) * HIDDEN_BIT + f);
            assert(bits / (HIDDEN_BIT as int) == x + 1075);
            assert(bits % (HIDDEN_BIT as int) == f);
        }
        0
    }
}

/// A quotient is stored as the nearest significand of full length at its
/// scale: once multiplied by the divisor it is no further from the dividend
/// than half of what one unit of it is worth.
pub proof fn quotients_are_nearest(num: nat, den: nat) -> (parts: (nat, int))
    requires
        0 < num,
        0 < den,
    ensures
        HIDDEN_BIT <= parts.0 <= 2 * HIDDEN_BIT,
        nearest_ratio(num, den) == encoded(parts.0, parts.1),
        parts.1 >= 0 ==> {
            let unit = pow2(parts.1 as nat) * den;
            2 * (parts.0 * unit - num) <= unit && 2 * (num - parts.0 * unit) <= unit
        },
        parts.1 < 0 ==> {
            let whole = num * pow2((-parts.1) as nat);
            2 * (parts.0 * den - whole) <= den && 2 * (whole - parts.0 * den) <= den
        },
{
    lemma_powers();
    let (n, d, e) = normal(num, den);
    let h = HIDDEN_BIT as nat;
    let x = e - 52;
    if num >= den {
        lemma_halved(num, den, 0);
    } else {
        lemma_doubled(num, den, 0);
        assert(num * pow2(0) == num);
        assert(e < 0);
    }
    assert(0 < d <= n < 2 * d);
    let m = rounded_even(n * h, d);
    rounded_even_is_nearest(n * h, d);
    assert(h * d <= n * h < 2 * h * d) by (nonlinear_arith)
        requires
            d <= n < 2 * d,
            h > 0,
    ;
    assert(h <= m <= 2 * h) by {
        let q = (n * h) / d;
        assert(h <= q < 2 * h) by (nonlinear_arith)
            requires
                q == (n * h) / d,
                h * d <= n * h < 2 * h * d,
                d > 0,
        ;
    }
    if e >= 0 {
        let pe = pow2(e as nat);
        vstd::arithmetic::power2::lemma_pow2_pos(e as nat);
        assert(n == num && d == den * pe);
        if x >= 0 {
            let px = pow2(x as nat);
            vstd::arithmetic::power2::lemma_pow2_pos(x as nat);
            vstd::arithmetic::power2::lemma_pow2_adds(x as nat, 52);
            let unit = px * den;
            assert(d == unit * h) by (nonlinear_arith)
                requires
                    d == den * pe,
                    pe == px * h,
                    unit == px * den,
            ;
            assert(2 * (m * unit - num) <= unit && 2 * (num - m * unit) <= unit)
                by (nonlinear_arith)
                requires
                    d == unit * h,
                    2 * (m * d - num * h) <= d,
                    2 * (num * h - m * d) <= d,
                    h > 0,
            ;
        } else {
            let y = pow2((-x) as nat);
            vstd::arithmetic::power2::lemma_pow2_adds(e as nat, (-x) as nat);
            let whole = num * y;
            assert(2 * (m * den - whole) <= den && 2 * (whole - m * den) <= den)
                by (nonlinear_arith)
                requires
                    d == den * pe,
                    h == pe * y,
                    whole == num * y,
                    2 * (m * d - num * h) <= d,
                    2 * (num * h - m * d) <= d,
                    pe > 0,
            ;
        }
    } else {
        let pe = pow2((-e) as nat);
        let y = pow2((-x) as nat);
        vstd::arithmetic::power2::lemma_pow2_adds((-e) as nat, 52);
        assert(n == num * pe && d == den);
        assert(n * h == num * y) by (nonlinear_arith)
            requires
                n == num * pe,
                y == pe * h,
        ;
    }
    (m, x)
}

/// A time in ticks: the significand times the rate, rounded to 53 bits, and
/// then, below a scale of 0, to the nearest whole number of ticks, halves up.
/// Counts beyond 64 bits become the largest that fits.
pub proof fn ticks_are_nearest(time: Seconds, rate: u32)
    requires
        time.finite(),
    ensures
        ({
            let exact = time.significand() * rate as nat;
            let product = rounded_whole(exact);
            let ulp = pow2(excess_bits(exact));
            let ticks = time.in_ticks_at(rate);
            &&& 2 * (product - exact) <= ulp && 2 * (exact - product) <= ulp
            &&& exact < 0x20_0000_0000_0000 ==> product == exact
            &&& time.scale() < 0 && ticks < u64::MAX ==> {
                let unit = pow2((-time.scale()) as nat);
                -unit < 2 * (ticks * unit - product) <= unit
            }
            &&& time.scale() >= 0 && ticks < u64::MAX ==> ticks == product * pow2(
                time.scale() as nat,
            )
            &&& 0 <= ticks <= u64::MAX
        }),
{
    lemma_powers();
    let exact = time.significand() * rate as nat;
    let product = rounded_whole(exact);
    let ulp = pow2(excess_bits(exact));
    vstd::arithmetic::power2::lemma_pow2_pos(excess_bits(exact));
    rounded_even_is_nearest(exact, ulp);
    if exact < 0x20_0000_0000_0000 {
        assert(excess_bits(exact) == 0);
        assert(exact / 1 == exact && exact % 1 == 0);
        assert(exact * 1 == exact);
    }
    if time.scale() < 0 {
        let unit = pow2((-time.scale()) as nat);
        vstd::arithmetic::power2::lemma_pow2_pos((-time.scale()) as nat);
        let t = (2 * product + unit) / (2 * unit);
        assert(-unit < 2 * (t * unit - product) <= unit) by (nonlinear_arith)
            requires
                t == (2 * product + unit) / (2 * unit),
                unit > 0,
        ;
    } else {
        vstd::arithmetic::power2::lemma_pow2_pos(time.scale() as nat);
        let p = pow2(time.scale() as nat);
        assert(product * p >= 0) by (nonlinear_arith);
    }
}

/// Two times add up exactly where their sum, at the lower of the two scales,
/// fits a significand; and the order of the two makes no difference.
pub proof fn short_sums_are_exact(a: Seconds, b: Seconds) -> (k: nat)
    requires
        a.finite(),
        b.finite(),
        a.scale() <= b.scale(),
        0 < a.significand() + b.significand() * pow2((b.scale() - a.scale()) as nat) < 2
            * HIDDEN_BIT,
        a.scale() < 971,
    ensures
        ({
            let sum = a.significand() + b.significand() * pow2((b.scale() - a.scale()) as nat);
            &&& a.plus(b).finite() && !a.plus(b).negative()
            &&& a.plus(b).significand() == sum * pow2(k)
            &&& a.plus(b).scale() == a.scale() - k
            &&& a.plus(b) == b.plus(a)
        }),
{
    lemma_powers();
    let sum = a.significand() + b.significand() * pow2((b.scale() - a.scale()) as nat);
    assert(excess_bits(sum) == 0);
    assert(sum / 1 == sum && sum % 1 == 0);
    assert(rounded_significand(sum) == sum);
    assert(a.significand() * 1 == a.significand());
    assert(b.significand() * 1 == b.significand());
    assert(a.scale() >= -1074);
    let k = stored_numbers_are_read_back(sum, a.scale());
    let time = a.plus(b);
    assert(time.bits == encoded(sum, a.scale()));
    if 2 * time.significand() == sum && time.scale() == a.scale() + 1 {
        assert(time.significand() < HIDDEN_BIT);
        assert(time.scale() == -1074);
        assert(false);
    }
    k
}

/// Whole seconds are kept as they are: what is stored is the number, doubled
/// some times at a scale lower by as much, with its sign.
pub proof fn whole_seconds_are_kept(value: int) -> (k: nat)
    requires
        -0x10_0000_0000_0000 < value < 0x10_0000_0000_0000,
        value != 0,
    ensures
        ({
            let time = Seconds::of_whole(value);
            &&& time.finite()
            &&& time.negative() <==> value < 0
            &&& time.significand() == (if value < 0 {
                -value
            } else {
                value
            }) * pow2(k)
            &&& time.scale() == -k
        }),
{
    lemma_powers();
    let v = magnitude_of(value);
    assert(excess_bits(v) == 0);
    assert(v / 1 == v && v % 1 == 0);
    assert(rounded_significand(v) == v);
    let k = stored_numbers_are_read_back(v, 0);
    let bits = encoded(v, 0);
    let plain = Seconds { bits: bits as u64 };
    lemma_encoded_bound(v, 0);
    assert(plain.bits == bits);
    assert(0 < bits < INFINITY_BITS);
    if 2 * plain.significand() == v && plain.scale() == 1 {
        assert(plain.significand() < HIDDEN_BIT);
        assert(plain.magnitude() < HIDDEN_BIT);
        assert(plain.scale() == -1074);
    }
    let time = Seconds::of_whole(value);
    assert(time.magnitude() == bits);
    k
}

proof fn lemma_encoded_bound(m: nat, x: int)
    requires
        0 < m < 2 * HIDDEN_BIT,
        -1074 <= x <= 0,
    ensures
        0 < encoded(m, x) < INFINITY_BITS,
    decreases x + 1074,
{
    if m < HIDDEN_BIT && x > -1074 {
        lemma_encoded_bound(2 * m, x - 1);
    }
}

/// Nothing divided by nothing is no number, anything else infinite with its
/// sign. What is no number stays none in a sum, and what is infinite stays so.
pub proof fn special_times(value: int, a: Seconds, b: Seconds)
    ensures
        Seconds::of_ratio(0, 0).bits == 0x7FF8_0000_0000_0000,
        value > 0 ==> Seconds::of_ratio(value, 0).bits == 0x7FF0_0000_0000_0000,
        value < 0 ==> Seconds::of_ratio(value, 0).bits == 0xFFF0_0000_0000_0000,
        a.bits % 0x8000_0000_0000_0000 > 0x7FF0_0000_0000_0000 ==> a.plus(b).bits
            == 0x7FF8_0000_0000_0000 && b.plus(a).bits == 0x7FF8_0000_0000_0000,
        a.bits % 0x8000_0000_0000_0000 == 0x7FF0_0000_0000_0000 && b.bits % 0x8000_0000_0000_0000
            <= 0x7FF0_0000_0000_0000 ==> a.plus(b).bits == 0x7FF0_0000_0000_0000 && b.plus(
            a,
        ).bits == 0x7FF0_0000_0000_0000,
{
}

} // verus!
