//! Times agree with double-precision arithmetic, bit for bit.

use muxfin::codec::opus::OpusFrameDuration;
use muxfin::seconds::Seconds;

fn at(value: f64) -> Seconds {
    Seconds { bits: value.to_bits() }
}

/// A sequence of scattered numbers.
struct Scatter(u64);

impl Scatter {
    fn draw(&mut self) -> u64 {
        self.0 = self.0.wrapping_mul(6364136223846793005).wrapping_add(1442695040888963407);
        let mixed = (self.0 ^ (self.0 >> 33)).wrapping_mul(0xFF51_AFD7_ED55_8CCD);
        mixed ^ (mixed >> 29)
    }
}

#[test]
fn classes_of_numbers() {
    for value in [0.0, -0.0, 1.5, -1.5, f64::MIN_POSITIVE, 5e-324, f64::MAX] {
        assert!(at(value).is_finite());
        assert_eq!(at(value).is_negative(), value < 0.0);
    }
    for value in [f64::NAN, f64::INFINITY, f64::NEG_INFINITY] {
        assert!(!at(value).is_finite());
    }
    assert!(at(0.5).is_before(&at(0.75)));
    assert!(!at(0.75).is_before(&at(0.75)));
}

#[test]
fn ticks_round_the_product() {
    let mut scatter = Scatter(7);
    let mut values = vec![0.0, 0.5, 1.0 / 3.0, 0.033, 0.066, 1e-9, 5.555e-6, 1e12, 1e300, 5e-324];
    for _ in 0..20_000 {
        let bits = scatter.draw() >> 1;
        let value = f64::from_bits(bits);
        if value.is_finite() {
            values.push(value);
        }
        values.push((scatter.draw() >> 34) as f64 / 1e4);
        values.push((scatter.draw() >> 11) as f64 / (1u64 << 53) as f64);
    }
    for value in values {
        assert_eq!(at(value).ticks(), (value * 90_000.0).round() as u64, "{value:e}");
        assert_eq!(at(value).ticks_at(48_000), (value * 48_000.0).round() as u64, "{value:e}");
    }
}

#[test]
fn ratios_are_quotients() {
    let mut scatter = Scatter(11);
    for k in 0..20_000 {
        let value = (scatter.draw() >> (k % 64)) as i64;
        let rate = (scatter.draw() >> 47) as u32 + 1;
        let expected = value as f64 / f64::from(rate);
        assert_eq!(Seconds::from_ratio(value, rate).bits, expected.to_bits(), "{value}/{rate}");
        assert_eq!(Seconds::from_whole(value).bits, (value as f64).to_bits(), "{value}");
        let count = scatter.draw() >> (k % 64);
        let expected = count as f64 / f64::from(rate);
        assert_eq!(Seconds::from_count(count, rate).bits, expected.to_bits(), "{count}/{rate}");
    }
    assert_eq!(Seconds::from_ticks(45_000).bits, 0.5f64.to_bits());
    assert_eq!(Seconds::from_ticks(u64::MAX).bits, (u64::MAX as f64 / 90_000.0).to_bits());
}

#[test]
fn sums_round_once() {
    let mut scatter = Scatter(13);
    for k in 0..20_000 {
        let a = f64::from_bits(scatter.draw() >> 1);
        let near = (a.to_bits() >> 52).wrapping_add(k % 60);
        let b = f64::from_bits((scatter.draw() >> 12) | ((near & 0x7FF) << 52));
        let expected = a + b;
        let sum = f64::from_bits(at(a).later_by(&at(b)).bits);
        if expected.is_nan() {
            assert!(sum.is_nan());
        } else {
            assert_eq!(sum.to_bits(), expected.to_bits(), "{a:e} + {b:e}");
        }
    }
    assert_eq!(at(0.1).later_by(&at(0.2)).bits, 0.30000000000000004f64.to_bits());
}

#[test]
fn frame_durations_in_seconds() {
    assert_eq!(OpusFrameDuration::Ms2_5.seconds().bits, 0.0025f64.to_bits());
    assert_eq!(OpusFrameDuration::Ms60.seconds().bits, 0.06f64.to_bits());
}

#[test]
fn ticks_come_back_from_seconds() {
    let mut scatter = Scatter(23);
    let mut counts = vec![0, 1, 2, 2_999, 3_000, 89_999, 90_000, 90_001, (1 << 50) - 1];
    for k in 0..20_000 {
        counts.push((scatter.draw() >> 14) >> (k % 50));
    }
    for ticks in counts {
        let time = Seconds::from_ratio(ticks as i64, 90_000);
        assert!(time.is_finite() && !time.is_negative());
        assert_eq!(time.ticks(), ticks);
        assert_eq!(Seconds::from_ticks(ticks).ticks(), ticks);
    }
}

/// Three decimals, with halves to the even digit of the exact value.
#[test]
fn times_have_three_decimals() {
    let mut values = vec![
        0.0,
        -0.0,
        0.0005,
        0.0625,
        0.1875,
        0.3125,
        -0.0001,
        -1.0625,
        0.9995,
        0.9996,
        1.0 / 3.0,
        1e-300,
        123_456_789.987_654_32,
        9_007_199_254_740_993.0,
        1e22,
        1e300,
        f64::MAX,
        f64::MIN_POSITIVE,
        f64::from_bits(1),
        f64::INFINITY,
        f64::NEG_INFINITY,
        f64::NAN,
    ];
    let mut scatter = Scatter(5);
    for k in 0..2_000i32 {
        let value = scatter.draw() as f64 / 2.0f64.powi(20 + k % 60);
        values.push(if k % 3 == 0 { -value } else { value });
        // Sixteenths and their halves lie between two decimals.
        values.push((scatter.draw() % 100_000) as f64 / 16.0);
        values.push((scatter.draw() % 100_000) as f64 / 32.0);
    }
    for value in values {
        assert_eq!(at(value).to_three_decimals(), format!("{value:.3}"), "{value:e}");
    }
    assert_eq!(at(1.0625).to_three_decimals(), "1.062");
    assert_eq!(at(-0.0).to_three_decimals(), "-0.000");
}
