use alloy_primitives::U256;
use polymarket_rs::decimal::{Dec, RoundingStrategy};

const MAX: i128 = 79_228_162_514_264_337_593_543_950_335;

/// A small generator of repeatable pseudo-random numbers.
struct Lcg(u64);

impl Lcg {
    fn next(&mut self) -> u64 {
        self.0 = self.0.wrapping_mul(6_364_136_223_846_793_005).wrapping_add(1_442_695_040_888_963_407);
        self.0 >> 11
    }

    /// A decimal whose mantissa has a random number of bits up to 96.
    fn decimal(&mut self) -> Dec {
        let bits = self.next() % 97;
        let wide = ((self.next() as u128) << 64 | self.next() as u128) & ((1u128 << 96) - 1);
        let magnitude = if bits == 0 { 0 } else { wide >> (96 - bits) } as i128;
        let mantissa = if self.next() % 2 == 0 { magnitude } else { -magnitude };
        let scale = (self.next() % 29) as u32;
        Dec::from_parts(mantissa, scale).unwrap()
    }

    /// A decimal of the kind an order book holds: few digits, small scale.
    fn small(&mut self) -> Dec {
        let mantissa = (self.next() % 2_000_000) as i128 - 1_000_000;
        let scale = (self.next() % 7) as u32;
        Dec::from_parts(mantissa, scale).unwrap()
    }
}

fn pow10(k: u32) -> Option<i128> {
    10i128.checked_pow(k)
}

fn aligned(d: Dec, scale: u32) -> Option<i128> {
    pow10(scale - d.scale()).and_then(|p| d.mantissa().checked_mul(p)).filter(|m| m.abs() <= MAX)
}

fn parts(d: Dec) -> (i128, u32) {
    (d.mantissa(), d.scale())
}

/// The sum or difference where it needs no rounding.
fn exact_sum(a: Dec, b: Dec, negate: bool) -> Option<(i128, u32)> {
    let second = if negate { -b.mantissa() } else { b.mantissa() };
    if a.mantissa() == 0 {
        return Some((second, b.scale()));
    }
    if b.mantissa() == 0 {
        return Some(parts(a));
    }
    let scale = a.scale().max(b.scale());
    let x = aligned(a, scale)?;
    let y = aligned(b, scale)?;
    let y = if negate { -y } else { y };
    Some((x + y, scale)).filter(|(m, _)| m.abs() <= MAX)
}

fn exact_product(a: Dec, b: Dec) -> Option<(i128, u32)> {
    if a.mantissa() == 0 || b.mantissa() == 0 {
        return Some((0, 0));
    }
    let m = a.mantissa().checked_mul(b.mantissa())?;
    if m.abs() <= MAX && a.scale() + b.scale() <= 28 {
        Some((m, a.scale() + b.scale()))
    } else {
        None
    }
}

fn rounded(a: Dec, dp: u32, half: bool) -> (i128, u32) {
    if a.scale() <= dp {
        return parts(a);
    }
    let unit = pow10(a.scale() - dp).unwrap();
    let magnitude = a.mantissa().abs();
    let mut kept = magnitude / unit;
    if half && 2 * (magnitude % unit) > unit {
        kept += 1;
    }
    (if a.mantissa() < 0 { -kept } else { kept }, dp)
}

/// The number in units of 10^-28, as sign and magnitude.
fn units(d: Dec) -> (bool, U256) {
    let magnitude = U256::from(d.mantissa().unsigned_abs())
        * U256::from(10u64).pow(U256::from(28 - d.scale()));
    (d.mantissa() < 0, magnitude)
}

fn less(a: Dec, b: Dec) -> bool {
    let (an, am) = units(a);
    let (bn, bm) = units(b);
    match (an, bn) {
        (true, false) => !(am.is_zero() && bm.is_zero()),
        (false, true) => false,
        (false, false) => am < bm,
        (true, true) => am > bm,
    }
}

fn pairs(seed: u64, count: usize) -> Vec<(Dec, Dec)> {
    let mut rng = Lcg(seed);
    let mut out = Vec::new();
    for i in 0..count {
        let a = if i % 3 == 0 { rng.small() } else { rng.decimal() };
        let b = if i % 5 == 0 { rng.small() } else { rng.decimal() };
        out.push((a, b));
        out.push((a, a));
    }
    out
}

#[test]
fn sums_that_need_no_rounding_are_exact() {
    let mut exact = 0;
    for (a, b) in pairs(1, 20_000) {
        if let Some(expected) = exact_sum(a, b, false) {
            assert_eq!(a.checked_add(b).map(parts), Some(expected), "{:?} + {:?}", a, b);
            exact += 1;
        }
    }
    assert!(exact > 5_000);
}

#[test]
fn differences_that_need_no_rounding_are_exact() {
    let mut exact = 0;
    for (a, b) in pairs(2, 20_000) {
        if let Some(expected) = exact_sum(a, b, true) {
            assert_eq!(a.checked_sub(b).map(parts), Some(expected), "{:?} - {:?}", a, b);
            exact += 1;
        }
    }
    assert!(exact > 5_000);
}

#[test]
fn products_that_need_no_rounding_are_exact() {
    let mut exact = 0;
    for (a, b) in pairs(3, 20_000) {
        let expected = exact_product(a, b);
        assert_eq!(a.multiplies_exactly(&b), expected.is_some(), "{:?} * {:?}", a, b);
        if expected.is_some() {
            assert_eq!(a.checked_mul(b).map(parts), expected, "{:?} * {:?}", a, b);
            exact += 1;
        }
    }
    assert!(exact > 2_000);
}

#[test]
fn rounding_divides_the_magnitude() {
    let mut rng = Lcg(4);
    for i in 0..20_000 {
        let a = if i % 2 == 0 { rng.small() } else { rng.decimal() };
        let dp = (rng.next() % 30) as u32;
        let r = a.round_dp_with_strategy(dp, RoundingStrategy::MidpointTowardZero);
        assert_eq!(parts(r), rounded(a, dp, true), "{:?} at {}", a, dp);
        let r = a.round_dp_with_strategy(dp, RoundingStrategy::ToZero);
        assert_eq!(parts(r), rounded(a, dp, false), "{:?} at {}", a, dp);
    }
}

#[test]
fn rounding_a_tie_goes_toward_zero_at_every_scale() {
    for scale in 1..=28u32 {
        for dp in 0..scale {
            let half = 5 * pow10(scale - dp - 1).unwrap();
            let unit = 2 * half;
            for whole in [0i128, 1, 2, 7] {
                if (whole * unit + half + 1).abs() > MAX {
                    continue;
                }
                for sign in [1i128, -1] {
                    let tie = Dec::from_parts(sign * (whole * unit + half), scale).unwrap();
                    let r = tie.round_dp_with_strategy(dp, RoundingStrategy::MidpointTowardZero);
                    assert_eq!(parts(r), (sign * whole, dp));
                    let above = Dec::from_parts(sign * (whole * unit + half + 1), scale).unwrap();
                    let r = above.round_dp_with_strategy(dp, RoundingStrategy::MidpointTowardZero);
                    assert_eq!(parts(r), (sign * (whole + 1), dp));
                }
            }
        }
    }
}

#[test]
fn the_order_is_the_order_of_the_numbers() {
    for (a, b) in pairs(5, 20_000) {
        assert_eq!(a.lt(&b), less(a, b), "{:?} < {:?}", a, b);
        assert_eq!(a.gt(&b), less(b, a), "{:?} > {:?}", a, b);
        assert_eq!(a.same_number(&b), !less(a, b) && !less(b, a), "{:?} = {:?}", a, b);
        assert_eq!(a == b, a.same_number(&b));
    }
}

#[test]
fn the_order_sees_through_the_scale() {
    for scale in 0..=27u32 {
        let a = Dec::from_parts(7 * pow10(scale).unwrap(), scale).unwrap();
        let b = Dec::from_parts(70 * pow10(scale).unwrap(), scale + 1).unwrap();
        assert!(a.same_number(&b));
        assert!(!a.lt(&b));
        assert!(!a.gt(&b));
        let c = Dec::from_parts(70 * pow10(scale).unwrap() + 1, scale + 1).unwrap();
        assert!(a.lt(&c));
        assert!(c.gt(&a));
    }
}

#[test]
fn division_by_zero_and_of_zero() {
    let mut rng = Lcg(6);
    for _ in 0..2_000 {
        let a = rng.decimal();
        let zero = Dec::from_parts(0, (rng.next() % 29) as u32).unwrap();
        assert!(a.checked_div(zero).is_none());
        if !a.is_zero() {
            assert_eq!(zero.checked_div(a).map(parts), Some((0, 0)));
        }
    }
}

#[test]
fn a_mantissa_at_the_limit_is_still_exact() {
    let top = Dec::from_parts(MAX, 0).unwrap();
    let one = Dec::new(1, 0);
    assert_eq!(top.checked_sub(one).map(parts), Some((MAX - 1, 0)));
    assert_eq!(Dec::from_parts(MAX - 1, 0).unwrap().checked_add(one).map(parts), Some((MAX, 0)));
    assert_eq!(Dec::from_parts(-MAX, 5).unwrap().checked_add(top).map(parts).is_some(), true);
    assert_eq!(
        Dec::from_parts(MAX, 28).unwrap().checked_sub(Dec::from_parts(MAX, 28).unwrap()).map(parts),
        Some((0, 28))
    );
    let third = Dec::from_parts(MAX / 3, 0).unwrap();
    assert_eq!(third.checked_mul(Dec::new(3, 0)).map(parts), Some((MAX / 3 * 3, 0)));
    assert!(!third.multiplies_exactly(&Dec::new(4, 0)));
}

#[test]
fn wide_terms_of_nearby_scales_are_added_exactly() {
    let mut rng = Lcg(7);
    let mut exact = 0;
    for _ in 0..20_000 {
        let bits_a = 60 + rng.next() % 34;
        let bits_b = 60 + rng.next() % 36;
        let wide_a = ((rng.next() as u128) << 64 | rng.next() as u128) & ((1u128 << bits_a) - 1);
        let wide_b = ((rng.next() as u128) << 64 | rng.next() as u128) & ((1u128 << bits_b) - 1);
        let sign_a = if rng.next() % 2 == 0 { 1 } else { -1 };
        let sign_b = if rng.next() % 2 == 0 { 1 } else { -1 };
        let scale_a = (rng.next() % 26) as u32;
        let scale_b = scale_a + (rng.next() % 4) as u32;
        let a = Dec::from_parts(sign_a * wide_a as i128, scale_a).unwrap();
        let b = Dec::from_parts(sign_b * wide_b as i128, scale_b).unwrap();
        for (x, y) in [(a, b), (b, a)] {
            if let Some(expected) = exact_sum(x, y, false) {
                assert_eq!(x.checked_add(y).map(parts), Some(expected), "{:?} + {:?}", x, y);
                exact += 1;
            }
            if let Some(expected) = exact_sum(x, y, true) {
                assert_eq!(x.checked_sub(y).map(parts), Some(expected), "{:?} - {:?}", x, y);
                exact += 1;
            }
        }
    }
    assert!(exact > 10_000);
}

#[test]
fn narrow_terms_of_distant_scales_are_added_exactly() {
    let mut rng = Lcg(8);
    let mut exact = 0;
    for _ in 0..20_000 {
        let a = Dec::from_parts((rng.next() % 1_000_000) as i128 - 500_000, 0).unwrap();
        let scale = (rng.next() % 29) as u32;
        let b = Dec::from_parts((rng.next() % 1_000_000_000_000) as i128 - 500_000_000_000, scale)
            .unwrap();
        for (x, y) in [(a, b), (b, a)] {
            if let Some(expected) = exact_sum(x, y, false) {
                assert_eq!(x.checked_add(y).map(parts), Some(expected), "{:?} + {:?}", x, y);
                exact += 1;
            }
            if let Some(expected) = exact_sum(x, y, true) {
                assert_eq!(x.checked_sub(y).map(parts), Some(expected), "{:?} - {:?}", x, y);
                exact += 1;
            }
        }
    }
    assert!(exact > 10_000);
}

/// The quotient where the division comes out even over a divisor of 32 bits.
fn exact_quotient(a: Dec, b: Dec) -> Option<(i128, u32)> {
    if b.mantissa() == 0 {
        return None;
    }
    if a.mantissa() == 0 {
        return Some((0, 0));
    }
    if b.mantissa().abs() <= u32::MAX as i128
        && a.mantissa().abs() % b.mantissa().abs() == 0
        && a.scale() >= b.scale()
    {
        let whole = a.mantissa().abs() / b.mantissa().abs();
        let negative = (a.mantissa() < 0) != (b.mantissa() < 0);
        Some((if negative { -whole } else { whole }, a.scale() - b.scale()))
    } else {
        None
    }
}

#[test]
fn divisions_that_come_out_even_are_exact() {
    let mut rng = Lcg(9);
    let mut exact = 0;
    for i in 0..20_000 {
        let divisor_bits = 1 + rng.next() % 32;
        let divisor = (rng.next() & ((1u64 << divisor_bits) - 1)).max(1) as i128;
        let quotient_bits = rng.next() % 65;
        let quotient =
            if quotient_bits == 0 { 0 } else { (rng.next() >> (64 - quotient_bits)) as i128 };
        let extra = if i % 4 == 0 { (rng.next() % 7) as i128 } else { 0 };
        let dividend = quotient * divisor + extra;
        if dividend > MAX {
            continue;
        }
        let sign_a = if rng.next() % 2 == 0 { 1 } else { -1 };
        let sign_b = if rng.next() % 2 == 0 { 1 } else { -1 };
        let scale_b = (rng.next() % 29) as u32;
        let scale_a = if i % 5 == 0 { (rng.next() % 29) as u32 } else { scale_b + (rng.next() % (29 - scale_b as u64)) as u32 };
        let a = Dec::from_parts(sign_a * dividend, scale_a).unwrap();
        let b = Dec::from_parts(sign_b * divisor, scale_b).unwrap();
        if let Some(expected) = exact_quotient(a, b) {
            assert_eq!(a.checked_div(b).map(parts), Some(expected), "{:?} / {:?}", a, b);
            exact += 1;
        }
    }
    assert!(exact > 8_000);
}

#[test]
fn a_wide_dividend_divides_evenly_by_a_narrow_divisor() {
    let third = Dec::from_parts(MAX / 3, 7).unwrap();
    let whole = Dec::from_parts(MAX / 3 * 3, 9).unwrap();
    assert_eq!(whole.checked_div(Dec::new(3, 2)).map(parts), Some((MAX / 3, 7)));
    assert_eq!(whole.checked_div(Dec::new(-3, 9)).map(parts), Some((-(MAX / 3), 0)));
    assert_eq!(third.checked_div(third).map(|q| q == Dec::new(1, 0)), Some(true));
    let top = Dec::from_parts(4_294_967_295i128 * 1_000_003, 4).unwrap();
    assert_eq!(top.checked_div(Dec::new(4_294_967_295, 4)).map(parts), Some((1_000_003, 0)));
}

#[test]
fn the_three_prices_are_exact_quotients() {
    assert_eq!(Dec::new(1325, 2).checked_div(Dec::new(25, 0)).map(parts), Some((53, 2)));
    assert_eq!(Dec::new(1350, 2).checked_div(Dec::new(25, 0)).map(parts), Some((54, 2)));
    assert_eq!(Dec::new(2500, 2).checked_div(Dec::new(50, 0)).map(parts), Some((50, 2)));
}
