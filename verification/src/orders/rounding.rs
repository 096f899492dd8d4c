//! From decimal price and size to the integer amounts of an order.
//!
//! Each supported tick size fixes how many fractional digits a price, a
//! size and an amount may carry. The price is rounded to the nearest step,
//! a tie going toward zero; the size is cut off; their product is rounded
//! like the price, at the amount's precision. Amounts are then counted in
//! millionths, the unit of the exchange contract.

use crate::decimal::{
    exact_product, lemma_pow10_add, lemma_pow10_bounded, lemma_pow10_large,
    lemma_pow10_positive, lemma_pow10_small, pow10, power_of_ten, rounded, Dec, DecimalValue,
    RoundingStrategy, MAX_SCALE,
};
use crate::error::Error;
use crate::types::enums::Side;
use vstd::prelude::*;

verus! {

/// The number of fractional digits of a token amount on chain.
pub const TOKEN_DECIMALS: u32 = 6;

/// The fractional digits that one tick size allows.
#[derive(Debug, Clone, Copy, PartialEq, Eq, Structural)]
pub struct RoundConfig {
    /// Digits of a price.
    pub price: u32,
    /// Digits of a size.
    pub size: u32,
    /// Digits of an amount, the product of a price and a size.
    pub amount: u32,
}

/// The table of supported tick sizes: 0.1, 0.01, 0.001 and 0.0001, by the
/// number they denote. No other tick size has a configuration.
pub open spec fn tick_config(tick: DecimalValue) -> Option<RoundConfig> {
    if tick.units() == pow10(27) {
        Some(RoundConfig { price: 1, size: 2, amount: 3 })
    } else if tick.units() == pow10(26) {
        Some(RoundConfig { price: 2, size: 2, amount: 4 })
    } else if tick.units() == pow10(25) {
        Some(RoundConfig { price: 3, size: 2, amount: 5 })
    } else if tick.units() == pow10(24) {
        Some(RoundConfig { price: 4, size: 2, amount: 6 })
    } else {
        None
    }
}

impl RoundConfig {
    /// The configuration of a tick size; `UnknownTickSize`, carrying the tick
    /// size, for any value outside the supported set.
    pub fn for_tick_size(tick_size: Dec) -> (r: Result<RoundConfig, Error>)
        ensures
            match tick_config(tick_size@) {
                Some(config) => r == Ok::<RoundConfig, Error>(config),
                None => r matches Err(Error::UnknownTickSize(t)) && t == tick_size,
            },
    {
        proof {
            lemma_pow10_large();
        }
        if tick_size.same_number(&Dec::new(1, 1)) {
            Ok(RoundConfig { price: 1, size: 2, amount: 3 })
        } else if tick_size.same_number(&Dec::new(1, 2)) {
            Ok(RoundConfig { price: 2, size: 2, amount: 4 })
        } else if tick_size.same_number(&Dec::new(1, 3)) {
            Ok(RoundConfig { price: 3, size: 2, amount: 5 })
        } else if tick_size.same_number(&Dec::new(1, 4)) {
            Ok(RoundConfig { price: 4, size: 2, amount: 6 })
        } else {
            Err(Error::UnknownTickSize(tick_size))
        }
    }
}

/// The amount rounded at the configuration's amount precision, a tie going
/// toward zero: what a product of two rounded numbers needs when it carries
/// more digits than an amount may.
pub fn fix_amount_rounding(amt: Dec, round_config: &RoundConfig) -> (fixed: Dec)
    ensures
        fixed@ == rounded(amt@, round_config.amount as nat, RoundingStrategy::MidpointTowardZero),
{
    amt.round_dp_with_strategy(round_config.amount, RoundingStrategy::MidpointTowardZero)
}

/// A decimal amount counted in millionths, where that count is exact, not
/// negative and fits 32 bits.
pub open spec fn token_amount(v: DecimalValue) -> Option<int> {
    if v.scale <= TOKEN_DECIMALS {
        let n = v.mantissa * pow10((TOKEN_DECIMALS - v.scale) as nat);
        if 0 <= n <= u32::MAX {
            Some(n)
        } else {
            None
        }
    } else {
        let step = pow10((v.scale - TOKEN_DECIMALS) as nat);
        if v.mantissa % step == 0 && 0 <= v.mantissa / step <= u32::MAX {
            Some(v.mantissa / step)
        } else {
            None
        }
    }
}

/// The amount in millionths; `None` where it is negative, is no whole number
/// of millionths, or does not fit 32 bits.
pub fn decimal_to_token_u32(amt: Dec) -> (r: Option<u32>)
    ensures
        match token_amount(amt@) {
            Some(n) => r == Some(n as u32),
            None => r is None,
        },
{
    let m = amt.mantissa();
    let s = amt.scale();
    if s <= TOKEN_DECIMALS {
        let p = power_of_ten(TOKEN_DECIMALS - s);
        proof {
            lemma_pow10_small();
            lemma_pow10_bounded((TOKEN_DECIMALS - s) as nat, 6);
            let n = m * p;
            assert(m < 0 ==> n < 0) by (nonlinear_arith)
                requires
                    n == m * p,
                    p >= 1,
            ;
            assert(m > 0xffff_ffff ==> n > 0xffff_ffff) by (nonlinear_arith)
                requires
                    n == m * p,
                    p >= 1,
            ;
            assert(0 <= m <= 0xffff_ffff ==> 0 <= n <= 0xffff_ffff * 1_000_000)
                by (nonlinear_arith)
                requires
                    n == m * p,
                    1 <= p <= 1_000_000,
            ;
        }
        if m < 0 || m > 0xffff_ffff {
            return None;
        }
        let n = m * p;
        if n > 0xffff_ffff {
            None
        } else {
            Some(n as u32)
        }
    } else {
        let step = power_of_ten(s - TOKEN_DECIMALS);
        proof {
            assert(m < 0 ==> m / step < 0) by (nonlinear_arith)
                requires
                    step >= 1,
            ;
        }
        if m < 0 {
            return None;
        }
        if m % step != 0 {
            return None;
        }
        let n = m / step;
        if n > 0xffff_ffff {
            None
        } else {
            Some(n as u32)
        }
    }
}

/// Turns a decimal price and size into the integer amounts of an order for
/// a market of the given tick size.
///
/// Fails with `InvalidParameter` where the tick size is not supported, and
/// exactly where [`scaled_amounts`] has no result for its configuration.
pub fn scale_for_tick_size(tick_size: Dec, side: Side, size: Dec, price: Dec) -> (r: Result<
    ScaledAmounts,
    Error,
>)
    ensures
        match tick_config(tick_size@) {
            None => r matches Err(Error::InvalidParameter(_)),
            Some(config) => match scaled_amounts(side, size@, price@, config) {
                Some((maker, taker)) => r matches Ok(a) && a.maker_amount == maker
                    && a.taker_amount == taker && a.price@ == rounded_price(price@, config),
                None => r matches Err(Error::InvalidParameter(_)),
            },
        },
{
    match RoundConfig::for_tick_size(tick_size) {
        Ok(config) => scale_amounts(side, size, price, &config),
        Err(_) => Err(Error::InvalidParameter("Invalid tick_size".to_owned())),
    }
}

/// A token amount is the decimal amount, exactly: one millionth is `10^22`
/// units of `10^-28`.
pub proof fn lemma_token_amount_is_exact(v: DecimalValue)
    requires
        v.scale <= MAX_SCALE,
        token_amount(v) is Some,
    ensures
        token_amount(v)->0 * pow10((MAX_SCALE - TOKEN_DECIMALS) as nat) == v.units(),
{
    let n = token_amount(v)->0;
    let micro = pow10((MAX_SCALE - TOKEN_DECIMALS) as nat);
    let fine = pow10((MAX_SCALE - v.scale) as nat);
    if v.scale <= TOKEN_DECIMALS {
        let up = pow10((TOKEN_DECIMALS - v.scale) as nat);
        lemma_pow10_add((TOKEN_DECIMALS - v.scale) as nat, (MAX_SCALE - TOKEN_DECIMALS) as nat);
        assert(fine == up * micro);
        assert((v.mantissa * up) * micro == v.mantissa * fine) by (nonlinear_arith)
            requires
                fine == up * micro,
        ;
    } else {
        let step = pow10((v.scale - TOKEN_DECIMALS) as nat);
        lemma_pow10_positive((v.scale - TOKEN_DECIMALS) as nat);
        lemma_pow10_add((v.scale - TOKEN_DECIMALS) as nat, (MAX_SCALE - v.scale) as nat);
        assert(micro == step * fine);
        vstd::arithmetic::div_mod::lemma_fundamental_div_mod(v.mantissa, step);
        assert(v.mantissa == step * n);
        assert(n * micro == v.mantissa * fine) by (nonlinear_arith)
            requires
                micro == step * fine,
                v.mantissa == step * n,
        ;
    }
}

/// The integer amounts of an order and the price they were computed at.
#[derive(Debug, Clone, Copy)]
pub struct ScaledAmounts {
    /// What the maker gives, in millionths.
    pub maker_amount: u32,
    /// What the maker asks for, in millionths.
    pub taker_amount: u32,
    /// The price after rounding.
    pub price: Dec,
}

/// The price as the amounts see it: rounded at the price precision, a tie
/// going toward zero.
pub open spec fn rounded_price(price: DecimalValue, config: RoundConfig) -> DecimalValue {
    rounded(price, config.price as nat, RoundingStrategy::MidpointTowardZero)
}

/// The size as the amounts see it: cut off at the size precision.
pub open spec fn kept_size(size: DecimalValue, config: RoundConfig) -> DecimalValue {
    rounded(size, config.size as nat, RoundingStrategy::ToZero)
}

/// Maker amount and taker amount of an order, in millionths.
///
/// The share side of the order is the kept size. The money side is the kept
/// size times the rounded price, rounded at the amount precision. A buy
/// gives money for shares, a sell gives shares for money. There is no result
/// where the product overflows the decimal mantissa or an amount is negative
/// or needs more than 32 bits.
pub open spec fn scaled_amounts(
    side: Side,
    size: DecimalValue,
    price: DecimalValue,
    config: RoundConfig,
) -> Option<(int, int)> {
    let shares = kept_size(size, config);
    let at = rounded_price(price, config);
    match (token_amount(shares), exact_product(shares, at)) {
        (Some(share_amount), Some(raw)) => match token_amount(
            rounded(raw, config.amount as nat, RoundingStrategy::MidpointTowardZero),
        ) {
            Some(money_amount) => match side {
                Side::Buy => Some((money_amount, share_amount)),
                Side::Sell => Some((share_amount, money_amount)),
            },
            None => None,
        },
        _ => None,
    }
}

/// Turns a decimal price and size into the integer amounts of an order.
///
/// Fails with `InvalidParameter` exactly where [`scaled_amounts`] has no
/// result.
pub fn scale_amounts(side: Side, size: Dec, price: Dec, round_config: &RoundConfig) -> (r: Result<
    ScaledAmounts,
    Error,
>)
    ensures
        match scaled_amounts(side, size@, price@, *round_config) {
            Some((maker, taker)) => r matches Ok(a) && a.maker_amount == maker && a.taker_amount
                == taker && a.price@ == rounded_price(price@, *round_config),
            None => r matches Err(Error::InvalidParameter(_)),
        },
{
    let raw_price = price.round_dp_with_strategy(
        round_config.price,
        RoundingStrategy::MidpointTowardZero,
    );
    let shares = size.round_dp_with_strategy(round_config.size, RoundingStrategy::ToZero);
    let share_amount = match decimal_to_token_u32(shares) {
        Some(n) => n,
        None => { return Err(Error::InvalidParameter("size out of range".to_owned())); },
    };
    if !shares.multiplies_exactly(&raw_price) {
        return Err(Error::InvalidParameter("amount overflows".to_owned()));
    }
    let raw = match shares.checked_mul(raw_price) {
        Some(raw) => raw,
        None => { return Err(Error::InvalidParameter("amount overflows".to_owned())); },
    };
    let money = fix_amount_rounding(raw, round_config);
    let money_amount = match decimal_to_token_u32(money) {
        Some(n) => n,
        None => { return Err(Error::InvalidParameter("amount out of range".to_owned())); },
    };
    match side {
        Side::Buy => Ok(
            ScaledAmounts { maker_amount: money_amount, taker_amount: share_amount, price: raw_price },
        ),
        Side::Sell => Ok(
            ScaledAmounts { maker_amount: share_amount, taker_amount: money_amount, price: raw_price },
        ),
    }
}

/// For every supported tick size, and for a buy as for a sell, the two
/// amounts of an order stand in the ratio of the rounded price, exactly:
/// the money amount is the share amount times that price, and that price has
/// no more fractional digits than the tick size allows.
pub proof fn lemma_amounts_imply_rounded_price(
    tick: DecimalValue,
    side: Side,
    size: DecimalValue,
    price: DecimalValue,
)
    requires
        tick_config(tick) is Some,
        scaled_amounts(side, size, price, tick_config(tick)->0) is Some,
        price.scale <= MAX_SCALE,
    ensures
        ({
            let config = tick_config(tick)->0;
            let (maker, taker) = scaled_amounts(side, size, price, config)->0;
            let at = rounded_price(price, config);
            &&& at.scale <= config.price || at == price
            &&& at.scale <= MAX_SCALE
            &&& side == Side::Buy ==> maker * pow10(MAX_SCALE as nat) == taker * at.units()
            &&& side == Side::Sell ==> taker * pow10(MAX_SCALE as nat) == maker * at.units()
        }),
{
    let config = tick_config(tick)->0;
    let shares = kept_size(size, config);
    let at = rounded_price(price, config);
    let share_amount = token_amount(shares)->0;
    let raw = exact_product(shares, at)->0;
    let fixed = rounded(raw, config.amount as nat, RoundingStrategy::MidpointTowardZero);
    let money_amount = token_amount(fixed)->0;
    assert(config.size == 2 && config.price + config.size == config.amount && config.amount <= 6);
    assert(shares.scale <= TOKEN_DECIMALS ==> share_amount == shares.mantissa * pow10(
        (TOKEN_DECIMALS - shares.scale) as nat,
    ));
    let whole = pow10(MAX_SCALE as nat);
    if shares.mantissa == 0 || at.mantissa == 0 {
        assert(raw == DecimalValue { mantissa: 0, scale: 0 });
        assert(fixed == raw);
        assert(money_amount == 0) by (nonlinear_arith)
            requires
                money_amount == 0 * pow10((TOKEN_DECIMALS - 0) as nat),
        ;
        if shares.mantissa == 0 {
            if shares.scale <= TOKEN_DECIMALS {
                assert(share_amount == 0) by (nonlinear_arith)
                    requires
                        share_amount == shares.mantissa * pow10(
                            (TOKEN_DECIMALS - shares.scale) as nat,
                        ),
                        shares.mantissa == 0,
                ;
            } else {
                let step = pow10((shares.scale - TOKEN_DECIMALS) as nat);
                lemma_pow10_positive((shares.scale - TOKEN_DECIMALS) as nat);
                assert(0int / step == 0) by (nonlinear_arith)
                    requires
                        step >= 1,
                ;
            }
            assert(share_amount * at.units() == 0) by (nonlinear_arith)
                requires
                    share_amount == 0,
            ;
        } else {
            assert(at.units() == 0) by (nonlinear_arith)
                requires
                    at.units() == at.mantissa * pow10((MAX_SCALE - at.scale) as nat),
                    at.mantissa == 0,
            ;
            assert(share_amount * at.units() == 0) by (nonlinear_arith)
                requires
                    at.units() == 0,
            ;
        }
        assert(money_amount * whole == 0) by (nonlinear_arith)
            requires
                money_amount == 0,
        ;
    } else {
        assert(shares.scale <= config.size);
        assert(at.scale <= config.price);
        assert(raw.scale == shares.scale + at.scale);
        assert(fixed == raw);
        let a = shares.mantissa;
        let b = at.mantissa;
        let ps = pow10((TOKEN_DECIMALS - shares.scale) as nat);
        let pa = pow10((MAX_SCALE - at.scale) as nat);
        let pm = pow10((TOKEN_DECIMALS - raw.scale) as nat);
        assert(share_amount == a * ps);
        assert(money_amount == (a * b) * pm);
        assert(at.units() == b * pa);
        lemma_pow10_add((TOKEN_DECIMALS - shares.scale) as nat, (MAX_SCALE - at.scale) as nat);
        lemma_pow10_add((TOKEN_DECIMALS - raw.scale) as nat, MAX_SCALE as nat);
        assert(ps * pa == pm * whole);
        assert(((a * b) * pm) * whole == (a * ps) * (b * pa)) by (nonlinear_arith)
            requires
                ps * pa == pm * whole,
        ;
    }
}

} // verus!
