//! Exact base-10 decimal numbers.
//!
//! A [`Dec`] is a signed mantissa of at most 96 bits together with a scale
//! between 0 and 28: it stands for `mantissa / 10^scale`. Arithmetic is
//! carried out by the `rust_decimal` crate; this module states what each
//! operation returns, over mantissa and scale.
//!
//! What is taken on trust is gathered at the end of the file: one function
//! for each operation of `rust_decimal`, with a contract that Verus does not
//! check against the crate. Each hands the crate a decimal made of a `Dec`'s
//! mantissa and scale, and makes a `Dec` of the mantissa and scale that come
//! back; every decimal of the crate keeps within 96 bits and 28 digits, which
//! is all that a `Dec` asks of its fields. Where the crate's result is plain
//! to state, the contract states it. Where the crate rounds, the result has
//! a name and no more is said of it: [`rounded_product`], [`rescaled_sum`],
//! [`rescaled_difference`], [`long_division`], [`decimal_of_text`].

use vstd::prelude::*;

verus! {

/// The largest scale a decimal can carry.
pub const MAX_SCALE: u32 = 28;

/// The largest magnitude of a mantissa: `2^96 - 1`.
pub const MAX_MANTISSA: i128 = 79_228_162_514_264_337_593_543_950_335;

/// `10^n`.
pub open spec fn pow10(n: nat) -> int
    decreases n,
{
    if n == 0 {
        1
    } else {
        10 * pow10((n - 1) as nat)
    }
}

/// `10^n` is positive.
pub proof fn lemma_pow10_positive(n: nat)
    ensures
        pow10(n) >= 1,
    decreases n,
{
    if n > 0 {
        lemma_pow10_positive((n - 1) as nat);
    }
}

/// `10^(a + b) = 10^a * 10^b`.
pub proof fn lemma_pow10_add(a: nat, b: nat)
    ensures
        pow10(a + b) == pow10(a) * pow10(b),
    decreases a,
{
    if a == 0 {
        assert(pow10(a) == 1);
        assert(pow10(a) * pow10(b) == pow10(b)) by (nonlinear_arith)
            requires
                pow10(a) == 1,
        ;
    } else {
        lemma_pow10_add((a - 1) as nat, b);
        let p = pow10((a - 1) as nat);
        let q = pow10(b);
        assert(pow10(a + b) == 10 * pow10((a + b - 1) as nat));
        assert((10 * p) * q == 10 * (p * q)) by (nonlinear_arith);
    }
}

/// `10^a <= 10^b` for `a <= b`.
pub proof fn lemma_pow10_bounded(a: nat, b: nat)
    requires
        a <= b,
    ensures
        pow10(a) <= pow10(b),
    decreases b - a,
{
    if a < b {
        lemma_pow10_bounded(a, (b - 1) as nat);
        lemma_pow10_positive((b - 1) as nat);
    }
}

/// The powers of ten up to `10^9`.
pub proof fn lemma_pow10_small()
    ensures
        pow10(0) == 1,
        pow10(1) == 10,
        pow10(2) == 100,
        pow10(3) == 1_000,
        pow10(4) == 10_000,
        pow10(5) == 100_000,
        pow10(6) == 1_000_000,
        pow10(7) == 10_000_000,
        pow10(8) == 100_000_000,
        pow10(9) == 1_000_000_000,
{
    reveal_with_fuel(pow10, 10);
}

/// The powers of ten from `10^10` to `10^28`.
pub proof fn lemma_pow10_large()
    ensures
        pow10(10) == 10_000_000_000,
        pow10(11) == 100_000_000_000,
        pow10(12) == 1_000_000_000_000,
        pow10(13) == 10_000_000_000_000,
        pow10(14) == 100_000_000_000_000,
        pow10(15) == 1_000_000_000_000_000,
        pow10(16) == 10_000_000_000_000_000,
        pow10(17) == 100_000_000_000_000_000,
        pow10(18) == 1_000_000_000_000_000_000,
        pow10(19) == 10_000_000_000_000_000_000,
        pow10(20) == 100_000_000_000_000_000_000,
        pow10(21) == 1_000_000_000_000_000_000_000,
        pow10(22) == 10_000_000_000_000_000_000_000,
        pow10(23) == 100_000_000_000_000_000_000_000,
        pow10(24) == 1_000_000_000_000_000_000_000_000,
        pow10(25) == 10_000_000_000_000_000_000_000_000,
        pow10(26) == 100_000_000_000_000_000_000_000_000,
        pow10(27) == 1_000_000_000_000_000_000_000_000_000,
        pow10(28) == 10_000_000_000_000_000_000_000_000_000,
{
    lemma_pow10_small();
    reveal_with_fuel(pow10, 10);
    assert(pow10(18) == 1_000_000_000 * pow10(9));
    assert(pow10(27) == 1_000_000_000 * pow10(18));
}

/// `10^k` for a `k` that a scale can take.
pub fn power_of_ten(k: u32) -> (p: i128)
    requires
        k <= MAX_SCALE,
    ensures
        p == pow10(k as nat),
        1 <= p <= 10_000_000_000_000_000_000_000_000_000,
{
    let mut p: i128 = 1;
    let mut i: u32 = 0;
    while i < k
        invariant
            i <= k <= MAX_SCALE,
            p == pow10(i as nat),
            1 <= p,
            p * pow10((MAX_SCALE - i) as nat) == pow10(MAX_SCALE as nat),
        decreases k - i,
    {
        proof {
            lemma_pow10_large();
            lemma_pow10_positive((MAX_SCALE - i - 1) as nat);
            let rest = pow10((MAX_SCALE - i - 1) as nat);
            assert(pow10((MAX_SCALE - i) as nat) == 10 * rest);
            assert(p * (10 * rest) == (10 * p) * rest) by (nonlinear_arith);
            assert(10 * p <= (10 * p) * rest) by (nonlinear_arith)
                requires
                    rest >= 1,
                    p >= 1,
            ;
        }
        p = p * 10;
        i += 1;
    }
    proof {
        lemma_pow10_large();
        lemma_pow10_positive((MAX_SCALE - k) as nat);
        let rest = pow10((MAX_SCALE - k) as nat);
        assert(p <= p * rest) by (nonlinear_arith)
            requires
                rest >= 1,
                p >= 1,
        ;
    }
    p
}

/// The mathematical content of a decimal: `mantissa / 10^scale`.
pub struct DecimalValue {
    pub mantissa: int,
    pub scale: nat,
}

impl DecimalValue {
    /// Whether the value fits the 96-bit mantissa and the scale range.
    pub open spec fn representable(self) -> bool {
        &&& -MAX_MANTISSA <= self.mantissa <= MAX_MANTISSA
        &&& self.scale <= MAX_SCALE
    }

    /// The number counted in units of `10^-28`, the finest step any decimal
    /// can express. Two representable decimals denote the same number exactly
    /// when their units agree.
    pub open spec fn units(self) -> int {
        self.mantissa * pow10((MAX_SCALE - self.scale) as nat)
    }

    /// The magnitude of the mantissa.
    pub open spec fn magnitude(self) -> int {
        if self.mantissa < 0 {
            -self.mantissa
        } else {
            self.mantissa
        }
    }
}

/// How a decimal is cut down to fewer fractional digits.
#[derive(Clone, Copy, Debug, PartialEq, Eq, Structural)]
pub enum RoundingStrategy {
    /// To the nearest neighbour; a value exactly halfway goes toward zero.
    MidpointTowardZero,
    /// Always toward zero: the surplus digits are dropped.
    ToZero,
}

/// `v` cut down to at most `dp` fractional digits.
///
/// A value that already has no more than `dp` digits is returned as it is.
/// Otherwise the magnitude of the mantissa is divided by `10^(scale - dp)`;
/// under [`RoundingStrategy::MidpointTowardZero`] the quotient grows by one
/// when the remainder is more than half of the divisor. The sign is kept.
pub open spec fn rounded(v: DecimalValue, dp: nat, strategy: RoundingStrategy) -> DecimalValue {
    if v.scale <= dp {
        v
    } else {
        let unit = pow10((v.scale - dp) as nat);
        let whole = v.magnitude() / unit;
        let rest = v.magnitude() % unit;
        let kept = if strategy == RoundingStrategy::MidpointTowardZero && 2 * rest > unit {
            whole + 1
        } else {
            whole
        };
        DecimalValue { mantissa: if v.mantissa < 0 { -kept } else { kept }, scale: dp }
    }
}

/// What `rust_decimal` returns for a product that does not fit the mantissa
/// or the scale range as it stands, by the mantissas and scales of the two
/// factors: a rounded value, or `None` where even that overflows.
pub uninterp spec fn rounded_product(am: int, ascale: nat, bm: int, bscale: nat) -> Option<
    (int, nat),
>;

/// What `rust_decimal` returns for a sum of two non-zero decimals that does
/// not fit 96 bits at the larger of their scales, by the mantissas and scales
/// of the two terms: a rounded value, or `None` where even that overflows.
pub uninterp spec fn rescaled_sum(am: int, ascale: nat, bm: int, bscale: nat) -> Option<
    (int, nat),
>;

/// What `rust_decimal` returns for a difference of two non-zero decimals
/// that does not fit 96 bits at the larger of their scales, by the mantissas
/// and scales of the two terms: a rounded value, or `None` where even that
/// overflows.
pub uninterp spec fn rescaled_difference(am: int, ascale: nat, bm: int, bscale: nat) -> Option<
    (int, nat),
>;

/// What `rust_decimal` returns for a quotient of two non-zero decimals
/// whose division does not come out even over a divisor of 32 bits, by the
/// mantissas and scales of dividend and divisor: a quotient of up to 28
/// fractional digits, rounded, or `None` where it overflows.
pub uninterp spec fn long_division(am: int, ascale: nat, bm: int, bscale: nat) -> Option<
    (int, nat),
>;

/// The decimal that `rust_decimal` reads from a text, as mantissa and scale;
/// `None` where it refuses the text.
pub uninterp spec fn decimal_of_text(s: Seq<char>) -> Option<(int, nat)>;

/// A named result as a decimal value.
pub open spec fn as_value(r: Option<(int, nat)>) -> Option<DecimalValue> {
    match r {
        Some((m, s)) => Some(DecimalValue { mantissa: m, scale: s }),
        None => None,
    }
}

/// `exact` where it is there, else `other`.
pub open spec fn or_else(exact: Option<DecimalValue>, other: Option<DecimalValue>) -> Option<
    DecimalValue,
> {
    match exact {
        Some(v) => Some(v),
        None => other,
    }
}

/// The product where it needs no rounding.
///
/// A zero factor gives zero with scale 0. Otherwise, where the product of the
/// mantissas fits 96 bits and the scales add up to at most 28, the mantissas
/// are multiplied and the scales added.
pub open spec fn exact_product(a: DecimalValue, b: DecimalValue) -> Option<DecimalValue> {
    if a.mantissa == 0 || b.mantissa == 0 {
        Some(DecimalValue { mantissa: 0, scale: 0 })
    } else if -MAX_MANTISSA <= a.mantissa * b.mantissa <= MAX_MANTISSA && a.scale + b.scale
        <= MAX_SCALE {
        Some(DecimalValue { mantissa: a.mantissa * b.mantissa, scale: a.scale + b.scale })
    } else {
        None
    }
}

/// The product of two decimals: [`exact_product`] where that applies, and
/// [`rounded_product`] everywhere else.
pub open spec fn product(a: DecimalValue, b: DecimalValue) -> Option<DecimalValue> {
    or_else(
        exact_product(a, b),
        as_value(rounded_product(a.mantissa, a.scale, b.mantissa, b.scale)),
    )
}

/// The mantissa of `v` when it is written with `scale` fractional digits,
/// for a `scale` that is not below its own.
pub open spec fn aligned(v: DecimalValue, scale: nat) -> int {
    v.mantissa * pow10((scale - v.scale) as nat)
}

/// Whether a mantissa fits 96 bits.
pub open spec fn fits(mantissa: int) -> bool {
    -MAX_MANTISSA <= mantissa <= MAX_MANTISSA
}

/// The larger of two scales.
pub open spec fn wider(a: nat, b: nat) -> nat {
    if a >= b {
        a
    } else {
        b
    }
}

/// The sum where it needs no rounding.
///
/// Adding zero returns the other term as it is. Two other terms are written
/// at the larger of their scales; where both mantissas and their sum then
/// fit 96 bits, the result is that sum at that scale.
pub open spec fn exact_sum(a: DecimalValue, b: DecimalValue) -> Option<DecimalValue> {
    let scale = wider(a.scale, b.scale);
    if a.mantissa == 0 {
        Some(b)
    } else if b.mantissa == 0 {
        Some(a)
    } else if fits(aligned(a, scale)) && fits(aligned(b, scale)) && fits(
        aligned(a, scale) + aligned(b, scale),
    ) {
        Some(DecimalValue { mantissa: aligned(a, scale) + aligned(b, scale), scale })
    } else {
        None
    }
}

/// The sum of two decimals: [`exact_sum`] where that applies, and
/// [`rescaled_sum`] everywhere else.
pub open spec fn sum(a: DecimalValue, b: DecimalValue) -> Option<DecimalValue> {
    or_else(exact_sum(a, b), as_value(rescaled_sum(a.mantissa, a.scale, b.mantissa, b.scale)))
}

/// The difference where it needs no rounding.
///
/// Subtracting zero returns the first term as it is; subtracting from zero
/// returns the second with its sign flipped. Two other terms are written at
/// the larger of their scales; where both mantissas and their difference
/// then fit 96 bits, the result is that difference at that scale.
pub open spec fn exact_difference(a: DecimalValue, b: DecimalValue) -> Option<DecimalValue> {
    let scale = wider(a.scale, b.scale);
    if a.mantissa == 0 {
        Some(DecimalValue { mantissa: -b.mantissa, scale: b.scale })
    } else if b.mantissa == 0 {
        Some(a)
    } else if fits(aligned(a, scale)) && fits(aligned(b, scale)) && fits(
        aligned(a, scale) - aligned(b, scale),
    ) {
        Some(DecimalValue { mantissa: aligned(a, scale) - aligned(b, scale), scale })
    } else {
        None
    }
}

/// The difference of two decimals: [`exact_difference`] where that applies,
/// and [`rescaled_difference`] everywhere else.
pub open spec fn difference(a: DecimalValue, b: DecimalValue) -> Option<DecimalValue> {
    or_else(
        exact_difference(a, b),
        as_value(rescaled_difference(a.mantissa, a.scale, b.mantissa, b.scale)),
    )
}

/// The quotient where the division comes out even.
///
/// Zero divided by anything but zero is zero with scale 0. Otherwise, where
/// the divisor's mantissa fits 32 bits and divides the dividend's mantissa
/// without remainder, and the dividend has at least as many fractional
/// digits as the divisor, the mantissas are divided and the scales
/// subtracted; the quotient is negative where exactly one of the two is.
/// There is no quotient by zero.
pub open spec fn exact_quotient(a: DecimalValue, b: DecimalValue) -> Option<DecimalValue> {
    if b.mantissa == 0 {
        None
    } else if a.mantissa == 0 {
        Some(DecimalValue { mantissa: 0, scale: 0 })
    } else if b.magnitude() <= u32::MAX && a.magnitude() % b.magnitude() == 0 && a.scale
        >= b.scale {
        let whole = a.magnitude() / b.magnitude();
        Some(
            DecimalValue {
                mantissa: if (a.mantissa < 0) != (b.mantissa < 0) {
                    -whole
                } else {
                    whole
                },
                scale: (a.scale - b.scale) as nat,
            },
        )
    } else {
        None
    }
}

/// The quotient of two decimals, given what the long division returns.
///
/// Division by zero has no result. Where the division comes out even, the
/// result is [`exact_quotient`]. Every other quotient is the long division's.
pub open spec fn quotient_given(
    a: DecimalValue,
    b: DecimalValue,
    divided: Option<(int, nat)>,
) -> Option<DecimalValue> {
    if b.mantissa == 0 {
        None
    } else {
        or_else(exact_quotient(a, b), as_value(divided))
    }
}

/// The quotient of two decimals: [`exact_quotient`] where that applies, and
/// [`long_division`] everywhere else but for a zero divisor.
pub open spec fn quotient(a: DecimalValue, b: DecimalValue) -> Option<DecimalValue> {
    quotient_given(a, b, long_division(a.mantissa, a.scale, b.mantissa, b.scale))
}

/// Rounding keeps the sign and stays within one step of the number: cutting
/// off never moves away from zero and moves by less than a whole step of
/// `10^-dp`; rounding to the nearest moves by at most half a step, and by
/// exactly half a step only toward zero. All counted in units of `10^-28`.
pub proof fn lemma_rounded_is_near(v: DecimalValue, dp: nat, strategy: RoundingStrategy)
    requires
        dp < v.scale <= MAX_SCALE,
    ensures
        ({
            let r = rounded(v, dp, strategy);
            let step = pow10((MAX_SCALE - dp) as nat);
            let moved = if v.mantissa < 0 {
                r.units() - v.units()
            } else {
                v.units() - r.units()
            };
            &&& r.scale == dp
            &&& v.mantissa >= 0 ==> r.mantissa >= 0
            &&& v.mantissa <= 0 ==> r.mantissa <= 0
            &&& strategy == RoundingStrategy::ToZero ==> 0 <= moved < step
            &&& strategy == RoundingStrategy::MidpointTowardZero ==> -step < 2 * moved <= step
        }),
{
    let r = rounded(v, dp, strategy);
    let step = pow10((MAX_SCALE - dp) as nat);
    let unit = pow10((v.scale - dp) as nat);
    let fine = pow10((MAX_SCALE - v.scale) as nat);
    let mag = v.magnitude();
    let whole = mag / unit;
    let rest = mag % unit;
    let kept = r.magnitude();
    lemma_pow10_positive((v.scale - dp) as nat);
    lemma_pow10_positive((MAX_SCALE - v.scale) as nat);
    lemma_pow10_add((v.scale - dp) as nat, (MAX_SCALE - v.scale) as nat);
    assert(step == unit * fine);
    vstd::arithmetic::div_mod::lemma_fundamental_div_mod(mag, unit);
    assert(mag == unit * whole + rest && 0 <= rest < unit);
    assert(0 <= whole) by (nonlinear_arith)
        requires
            mag == unit * whole + rest,
            0 <= rest < unit,
            0 <= mag,
            unit >= 1,
    ;
    assert(kept == whole || kept == whole + 1);
    let moved = if v.mantissa < 0 {
        r.units() - v.units()
    } else {
        v.units() - r.units()
    };
    assert(moved == (mag - kept * unit) * fine) by (nonlinear_arith)
        requires
            step == unit * fine,
            v.units() == v.mantissa * fine,
            r.units() == r.mantissa * step,
            v.mantissa < 0 ==> mag == -v.mantissa && r.mantissa == -kept,
            v.mantissa >= 0 ==> mag == v.mantissa && r.mantissa == kept,
            moved == (if v.mantissa < 0 {
                r.units() - v.units()
            } else {
                v.units() - r.units()
            }),
    ;
    if kept == whole {
        assert(moved == rest * fine) by (nonlinear_arith)
            requires
                moved == (mag - kept * unit) * fine,
                mag == unit * whole + rest,
                kept == whole,
        ;
        assert(0 <= rest * fine < unit * fine) by (nonlinear_arith)
            requires
                0 <= rest < unit,
                fine >= 1,
        ;
        if strategy == RoundingStrategy::MidpointTowardZero {
            assert(2 * (rest * fine) <= unit * fine) by (nonlinear_arith)
                requires
                    2 * rest <= unit,
                    fine >= 1,
            ;
        }
    } else {
        assert(moved == (rest - unit) * fine) by (nonlinear_arith)
            requires
                moved == (mag - kept * unit) * fine,
                mag == unit * whole + rest,
                kept == whole + 1,
        ;
        assert(-(unit * fine) < 2 * ((rest - unit) * fine) <= unit * fine) by (nonlinear_arith)
            requires
                2 * rest > unit,
                rest < unit,
                fine >= 1,
        ;
    }
}

/// An exact quotient is the quotient: counted in units of `10^-28`, the
/// result times the divisor is the dividend times `10^28`.
pub proof fn lemma_exact_quotient_is_quotient(a: DecimalValue, b: DecimalValue)
    requires
        a.scale <= MAX_SCALE,
        b.scale <= MAX_SCALE,
        exact_quotient(a, b) is Some,
    ensures
        exact_quotient(a, b)->0.units() * b.units() == a.units() * pow10(MAX_SCALE as nat),
        exact_quotient(a, b)->0.scale <= MAX_SCALE,
{
    let q = exact_quotient(a, b)->0;
    let whole = pow10(MAX_SCALE as nat);
    let pa = pow10((MAX_SCALE - a.scale) as nat);
    let pb = pow10((MAX_SCALE - b.scale) as nat);
    let pq = pow10((MAX_SCALE - q.scale) as nat);
    if a.mantissa == 0 {
        assert(q.units() * b.units() == 0) by (nonlinear_arith)
            requires
                q.units() == q.mantissa * pq,
                q.mantissa == 0,
        ;
        assert(a.units() * whole == 0) by (nonlinear_arith)
            requires
                a.units() == a.mantissa * pa,
                a.mantissa == 0,
        ;
    } else {
        let ma = a.magnitude();
        let mb = b.magnitude();
        let times = ma / mb;
        vstd::arithmetic::div_mod::lemma_fundamental_div_mod(ma, mb);
        assert(ma == mb * times);
        assert(q.mantissa * b.mantissa == a.mantissa) by (nonlinear_arith)
            requires
                ma == mb * times,
                ma == (if a.mantissa < 0 {
                    -a.mantissa
                } else {
                    a.mantissa
                }),
                mb == (if b.mantissa < 0 {
                    -b.mantissa
                } else {
                    b.mantissa
                }),
                q.mantissa == (if (a.mantissa < 0) != (b.mantissa < 0) {
                    -times
                } else {
                    times
                }),
                a.mantissa != 0,
                b.mantissa != 0,
        ;
        lemma_pow10_add((MAX_SCALE - q.scale) as nat, (MAX_SCALE - b.scale) as nat);
        lemma_pow10_add((MAX_SCALE - a.scale) as nat, MAX_SCALE as nat);
        assert(pq * pb == pa * whole);
        assert((q.mantissa * pq) * (b.mantissa * pb) == (a.mantissa * pa) * whole)
            by (nonlinear_arith)
            requires
                q.mantissa * b.mantissa == a.mantissa,
                pq * pb == pa * whole,
        ;
    }
}

/// An exact product is the product: counted in units of `10^-28`, the
/// result times `10^28` is the product of the factors.
pub proof fn lemma_exact_product_is_product(a: DecimalValue, b: DecimalValue)
    requires
        a.scale <= MAX_SCALE,
        b.scale <= MAX_SCALE,
        exact_product(a, b) is Some,
    ensures
        exact_product(a, b)->0.units() * pow10(MAX_SCALE as nat) == a.units() * b.units(),
        exact_product(a, b)->0.scale <= MAX_SCALE,
{
    let r = exact_product(a, b)->0;
    let whole = pow10(MAX_SCALE as nat);
    let pa = pow10((MAX_SCALE - a.scale) as nat);
    let pb = pow10((MAX_SCALE - b.scale) as nat);
    if a.mantissa == 0 || b.mantissa == 0 {
        assert(r.units() == 0) by (nonlinear_arith)
            requires
                r.units() == r.mantissa * whole,
                r.mantissa == 0,
        ;
        assert(a.units() * b.units() == 0) by (nonlinear_arith)
            requires
                a.units() == a.mantissa * pa,
                b.units() == b.mantissa * pb,
                a.mantissa == 0 || b.mantissa == 0,
        ;
        assert(r.units() * whole == 0) by (nonlinear_arith)
            requires
                r.units() == 0,
        ;
    } else {
        let pr = pow10((MAX_SCALE - r.scale) as nat);
        lemma_pow10_add((MAX_SCALE - a.scale) as nat, (MAX_SCALE - b.scale) as nat);
        lemma_pow10_add((MAX_SCALE - r.scale) as nat, MAX_SCALE as nat);
        assert(pr * whole == pa * pb);
        assert(((a.mantissa * b.mantissa) * pr) * whole == (a.mantissa * pa) * (b.mantissa * pb))
            by (nonlinear_arith)
            requires
                pr * whole == pa * pb,
        ;
    }
}

/// A number written at a larger scale is the same number.
pub proof fn lemma_aligned_is_same_number(v: DecimalValue, scale: nat)
    requires
        v.scale <= scale <= MAX_SCALE,
    ensures
        aligned(v, scale) * pow10((MAX_SCALE - scale) as nat) == v.units(),
{
    let up = pow10((scale - v.scale) as nat);
    let fine = pow10((MAX_SCALE - scale) as nat);
    lemma_pow10_add((scale - v.scale) as nat, (MAX_SCALE - scale) as nat);
    assert((v.mantissa * up) * fine == v.mantissa * (up * fine)) by (nonlinear_arith);
}

/// An exact sum is the sum, counted in units of `10^-28`.
pub proof fn lemma_exact_sum_is_sum(a: DecimalValue, b: DecimalValue)
    requires
        a.scale <= MAX_SCALE,
        b.scale <= MAX_SCALE,
        exact_sum(a, b) is Some,
    ensures
        exact_sum(a, b)->0.units() == a.units() + b.units(),
        exact_sum(a, b)->0.scale <= MAX_SCALE,
{
    let pa = pow10((MAX_SCALE - a.scale) as nat);
    let pb = pow10((MAX_SCALE - b.scale) as nat);
    if a.mantissa == 0 {
        assert(a.units() == 0) by (nonlinear_arith)
            requires
                a.units() == a.mantissa * pa,
                a.mantissa == 0,
        ;
    } else if b.mantissa == 0 {
        assert(b.units() == 0) by (nonlinear_arith)
            requires
                b.units() == b.mantissa * pb,
                b.mantissa == 0,
        ;
    } else {
        let scale = wider(a.scale, b.scale);
        let fine = pow10((MAX_SCALE - scale) as nat);
        lemma_aligned_is_same_number(a, scale);
        lemma_aligned_is_same_number(b, scale);
        assert((aligned(a, scale) + aligned(b, scale)) * fine == aligned(a, scale) * fine
            + aligned(b, scale) * fine) by (nonlinear_arith);
    }
}

/// An exact difference is the difference, counted in units of `10^-28`.
pub proof fn lemma_exact_difference_is_difference(a: DecimalValue, b: DecimalValue)
    requires
        a.scale <= MAX_SCALE,
        b.scale <= MAX_SCALE,
        exact_difference(a, b) is Some,
    ensures
        exact_difference(a, b)->0.units() == a.units() - b.units(),
        exact_difference(a, b)->0.scale <= MAX_SCALE,
{
    let pa = pow10((MAX_SCALE - a.scale) as nat);
    let pb = pow10((MAX_SCALE - b.scale) as nat);
    if a.mantissa == 0 {
        assert(a.units() == 0) by (nonlinear_arith)
            requires
                a.units() == a.mantissa * pa,
                a.mantissa == 0,
        ;
        assert((-b.mantissa) * pb == -(b.mantissa * pb)) by (nonlinear_arith);
    } else if b.mantissa == 0 {
        assert(b.units() == 0) by (nonlinear_arith)
            requires
                b.units() == b.mantissa * pb,
                b.mantissa == 0,
        ;
    } else {
        let scale = wider(a.scale, b.scale);
        let fine = pow10((MAX_SCALE - scale) as nat);
        lemma_aligned_is_same_number(a, scale);
        lemma_aligned_is_same_number(b, scale);
        assert((aligned(a, scale) - aligned(b, scale)) * fine == aligned(a, scale) * fine
            - aligned(b, scale) * fine) by (nonlinear_arith);
    }
}

/// A decimal number held as mantissa and scale.
#[derive(Clone, Copy, Debug)]
pub struct Dec {
    mantissa: i128,
    scale: u32,
}

impl View for Dec {
    type V = DecimalValue;

    closed spec fn view(&self) -> DecimalValue {
        DecimalValue { mantissa: self.mantissa as int, scale: self.scale as nat }
    }
}

/// The value inside an optional decimal.
pub open spec fn view_of(r: Option<Dec>) -> Option<DecimalValue> {
    match r {
        Some(d) => Some(d@),
        None => None,
    }
}

impl Dec {
    #[verifier::type_invariant]
    spec fn well_formed(self) -> bool {
        self@.representable()
    }

    /// `num / 10^scale`.
    pub fn new(num: i64, scale: u32) -> (d: Dec)
        requires
            scale <= MAX_SCALE,
        ensures
            d@.mantissa == num,
            d@.scale == scale,
    {
        Dec { mantissa: num as i128, scale }
    }

    /// `mantissa / 10^scale`, or `None` where the mantissa needs more than 96
    /// bits or the scale is above 28.
    pub fn from_parts(mantissa: i128, scale: u32) -> (r: Option<Dec>)
        ensures
            view_of(r) == (if (DecimalValue { mantissa: mantissa as int, scale: scale as nat })
                .representable() {
                Some(DecimalValue { mantissa: mantissa as int, scale: scale as nat })
            } else {
                None
            }),
    {
        if scale <= MAX_SCALE && -MAX_MANTISSA <= mantissa && mantissa <= MAX_MANTISSA {
            Some(Dec { mantissa, scale })
        } else {
            None
        }
    }

    /// Reads a decimal from text such as `0.53`.
    pub fn from_str(s: &str) -> (r: Option<Dec>)
        ensures
            view_of(r) == as_value(decimal_of_text(s@)),
    {
        parse_outside(s)
    }

    /// Zero, with scale 0.
    pub fn zero() -> (d: Dec)
        ensures
            d@.mantissa == 0,
            d@.scale == 0,
    {
        Dec { mantissa: 0, scale: 0 }
    }

    /// The mantissa.
    pub fn mantissa(&self) -> (m: i128)
        ensures
            m == self@.mantissa,
            -MAX_MANTISSA <= m <= MAX_MANTISSA,
    {
        proof {
            use_type_invariant(self);
        }
        self.mantissa
    }

    /// The scale: the number of fractional digits.
    pub fn scale(&self) -> (s: u32)
        ensures
            s == self@.scale,
            s <= MAX_SCALE,
    {
        proof {
            use_type_invariant(self);
        }
        self.scale
    }

    /// Whether the number is zero.
    pub fn is_zero(&self) -> (b: bool)
        ensures
            b == (self@.mantissa == 0),
    {
        self.mantissa == 0
    }

    /// Whether the product with `other` needs no rounding.
    pub fn multiplies_exactly(&self, other: &Dec) -> (exact: bool)
        ensures
            exact == exact_product(self@, other@).is_some(),
    {
        if self.is_zero() || other.is_zero() {
            true
        } else if self.scale() + other.scale() > MAX_SCALE {
            false
        } else {
            match self.mantissa().checked_mul(other.mantissa()) {
                Some(p) => -MAX_MANTISSA <= p && p <= MAX_MANTISSA,
                None => false,
            }
        }
    }

    /// The number cut down to at most `dp` fractional digits.
    pub fn round_dp_with_strategy(&self, dp: u32, strategy: RoundingStrategy) -> (r: Dec)
        ensures
            r@ == rounded(self@, dp as nat, strategy),
    {
        round_outside(*self, dp, strategy)
    }

    /// The product, or `None` on overflow.
    pub fn checked_mul(self, other: Dec) -> (r: Option<Dec>)
        ensures
            view_of(r) == product(self@, other@),
    {
        mul_outside(self, other)
    }

    /// The sum, or `None` on overflow.
    pub fn checked_add(self, other: Dec) -> (r: Option<Dec>)
        ensures
            view_of(r) == sum(self@, other@),
    {
        add_outside(self, other)
    }

    /// The difference, or `None` on overflow.
    pub fn checked_sub(self, other: Dec) -> (r: Option<Dec>)
        ensures
            view_of(r) == difference(self@, other@),
    {
        sub_outside(self, other)
    }

    /// The quotient, or `None` on overflow or division by zero.
    pub fn checked_div(self, other: Dec) -> (r: Option<Dec>)
        ensures
            view_of(r) == quotient(self@, other@),
    {
        div_outside(self, other)
    }

    /// Whether `self` is the smaller number.
    pub fn lt(&self, other: &Dec) -> (b: bool)
        ensures
            b == (self@.units() < other@.units()),
    {
        sign_of_difference(*self, *other) < 0
    }

    /// Whether `self` is the larger number.
    pub fn gt(&self, other: &Dec) -> (b: bool)
        ensures
            b == (self@.units() > other@.units()),
    {
        sign_of_difference(*self, *other) > 0
    }

    /// Whether both denote the same number, whatever their scales.
    pub fn same_number(&self, other: &Dec) -> (b: bool)
        ensures
            b == (self@.units() == other@.units()),
    {
        sign_of_difference(*self, *other) == 0
    }

    /// The smaller of the two; `self` where they denote the same number.
    pub fn min(self, other: Dec) -> (r: Dec)
        ensures
            r == (if self@.units() > other@.units() {
                other
            } else {
                self
            }),
    {
        if self.gt(&other) {
            other
        } else {
            self
        }
    }
}

/// Two decimals are equal when they denote the same number: `0.50 == 0.5`.
impl PartialEq for Dec {
    fn eq(&self, other: &Dec) -> (b: bool) {
        self.same_number(other)
    }
}

impl vstd::std_specs::cmp::PartialEqSpecImpl for Dec {
    open spec fn obeys_eq_spec() -> bool {
        true
    }

    open spec fn eq_spec(&self, other: &Dec) -> bool {
        self@.units() == other@.units()
    }
}

/// `rust_decimal::Decimal::round_dp_with_strategy`, with the strategies
/// `MidpointTowardZero` and `ToZero`.
///
/// The crate returns the number unchanged where its scale is already at most
/// `dp`. Otherwise it divides the magnitude by `10^(scale - dp)`, adds one
/// for `MidpointTowardZero` when the dropped part is more than half of that
/// power, and gives the result the scale `dp` and the old sign.
#[verifier::external_body]
fn round_outside(a: Dec, dp: u32, strategy: RoundingStrategy) -> (r: Dec)
    ensures
        r@ == rounded(a@, dp as nat, strategy),
{
    let s = match strategy {
        RoundingStrategy::MidpointTowardZero => rust_decimal::RoundingStrategy::MidpointTowardZero,
        RoundingStrategy::ToZero => rust_decimal::RoundingStrategy::ToZero,
    };
    let x = rust_decimal::Decimal::from_i128_with_scale(a.mantissa, a.scale);
    let y = x.round_dp_with_strategy(dp, s);
    Dec { mantissa: y.mantissa(), scale: y.scale() }
}

/// `rust_decimal::Decimal::from_str`.
#[verifier::external_body]
fn parse_outside(s: &str) -> (r: Option<Dec>)
    ensures
        view_of(r) == as_value(decimal_of_text(s@)),
{
    match <rust_decimal::Decimal as std::str::FromStr>::from_str(s) {
        Ok(z) => Some(Dec { mantissa: z.mantissa(), scale: z.scale() }),
        Err(_) => None,
    }
}

/// `rust_decimal::Decimal::checked_mul`.
///
/// The crate returns zero with scale 0 where a factor is zero, the exact
/// product with the scales added where that fits 96 bits and 28 digits, and
/// otherwise a rounded product or `None`.
#[verifier::external_body]
fn mul_outside(a: Dec, b: Dec) -> (r: Option<Dec>)
    ensures
        view_of(r) == or_else(
            exact_product(a@, b@),
            as_value(rounded_product(a@.mantissa, a@.scale, b@.mantissa, b@.scale)),
        ),
{
    let x = rust_decimal::Decimal::from_i128_with_scale(a.mantissa, a.scale);
    let y = rust_decimal::Decimal::from_i128_with_scale(b.mantissa, b.scale);
    match x.checked_mul(y) {
        Some(z) => Some(Dec { mantissa: z.mantissa(), scale: z.scale() }),
        None => None,
    }
}

/// `rust_decimal::Decimal::checked_add`.
///
/// The crate returns the other term where one is zero. Otherwise it brings
/// the term of the smaller scale up to the larger scale; where that term and
/// the sum then fit 96 bits, it returns the exact sum at the larger scale,
/// and otherwise a sum that it rounds to fit, or `None`.
#[verifier::external_body]
fn add_outside(a: Dec, b: Dec) -> (r: Option<Dec>)
    ensures
        view_of(r) == or_else(
            exact_sum(a@, b@),
            as_value(rescaled_sum(a@.mantissa, a@.scale, b@.mantissa, b@.scale)),
        ),
{
    let x = rust_decimal::Decimal::from_i128_with_scale(a.mantissa, a.scale);
    let y = rust_decimal::Decimal::from_i128_with_scale(b.mantissa, b.scale);
    match x.checked_add(y) {
        Some(z) => Some(Dec { mantissa: z.mantissa(), scale: z.scale() }),
        None => None,
    }
}

/// `rust_decimal::Decimal::checked_sub`.
///
/// The crate returns the first term where the second is zero, and the second
/// with its sign flipped where the first is zero. Otherwise it brings the
/// term of the smaller scale up to the larger scale; where that term and the
/// difference then fit 96 bits, it returns the exact difference at the larger
/// scale, and otherwise a difference that it rounds to fit, or `None`.
#[verifier::external_body]
fn sub_outside(a: Dec, b: Dec) -> (r: Option<Dec>)
    ensures
        view_of(r) == or_else(
            exact_difference(a@, b@),
            as_value(rescaled_difference(a@.mantissa, a@.scale, b@.mantissa, b@.scale)),
        ),
{
    let x = rust_decimal::Decimal::from_i128_with_scale(a.mantissa, a.scale);
    let y = rust_decimal::Decimal::from_i128_with_scale(b.mantissa, b.scale);
    match x.checked_sub(y) {
        Some(z) => Some(Dec { mantissa: z.mantissa(), scale: z.scale() }),
        None => None,
    }
}

/// `rust_decimal::Decimal::checked_div`.
///
/// The crate returns `None` for a zero divisor and zero with scale 0 for a
/// zero dividend. For a divisor whose mantissa fits 32 bits it divides the
/// mantissas first; where that leaves no remainder and the dividend's scale
/// is not below the divisor's, it returns that quotient at the difference of
/// the scales, negative where exactly one of the two is. Otherwise it goes on
/// with its long division, and returns that result, or `None` where it
/// overflows.
#[verifier::external_body]
fn div_outside(a: Dec, b: Dec) -> (r: Option<Dec>)
    ensures
        view_of(r) == quotient_given(
            a@,
            b@,
            long_division(a@.mantissa, a@.scale, b@.mantissa, b@.scale),
        ),
{
    let x = rust_decimal::Decimal::from_i128_with_scale(a.mantissa, a.scale);
    let y = rust_decimal::Decimal::from_i128_with_scale(b.mantissa, b.scale);
    match x.checked_div(y) {
        Some(z) => Some(Dec { mantissa: z.mantissa(), scale: z.scale() }),
        None => None,
    }
}

/// The order that `rust_decimal::Decimal` gives two numbers, as -1, 0 or 1.
///
/// The crate orders decimals by the numbers they denote, whatever their
/// scales.
#[verifier::external_body]
fn sign_of_difference(a: Dec, b: Dec) -> (r: i8)
    ensures
        r == (if a@.units() < b@.units() {
            -1i8
        } else if a@.units() == b@.units() {
            0i8
        } else {
            1i8
        }),
{
    let x = rust_decimal::Decimal::from_i128_with_scale(a.mantissa, a.scale);
    let y = rust_decimal::Decimal::from_i128_with_scale(b.mantissa, b.scale);
    match x.cmp(&y) {
        std::cmp::Ordering::Less => -1,
        std::cmp::Ordering::Equal => 0,
        std::cmp::Ordering::Greater => 1,
    }
}

} // verus!
