//! Money amounts. An amount is held as a decimal mantissa and scale (its
//! value is `mantissa / 10^scale`), which is how `rust_decimal::Decimal`
//! stores it; the arithmetic on it is done by `rust_decimal`.
use vstd::prelude::*;

use rust_decimal::prelude::ToPrimitive;
use rust_decimal::Decimal;

verus! {

/// The largest magnitude of a decimal mantissa (96 bits).
pub const MAX_MANTISSA: i128 = 0xFFFF_FFFF_FFFF_FFFF_FFFF_FFFFi128;

/// The scale of an amount given in cents.
pub const CENTS_SCALE: u32 = 2u32;

/// The largest decimal scale.
pub const MAX_SCALE: u32 = 28u32;

/// `10^n`.
pub open spec fn pow10(n: nat) -> int
    decreases n,
{
    if n == 0 {
        1
    } else {
        10 * pow10((n - 1) as nat)
    }
}

pub proof fn lemma_pow10_positive(n: nat)
    ensures
        pow10(n) >= 1,
    decreases n,
{
    if n > 0 {
        lemma_pow10_positive((n - 1) as nat);
    }
}

/// A decimal amount: `mantissa / 10^scale`.
#[derive(Clone, Copy, Debug, PartialEq, Eq, Structural)]
pub struct Amount {
    pub mantissa: i128,
    pub scale: u32,
}

impl Amount {
    /// The mantissa fits in 96 bits and the scale is at most 28, as for every
    /// `Decimal`.
    pub open spec fn wf(self) -> bool {
        -MAX_MANTISSA <= self.mantissa <= MAX_MANTISSA && self.scale <= MAX_SCALE
    }

    /// Multiplying the amount by 100 stays within what a decimal can hold.
    /// (With two or more fractional digits it always does; with fewer, the
    /// integer result must fit in 96 bits.)
    pub open spec fn hundredfold_fits(self) -> bool {
        let m = if self.mantissa < 0 {
            -self.mantissa
        } else {
            self.mantissa as int
        };
        ||| self.scale >= 2
        ||| self.scale == 1 && m * 10 <= MAX_MANTISSA
        ||| self.scale == 0 && m * 100 <= MAX_MANTISSA
    }
}

impl Amount {
    /// Whether the amount is one that a decimal can hold.
    pub fn is_valid(&self) -> (r: bool)
        ensures
            r == self.wf(),
    {
        -MAX_MANTISSA <= self.mantissa && self.mantissa <= MAX_MANTISSA && self.scale <= MAX_SCALE
    }

    /// Whether multiplying the amount by 100 stays within what a decimal
    /// can hold.
    pub fn can_scale_by_hundred(&self) -> (r: bool)
        requires
            self.wf(),
        ensures
            r == self.hundredfold_fits(),
    {
        let m: u128 = if self.mantissa < 0 {
            (-self.mantissa) as u128
        } else {
            self.mantissa as u128
        };
        if self.scale >= 2 {
            true
        } else if self.scale == 1 {
            m * 10 <= MAX_MANTISSA as u128
        } else {
            m * 100 <= MAX_MANTISSA as u128
        }
    }
}

/// `a * 100` with its fractional part cut off (towards zero).
pub open spec fn hundredfold_truncated(a: Amount) -> int {
    if a.mantissa >= 0 {
        (a.mantissa * 100) / pow10(a.scale as nat)
    } else {
        -((-a.mantissa * 100) / pow10(a.scale as nat))
    }
}

/// The whole number of cents in `a`, as a `u64`: none for a negative amount
/// or one too large.
pub open spec fn cents_u64(a: Amount) -> Option<u64> {
    if a.mantissa < 0 {
        None
    } else if hundredfold_truncated(a) <= u64::MAX {
        Some(hundredfold_truncated(a) as u64)
    } else {
        None
    }
}

/// The whole number of cents in `a`, truncated towards zero, as an `i64`:
/// none when it does not fit.
pub open spec fn cents_i64(a: Amount) -> Option<i64> {
    if i64::MIN <= hundredfold_truncated(a) <= i64::MAX {
        Some(hundredfold_truncated(a) as i64)
    } else {
        None
    }
}

/// The integer part of `a`, towards zero.
pub open spec fn truncated(a: Amount) -> int {
    if a.mantissa >= 0 {
        (a.mantissa as int) / pow10(a.scale as nat)
    } else {
        -((-a.mantissa) / pow10(a.scale as nat))
    }
}

/// How many cents make one unit.
pub const CENTS_PER_UNIT: i32 = 100i32;

/// `Decimal::from_i128_with_scale(m, s) * Decimal::from(factor)`, taken
/// apart again; the contract is stated for the factor 100 only. There
/// `rust_decimal` multiplies exactly: the product has the same value as
/// `a * 100`, at a scale no larger than `a`'s (when the 96-bit mantissa
/// would overflow it divides out trailing zeros of the product, which are
/// there since the factor is 100), and it panics when the product does not
/// fit at scale 0, which `requires` leaves out.
#[verifier::external_body]
fn decimal_mul(a: Amount, factor: i32) -> (r: Amount)
    requires
        factor == 100,
        a.wf(),
        a.hundredfold_fits(),
    ensures
        r.wf(),
        r.scale <= a.scale,
        r.mantissa * pow10(a.scale as nat) == a.mantissa * 100 * pow10(r.scale as nat),
{
    let d = Decimal::from_i128_with_scale(a.mantissa, a.scale) * Decimal::from(factor);
    Amount { mantissa: d.mantissa(), scale: d.scale() }
}

/// `ToPrimitive::to_u64` on the decimal `a`: `None` for a negative value,
/// else the integer part (towards zero) when it fits in a `u64`.
#[verifier::external_body]
fn decimal_to_u64(a: Amount) -> (r: Option<u64>)
    requires
        a.wf(),
    ensures
        r == (if a.mantissa < 0 {
            None
        } else if truncated(a) <= u64::MAX {
            Some(truncated(a) as u64)
        } else {
            None
        }),
{
    Decimal::from_i128_with_scale(a.mantissa, a.scale).to_u64()
}

/// `ToPrimitive::to_i64` on the decimal `a`: the integer part (towards
/// zero) when it fits in an `i64`.
#[verifier::external_body]
fn decimal_to_i64(a: Amount) -> (r: Option<i64>)
    requires
        a.wf(),
    ensures
        r == (if i64::MIN <= truncated(a) <= i64::MAX {
            Some(truncated(a) as i64)
        } else {
            None
        }),
{
    Decimal::from_i128_with_scale(a.mantissa, a.scale).to_i64()
}

/// `Decimal::new(num, scale)`, taken apart: it stores `num` as the mantissa
/// and `scale` as the scale. It panics for a scale above 28.
#[verifier::external_body]
fn decimal_new(num: i64, scale: u32) -> (r: Amount)
    requires
        scale <= MAX_SCALE,
    ensures
        r == (Amount { mantissa: num as i128, scale }),
{
    let d = Decimal::new(num, scale);
    Amount { mantissa: d.mantissa(), scale: d.scale() }
}

/// `a > Decimal::ZERO` for the decimal `a`: whether its value is positive.
#[verifier::external_body]
fn decimal_is_positive(a: Amount) -> (r: bool)
    requires
        a.wf(),
    ensures
        r == (a.mantissa > 0),
{
    Decimal::from_i128_with_scale(a.mantissa, a.scale) > Decimal::ZERO
}

/// Two fractions with the same value have the same integer part.
proof fn lemma_same_quotient(a: int, d: int, b: int, e: int)
    requires
        a >= 0,
        d > 0,
        e > 0,
        a * e == b * d,
    ensures
        a / d == b / e,
{
    let q = a / d;
    let r = a % d;
    assert(a == q * d + r && 0 <= r < d) by (nonlinear_arith)
        requires
            d > 0,
            q == a / d,
            r == a % d,
    ;
    assert((b - q * e) * d == r * e) by (nonlinear_arith)
        requires
            a * e == b * d,
            a == q * d + r,
    ;
    assert(0 <= b - q * e < e) by (nonlinear_arith)
        requires
            (b - q * e) * d == r * e,
            0 <= r < d,
            d > 0,
            e > 0,
    ;
    assert(b / e == q) by (nonlinear_arith)
        requires
            0 <= b - q * e < e,
            e > 0,
    ;
}

/// The integer part of the product computed by `rust_decimal` is that of
/// `a * 100`.
proof fn lemma_product_truncation(a: Amount, p: Amount)
    requires
        p.mantissa * pow10(a.scale as nat) == a.mantissa * 100 * pow10(p.scale as nat),
    ensures
        truncated(p) == hundredfold_truncated(a),
        (p.mantissa < 0) == (a.mantissa < 0),
{
    lemma_pow10_positive(a.scale as nat);
    lemma_pow10_positive(p.scale as nat);
    let da = pow10(a.scale as nat);
    let dp = pow10(p.scale as nat);
    if a.mantissa >= 0 {
        assert(p.mantissa >= 0) by (nonlinear_arith)
            requires
                p.mantissa * da == a.mantissa * 100 * dp,
                a.mantissa >= 0,
                da > 0,
                dp > 0,
        ;
        lemma_same_quotient(p.mantissa as int, dp, a.mantissa * 100, da);
    } else {
        assert(p.mantissa < 0) by (nonlinear_arith)
            requires
                p.mantissa * da == a.mantissa * 100 * dp,
                a.mantissa < 0,
                da > 0,
                dp > 0,
        ;
        assert((-p.mantissa) * da == (-a.mantissa * 100) * dp) by (nonlinear_arith)
            requires
                p.mantissa * da == a.mantissa * 100 * dp,
        ;
        lemma_same_quotient(-p.mantissa, dp, -a.mantissa * 100, da);
    }
}

/// The cents of an amount as the payment intake takes them: the amount
/// times 100, cut to a whole number, as a `u64` (0 when negative or too
/// large), then cut to 16 bits.
pub fn amount_to_cents(amount: Amount) -> (r: u16)
    requires
        amount.wf(),
        amount.hundredfold_fits(),
    ensures
        r == (match cents_u64(amount) {
            Some(c) => c as u16,
            None => 0u16,
        }),
{
    let product = decimal_mul(amount, CENTS_PER_UNIT);
    proof {
        lemma_product_truncation(amount, product);
    }
    match decimal_to_u64(product) {
        Some(c) => c as u16,
        None => 0,
    }
}

/// The amount times 100, cut to a whole number towards zero, as an `i64`
/// (the integer that the payments table stores).
pub fn amount_to_stored_cents(amount: Amount) -> (r: Option<i64>)
    requires
        amount.wf(),
        amount.hundredfold_fits(),
    ensures
        r == cents_i64(amount),
{
    let product = decimal_mul(amount, CENTS_PER_UNIT);
    proof {
        lemma_product_truncation(amount, product);
    }
    decimal_to_i64(product)
}

/// The amount with `cents` hundredths, as a decimal of scale 2. As in the
/// original conversion, `cents` is first reinterpreted as an `i64`.
pub fn amount_from_cents(cents: u64) -> (r: Amount)
    ensures
        r == (Amount { mantissa: (cents as i64) as i128, scale: 2 }),
        r.wf(),
{
    decimal_new(cents as i64, CENTS_SCALE)
}

/// An amount of `cents` hundredths for a signed count of cents.
pub fn amount_from_signed_cents(cents: i64) -> (r: Amount)
    ensures
        r == (Amount { mantissa: cents as i128, scale: 2 }),
        r.wf(),
{
    decimal_new(cents, CENTS_SCALE)
}

/// Whether the amount is above zero.
pub fn amount_is_positive(amount: Amount) -> (r: bool)
    requires
        amount.wf(),
    ensures
        r == (amount.mantissa > 0),
{
    decimal_is_positive(amount)
}

/// The amount zero (mantissa 0, scale 0), as `Decimal::default()` gives it.
pub fn zero_amount() -> (r: Amount)
    ensures
        r == (Amount { mantissa: 0, scale: 0 }),
{
    Amount { mantissa: 0, scale: 0 }
}

} // verus!
