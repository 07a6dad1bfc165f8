//! Fixed-point arithmetic shared by the contracts: 18-digit decimals over
//! unsigned 128-bit integers, and the rounded multiplication the voting
//! escrow and the gauge controller use to avoid decimal truncation drift.
use vstd::prelude::*;

verus! {

/// Scale of a decimal: one unit is `10^18` atomics.
pub const DECIMAL_FRACTIONAL: u128 = 1_000_000_000_000_000_000u128;

/// Half a unit in atomics: the rounding threshold of the rounded multiplication.
pub const HALF_UNIT: u128 = 500_000_000_000_000_000u128;

/// `2^128`, the base of the high word of a 256-bit value.
pub open spec fn two_pow_128() -> int {
    0x1_0000_0000_0000_0000_0000_0000_0000_0000int
}

/// A fixed-point decimal with 18 fractional digits; its value is `atomics / 10^18`.
#[derive(Clone, Copy, Debug, PartialEq, Eq, Structural)]
pub struct Decimal {
    pub atomics: u128,
}

/// An unsigned 256-bit integer held as two 128-bit words.
#[derive(Clone, Copy, Debug, PartialEq, Eq, Structural)]
pub struct U256 {
    pub hi: u128,
    pub lo: u128,
}

impl U256 {
    pub open spec fn value(self) -> nat {
        (self.hi * two_pow_128() + self.lo) as nat
    }
}

/// The error of an arithmetic operation whose result does not fit.
#[derive(Clone, Copy, Debug, PartialEq, Eq, Structural)]
pub struct OverflowError {}

/// `floor(a * b / c)` as a mathematical integer.
pub open spec fn mul_div_floor(a: int, b: int, c: int) -> int {
    (a * b) / c
}

/// `a * b / c`, rounded up.
pub open spec fn mul_div_ceil(a: int, b: int, c: int) -> int {
    if (a * b) % c == 0 {
        (a * b) / c
    } else {
        (a * b) / c + 1
    }
}

/// The atomics of `numerator / denominator` as a decimal, truncated.
pub open spec fn ratio_atomics(numerator: int, denominator: int) -> int {
    mul_div_floor(numerator, DECIMAL_FRACTIONAL as int, denominator)
}

/// `amount * d`, truncated to an integer.
pub open spec fn mul_decimal_floor(amount: int, d: Decimal) -> int {
    mul_div_floor(amount, d.atomics as int, DECIMAL_FRACTIONAL as int)
}

/// The exact product `other * d` in atomics (scaled by `10^18`).
pub open spec fn scaled_product(d: Decimal, other: int) -> int {
    other * d.atomics
}

/// The rounded product `other * d`, halves rounded up, as a mathematical integer.
pub open spec fn rounded_product(d: Decimal, other: int) -> int {
    let n = scaled_product(d, other);
    let q = n / (DECIMAL_FRACTIONAL as int);
    if n % (DECIMAL_FRACTIONAL as int) >= HALF_UNIT as int {
        q + 1
    } else {
        q
    }
}

/// The truncated quotient of the rounded product overflows 128 bits.
pub open spec fn rounded_mul_overflows(d: Decimal, other: int) -> bool {
    scaled_product(d, other) / (DECIMAL_FRACTIONAL as int) > u128::MAX
}

/// The truncated quotient fits, but rounding it up leaves the 128-bit range.
pub open spec fn rounded_mul_round_up_overflows(d: Decimal, other: int) -> bool {
    &&& scaled_product(d, other) / (DECIMAL_FRACTIONAL as int) == u128::MAX
    &&& scaled_product(d, other) % (DECIMAL_FRACTIONAL as int) >= HALF_UNIT as int
}

/// `other * d` with halves rounded up, or `None` where the quotient overflows.
pub open spec fn rounded_mul(d: Decimal, other: int) -> Option<int> {
    if rounded_mul_overflows(d, other) {
        None
    } else {
        Some(rounded_product(d, other))
    }
}

/// `Uint128::full_mul` of cosmwasm-std: the full 256-bit product of two
/// 128-bit integers. Claimed: the two words returned hold exactly `a * b`.
#[verifier::external_body]
fn full_mul(a: u128, b: u128) -> (r: U256)
    ensures
        r.value() == a * b,
{
    let bytes = cosmwasm_std::Uint128::new(a).full_mul(b).to_be_bytes();
    let mut hi = [0u8; 16];
    let mut lo = [0u8; 16];
    hi.copy_from_slice(&bytes[..16]);
    lo.copy_from_slice(&bytes[16..]);
    U256 { hi: u128::from_be_bytes(hi), lo: u128::from_be_bytes(lo) }
}

/// `Uint256 / Uint256` of cosmwasm-std, with a 128-bit divisor. Claimed:
/// the result is the truncated quotient; the call panics on a zero divisor,
/// which `requires` leaves out.
#[verifier::external_body]
fn uint256_div(n: U256, d: u128) -> (r: U256)
    requires
        d > 0,
    ensures
        r.value() == n.value() / (d as nat),
{
    let mut bytes = [0u8; 32];
    bytes[..16].copy_from_slice(&n.hi.to_be_bytes());
    bytes[16..].copy_from_slice(&n.lo.to_be_bytes());
    let q = cosmwasm_std::Uint256::from_be_bytes(bytes) / cosmwasm_std::Uint256::from(d);
    let out = q.to_be_bytes();
    let (mut hi, mut lo) = ([0u8; 16], [0u8; 16]);
    hi.copy_from_slice(&out[..16]);
    lo.copy_from_slice(&out[16..]);
    U256 { hi: u128::from_be_bytes(hi), lo: u128::from_be_bytes(lo) }
}

/// `Uint256::checked_rem` of cosmwasm-std, with a 128-bit divisor. Claimed:
/// the result is the remainder of the truncated division; it fails only on
/// a zero divisor, which `requires` leaves out.
#[verifier::external_body]
fn uint256_rem(n: U256, d: u128) -> (r: u128)
    requires
        d > 0,
    ensures
        r == n.value() % (d as nat),
{
    let mut bytes = [0u8; 32];
    bytes[..16].copy_from_slice(&n.hi.to_be_bytes());
    bytes[16..].copy_from_slice(&n.lo.to_be_bytes());
    let r = cosmwasm_std::Uint256::from_be_bytes(bytes)
        .checked_rem(cosmwasm_std::Uint256::from(d))
        .unwrap();
    let out = r.to_be_bytes();
    let mut lo = [0u8; 16];
    lo.copy_from_slice(&out[16..]);
    u128::from_be_bytes(lo)
}

/// `Uint128::multiply_ratio` of cosmwasm-std: `floor(a * numerator / denominator)`
/// computed over 256 bits. Claimed: that exact value; the call panics on a
/// zero denominator and when the quotient leaves 128 bits, which `requires`
/// leaves out.
#[verifier::external_body]
fn cw_multiply_ratio(a: u128, numerator: u128, denominator: u128) -> (r: u128)
    requires
        denominator > 0,
        mul_div_floor(a as int, numerator as int, denominator as int) <= u128::MAX,
    ensures
        r == mul_div_floor(a as int, numerator as int, denominator as int),
{
    cosmwasm_std::Uint128::new(a).multiply_ratio(numerator, denominator).u128()
}

/// `floor(a * numerator / denominator)`, as `Uint128::multiply_ratio` computes it.
pub fn multiply_ratio(a: u128, numerator: u128, denominator: u128) -> (r: u128)
    requires
        denominator > 0,
        mul_div_floor(a as int, numerator as int, denominator as int) <= u128::MAX,
    ensures
        r == mul_div_floor(a as int, numerator as int, denominator as int),
{
    cw_multiply_ratio(a, numerator, denominator)
}

/// `ceil(a * numerator / denominator)`: `Uint128::multiply_ratio`, raised by
/// one where the division leaves a remainder.
pub fn multiply_ratio_ceil(a: u128, numerator: u128, denominator: u128) -> (r: u128)
    requires
        denominator > 0,
        mul_div_ceil(a as int, numerator as int, denominator as int) <= u128::MAX,
    ensures
        r == mul_div_ceil(a as int, numerator as int, denominator as int),
{
    let q = multiply_ratio(a, numerator, denominator);
    if mul_rem(a, numerator, denominator) == 0 {
        q
    } else {
        q + 1
    }
}

impl Decimal {
    /// The decimal with the given number of atomics (`atomics / 10^18`).
    pub fn raw(atomics: u128) -> (d: Decimal)
        ensures
            d.atomics == atomics,
    {
        Decimal { atomics }
    }

    pub fn zero() -> (d: Decimal)
        ensures
            d.atomics == 0,
    {
        Decimal { atomics: 0 }
    }

    pub fn one() -> (d: Decimal)
        ensures
            d.atomics == DECIMAL_FRACTIONAL,
    {
        Decimal { atomics: DECIMAL_FRACTIONAL }
    }

    pub fn is_zero(&self) -> (b: bool)
        ensures
            b == (self.atomics == 0),
    {
        self.atomics == 0
    }

    /// `numerator / denominator`, truncated to 18 fractional digits.
    pub fn from_ratio(numerator: u128, denominator: u128) -> (d: Decimal)
        requires
            denominator > 0,
            ratio_atomics(numerator as int, denominator as int) <= u128::MAX,
        ensures
            d.atomics == ratio_atomics(numerator as int, denominator as int),
    {
        Decimal { atomics: multiply_ratio(numerator, DECIMAL_FRACTIONAL, denominator) }
    }

    /// Sum of two decimals; the sum must fit.
    pub fn add(self, other: Decimal) -> (d: Decimal)
        requires
            self.atomics + other.atomics <= u128::MAX,
        ensures
            d.atomics == self.atomics + other.atomics,
    {
        Decimal { atomics: self.atomics + other.atomics }
    }

    /// Difference of two decimals; `other` must not exceed `self`.
    pub fn sub(self, other: Decimal) -> (d: Decimal)
        requires
            other.atomics <= self.atomics,
        ensures
            d.atomics == self.atomics - other.atomics,
    {
        Decimal { atomics: self.atomics - other.atomics }
    }

    /// `self - other`, or zero where `other` is the larger.
    pub fn saturating_sub(self, other: Decimal) -> (d: Decimal)
        ensures
            d.atomics == if other.atomics <= self.atomics { self.atomics - other.atomics } else { 0 },
    {
        if other.atomics <= self.atomics {
            Decimal { atomics: self.atomics - other.atomics }
        } else {
            Decimal { atomics: 0 }
        }
    }
}

/// `amount * d`, truncated (the `Uint128 * Decimal` product of cosmwasm-std).
pub fn mul_decimal(amount: u128, d: Decimal) -> (r: u128)
    requires
        mul_decimal_floor(amount as int, d) <= u128::MAX,
    ensures
        r == mul_decimal_floor(amount as int, d),
{
    if amount == 0 || d.atomics == 0 {
        proof {
            assert(amount * d.atomics == 0) by (nonlinear_arith)
                requires amount == 0 || d.atomics == 0;
        }
        0
    } else {
        multiply_ratio(amount, d.atomics, DECIMAL_FRACTIONAL)
    }
}

/// `other * d` with the remainder rounded half up; `Err` where the truncated
/// quotient leaves 128 bits.
pub fn rounded_checked_mul(d: Decimal, other: u128) -> (r: Result<u128, OverflowError>)
    requires
        !rounded_mul_round_up_overflows(d, other as int),
    ensures
        match r {
            Ok(v) => rounded_mul(d, other as int) == Some(v as int),
            Err(_) => rounded_mul(d, other as int) is None,
        },
{
    if d.atomics == 0 || other == 0 {
        proof {
            assert(other * d.atomics == 0) by (nonlinear_arith)
                requires other == 0 || d.atomics == 0;
        }
        return Ok(0);
    }
    let numerator = full_mul(other, d.atomics);
    let quotient = uint256_div(numerator, DECIMAL_FRACTIONAL);
    if quotient.hi != 0 {
        proof {
            assert(quotient.value() > u128::MAX) by (nonlinear_arith)
                requires quotient.hi >= 1, quotient.value() == quotient.hi * two_pow_128() + quotient.lo;
        }
        return Err(OverflowError {});
    }
    let mut result = quotient.lo;
    let rem = uint256_rem(numerator, DECIMAL_FRACTIONAL);
    if rem >= HALF_UNIT {
        result = result + 1;
    }
    Ok(result)
}


/// `floor(a * b / c)` where it fits in 128 bits, computed over 256 bits;
/// `None` where it does not fit.
pub fn checked_mul_div(a: u128, b: u128, c: u128) -> (r: Option<u128>)
    requires
        c > 0,
    ensures
        r == (if mul_div_floor(a as int, b as int, c as int) <= u128::MAX {
            Some(mul_div_floor(a as int, b as int, c as int) as u128)
        } else {
            None::<u128>
        }),
{
    let n = full_mul(a, b);
    let q = uint256_div(n, c);
    if q.hi != 0 {
        proof {
            assert(q.value() > u128::MAX) by (nonlinear_arith)
                requires q.hi >= 1, q.value() == q.hi * two_pow_128() + q.lo;
        }
        None
    } else {
        Some(q.lo)
    }
}

/// `ceil(a * b / c)` where it fits in 128 bits, computed over 256 bits;
/// `None` where it does not fit.
pub fn checked_mul_div_ceil(a: u128, b: u128, c: u128) -> (r: Option<u128>)
    requires
        c > 0,
    ensures
        r == (if mul_div_ceil(a as int, b as int, c as int) <= u128::MAX {
            Some(mul_div_ceil(a as int, b as int, c as int) as u128)
        } else {
            None::<u128>
        }),
{
    match checked_mul_div(a, b, c) {
        None => {
            proof {
                assert(a * b >= 0) by (nonlinear_arith)
                    requires a >= 0, b >= 0;
            }
            None
        },
        Some(q) => {
            if mul_rem(a, b, c) == 0 {
                Some(q)
            } else if q == u128::MAX {
                None
            } else {
                Some(q + 1)
            }
        },
    }
}

/// `(a * b) % c`, computed over 256 bits.
pub fn mul_rem(a: u128, b: u128, c: u128) -> (r: u128)
    requires
        c > 0,
    ensures
        r == (a * b) % (c as int),
{
    let n = full_mul(a, b);
    uint256_rem(n, c)
}

/// Whether the rounded product `other * d` can be taken: its rounding up
/// does not leave the 128-bit range.
pub fn rounded_mul_defined(d: Decimal, other: u128) -> (b: bool)
    ensures
        b == !rounded_mul_round_up_overflows(d, other as int),
{
    let n = full_mul(other, d.atomics);
    let q = uint256_div(n, DECIMAL_FRACTIONAL);
    if q.hi != 0 || q.lo != u128::MAX {
        proof {
            if q.hi != 0 {
                assert(q.value() > u128::MAX) by (nonlinear_arith)
                    requires q.hi >= 1, q.value() == q.hi * two_pow_128() + q.lo;
            }
        }
        return true;
    }
    let rem = uint256_rem(n, DECIMAL_FRACTIONAL);
    rem < HALF_UNIT
}

/// Truncating two parts of a product never gives more than truncating it whole.
pub proof fn lemma_floor_split(a: int, b: int, x: int, d: int)
    requires
        a >= 0,
        b >= 0,
        x >= 0,
        d > 0,
    ensures
        (a * x) / d + (b * x) / d <= ((a + b) * x) / d,
{
    vstd::arithmetic::div_mod::lemma_fundamental_div_mod(a * x, d);
    vstd::arithmetic::div_mod::lemma_fundamental_div_mod(b * x, d);
    assert((a + b) * x == a * x + b * x) by (nonlinear_arith);
    assert(a * x >= 0 && b * x >= 0) by (nonlinear_arith)
        requires a >= 0, b >= 0, x >= 0;
    let q = (a * x) / d + (b * x) / d;
    assert(d * q <= (a + b) * x) by (nonlinear_arith)
        requires
            a * x == d * ((a * x) / d) + (a * x) % d,
            b * x == d * ((b * x) / d) + (b * x) % d,
            (a * x) % d >= 0,
            (b * x) % d >= 0,
            (a + b) * x == a * x + b * x,
            q == (a * x) / d + (b * x) / d;
    vstd::arithmetic::div_mod::lemma_div_multiples_vanish(q, d);
    vstd::arithmetic::div_mod::lemma_div_is_ordered(d * q, (a + b) * x, d);
}

/// Raising an index of `i` by `floor(r * f / t)` (the share of `r` per unit
/// of `t`, scaled by `f`) credits a holder of `b` units, truncated to whole
/// tokens, less than `b * r / t + 1`.
pub proof fn lemma_index_growth_share(b: int, i: int, r: int, t: int, f: int)
    requires
        b >= 0,
        i >= 0,
        r >= 0,
        t > 0,
        f > 0,
    ensures
        ((b * (i + (r * f) / t)) / f - (b * i) / f) * t < b * r + t,
{
    let g = (r * f) / t;
    assert(r * f >= 0) by (nonlinear_arith)
        requires r >= 0, f > 0;
    vstd::arithmetic::div_mod::lemma_fundamental_div_mod(r * f, t);
    vstd::arithmetic::div_mod::lemma_mod_pos_bound(r * f, t);
    vstd::arithmetic::div_mod::lemma_div_pos_is_pos(r * f, t);
    assert(g * t <= r * f) by (nonlinear_arith)
        requires r * f == t * g + (r * f) % t, (r * f) % t >= 0;
    let x = b * i;
    let y = b * g;
    assert(x >= 0 && y >= 0) by (nonlinear_arith)
        requires b >= 0, i >= 0, g >= 0, x == b * i, y == b * g;
    assert(b * (i + g) == x + y) by (nonlinear_arith)
        requires x == b * i, y == b * g;
    vstd::arithmetic::div_mod::lemma_fundamental_div_mod(x, f);
    vstd::arithmetic::div_mod::lemma_mod_pos_bound(x, f);
    vstd::arithmetic::div_mod::lemma_fundamental_div_mod(x + y, f);
    vstd::arithmetic::div_mod::lemma_mod_pos_bound(x + y, f);
    let dd = (x + y) / f - x / f;
    assert(dd * f < y + f) by (nonlinear_arith)
        requires
            x == f * (x / f) + x % f,
            x + y == f * ((x + y) / f) + (x + y) % f,
            0 <= x % f < f,
            0 <= (x + y) % f < f,
            dd == (x + y) / f - x / f;
    assert(y * t <= b * r * f) by (nonlinear_arith)
        requires y == b * g, g * t <= r * f, b >= 0;
    assert(dd * t * f < (b * r + t) * f) by (nonlinear_arith)
        requires dd * f < y + f, y * t <= b * r * f, t > 0;
    assert(dd * t < b * r + t) by (nonlinear_arith)
        requires dd * t * f < (b * r + t) * f, f > 0;
}

/// Rounding half up is truncating after adding half a unit.
pub proof fn lemma_rounded_product_is_shifted_floor(d: Decimal, other: int)
    requires
        other >= 0,
    ensures
        rounded_product(d, other) == (scaled_product(d, other) + HALF_UNIT) / (DECIMAL_FRACTIONAL as int),
{
    let n = scaled_product(d, other);
    let dd = DECIMAL_FRACTIONAL as int;
    assert(n >= 0) by (nonlinear_arith)
        requires n == other * d.atomics, other >= 0, d.atomics >= 0;
    vstd::arithmetic::div_mod::lemma_fundamental_div_mod(n, dd);
    let q = n / dd;
    let r = n % dd;
    if r >= HALF_UNIT as int {
        vstd::arithmetic::div_mod::lemma_fundamental_div_mod_converse(n + HALF_UNIT, dd, q + 1, r + HALF_UNIT - dd);
    } else {
        vstd::arithmetic::div_mod::lemma_fundamental_div_mod_converse(n + HALF_UNIT, dd, q, r + HALF_UNIT);
    }
}

/// The rounded product grows with the factor, and so does its truncated
/// quotient, so a larger factor that does not overflow means a smaller one
/// does not either.
pub proof fn lemma_rounded_product_monotone(d: Decimal, x: int, y: int)
    requires
        0 <= x <= y,
    ensures
        rounded_product(d, x) <= rounded_product(d, y),
        rounded_mul_overflows(d, x) ==> rounded_mul_overflows(d, y),
{
    let dd = DECIMAL_FRACTIONAL as int;
    assert(scaled_product(d, x) <= scaled_product(d, y)) by (nonlinear_arith)
        requires 0 <= x <= y, d.atomics >= 0;
    lemma_rounded_product_is_shifted_floor(d, x);
    lemma_rounded_product_is_shifted_floor(d, y);
    vstd::arithmetic::div_mod::lemma_div_is_ordered(
        scaled_product(d, x) + HALF_UNIT,
        scaled_product(d, y) + HALF_UNIT,
        dd,
    );
    vstd::arithmetic::div_mod::lemma_div_is_ordered(scaled_product(d, x), scaled_product(d, y), dd);
}

} // verus!
