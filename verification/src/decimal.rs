//! Fixed-point decimal numbers as the database layer sees them: a signed
//! 96-bit mantissa and a scale between 0 and 28, so that the number is
//! `mantissa / 10^scale`.  Comparisons and arithmetic are delegated to
//! `rust_decimal`.
use rust_decimal::Decimal;
use vstd::prelude::*;
use vstd::std_specs::cmp::PartialEqSpecImpl;

verus! {

/// Largest magnitude of a mantissa (96 bits).
pub const MAX_MANTISSA: i128 = 0xFFFF_FFFF_FFFF_FFFF_FFFF_FFFFi128;

/// Largest scale (number of fractional digits).
pub const MAX_SCALE: u32 = 28u32;

#[verifier::external_type_specification]
#[verifier::external_body]
pub struct ExDecimal(Decimal);

/// A decimal number `mantissa / 10^scale`.
#[derive(Clone, Copy, Debug)]
pub struct Dec {
    mantissa: i128,
    scale: u32,
}

/// `10^n`.
pub open spec fn pow10(n: nat) -> int
    decreases n,
{
    if n == 0 {
        1
    } else {
        10 * pow10((n - 1) as nat)
    }
}

/// The pair `(mantissa, scale)` can be held by a decimal.
pub open spec fn parts_valid(p: (int, int)) -> bool {
    &&& 0 <= p.1 <= 28
    &&& -MAX_MANTISSA <= p.0 <= MAX_MANTISSA
}

/// The number denoted by `a` is smaller than the one denoted by `b`.
pub open spec fn value_lt(a: (int, int), b: (int, int)) -> bool {
    a.0 * pow10(b.1 as nat) < b.0 * pow10(a.1 as nat)
}

/// `a` and `b` denote the same number.
pub open spec fn value_eq(a: (int, int), b: (int, int)) -> bool {
    a.0 * pow10(b.1 as nat) == b.0 * pow10(a.1 as nat)
}

/// The number denoted by `a` is at most the one denoted by `b`.
pub open spec fn value_le(a: (int, int), b: (int, int)) -> bool {
    !value_lt(b, a)
}

/// The parts of an optional decimal.
pub open spec fn opt_parts(d: Option<Dec>) -> Option<(int, int)> {
    match d {
        Some(x) => Some(x@),
        None => None,
    }
}

/// What `Decimal::checked_add` returns for two decimals, by their parts.
pub uninterp spec fn decimal_checked_add(a: (int, int), b: (int, int)) -> Option<(int, int)>;

/// What `Decimal::checked_sub` returns for two decimals, by their parts.
pub uninterp spec fn decimal_checked_sub(a: (int, int), b: (int, int)) -> Option<(int, int)>;

/// What `Decimal::checked_mul` returns for two decimals, by their parts.
pub uninterp spec fn decimal_checked_mul(a: (int, int), b: (int, int)) -> Option<(int, int)>;

/// What `Decimal::checked_div` returns for two decimals, by their parts.
pub uninterp spec fn decimal_checked_div(a: (int, int), b: (int, int)) -> Option<(int, int)>;

impl View for Dec {
    type V = (int, int);

    closed spec fn view(&self) -> (int, int) {
        (self.mantissa as int, self.scale as int)
    }
}

impl Dec {
    #[verifier::type_invariant]
    spec fn well_formed(self) -> bool {
        &&& self.scale <= MAX_SCALE
        &&& -MAX_MANTISSA <= self.mantissa <= MAX_MANTISSA
    }

    /// `num / 10^scale`.
    pub fn new(num: i64, scale: u32) -> (d: Dec)
        requires
            scale <= 28,
        ensures
            d@ == (num as int, scale as int),
    {
        proof {
            assert(-MAX_MANTISSA <= num as i128 <= MAX_MANTISSA);
        }
        Dec { mantissa: num as i128, scale }
    }

    /// The whole number `num`.
    pub fn from_int(num: i64) -> (d: Dec)
        ensures
            d@ == (num as int, 0int),
    {
        Dec::new(num, 0)
    }

    /// Zero.
    pub fn zero() -> (d: Dec)
        ensures
            d@ == (0int, 0int),
    {
        Dec::new(0, 0)
    }

    /// The decimal with the given parts, where they are in range.
    pub fn from_parts(mantissa: i128, scale: u32) -> (d: Option<Dec>)
        ensures
            d is Some <==> parts_valid((mantissa as int, scale as int)),
            d is Some ==> d->0@ == (mantissa as int, scale as int),
    {
        if scale <= MAX_SCALE && -MAX_MANTISSA <= mantissa && mantissa <= MAX_MANTISSA {
            Some(Dec { mantissa, scale })
        } else {
            None
        }
    }

    /// The mantissa.
    pub fn mantissa(&self) -> (m: i128)
        ensures
            m == self@.0,
            parts_valid(self@),
    {
        proof {
            use_type_invariant(self);
        }
        self.mantissa
    }

    /// The scale.
    pub fn scale(&self) -> (s: u32)
        ensures
            s == self@.1,
            parts_valid(self@),
    {
        proof {
            use_type_invariant(self);
        }
        self.scale
    }

    /// The absolute value (same scale).
    pub fn abs(&self) -> (d: Dec)
        ensures
            d@ == (if self@.0 < 0 { -self@.0 } else { self@.0 }, self@.1),
    {
        proof {
            use_type_invariant(self);
        }
        if self.mantissa < 0 {
            Dec { mantissa: -self.mantissa, scale: self.scale }
        } else {
            *self
        }
    }

    /// The number is below zero.
    pub fn is_negative(&self) -> (b: bool)
        ensures
            b == (self@.0 < 0),
    {
        self.mantissa < 0
    }

    /// The number is above zero.
    pub fn is_positive(&self) -> (b: bool)
        ensures
            b == (self@.0 > 0),
    {
        self.mantissa > 0
    }

    /// The number is zero.
    pub fn is_zero(&self) -> (b: bool)
        ensures
            b == (self@.0 == 0),
    {
        self.mantissa == 0
    }

    /// `self < other` by value.
    pub fn lt(&self, other: &Dec) -> (b: bool)
        ensures
            b == value_lt(self@, other@),
    {
        decimal_lt(self, other)
    }

    /// `self <= other` by value.
    pub fn le(&self, other: &Dec) -> (b: bool)
        ensures
            b == value_le(self@, other@),
    {
        !decimal_lt(other, self)
    }

    /// `self + other`, or `None` where `rust_decimal` reports an overflow.
    pub fn checked_add(&self, other: &Dec) -> (r: Option<Dec>)
        ensures
            opt_parts(r) == decimal_checked_add(self@, other@),
    {
        decimal_add(self, other)
    }

    /// `self - other`, or `None` where `rust_decimal` reports an overflow.
    pub fn checked_sub(&self, other: &Dec) -> (r: Option<Dec>)
        ensures
            opt_parts(r) == decimal_checked_sub(self@, other@),
    {
        decimal_sub(self, other)
    }

    /// `self * other`, or `None` where `rust_decimal` reports an overflow.
    pub fn checked_mul(&self, other: &Dec) -> (r: Option<Dec>)
        ensures
            opt_parts(r) == decimal_checked_mul(self@, other@),
    {
        decimal_mul(self, other)
    }

    /// `self / other`, or `None` on division by zero or overflow.
    pub fn checked_div(&self, other: &Dec) -> (r: Option<Dec>)
        ensures
            opt_parts(r) == decimal_checked_div(self@, other@),
            other@.0 == 0 ==> r is None,
    {
        decimal_div(self, other)
    }
}

/// Calls `<` of `rust_decimal::Decimal` (`PartialOrd::lt`): the comparison of the two
/// numbers by value, whatever their scales.
#[verifier::external_body]
fn decimal_lt(a: &Dec, b: &Dec) -> (r: bool)
    ensures
        r == value_lt(a@, b@),
{
    Decimal::from_i128_with_scale(a.mantissa, a.scale) < Decimal::from_i128_with_scale(
        b.mantissa,
        b.scale,
    )
}

/// Calls `Decimal::checked_add`; its result, by parts, is named `decimal_checked_add`.
#[verifier::external_body]
fn decimal_add(a: &Dec, b: &Dec) -> (r: Option<Dec>)
    ensures
        opt_parts(r) == decimal_checked_add(a@, b@),
{
    let x = Decimal::from_i128_with_scale(a.mantissa, a.scale);
    let y = Decimal::from_i128_with_scale(b.mantissa, b.scale);
    match x.checked_add(y) {
        Some(z) => Some(Dec { mantissa: z.mantissa(), scale: z.scale() }),
        None => None,
    }
}

/// Calls `Decimal::checked_sub`; its result, by parts, is named `decimal_checked_sub`.
#[verifier::external_body]
fn decimal_sub(a: &Dec, b: &Dec) -> (r: Option<Dec>)
    ensures
        opt_parts(r) == decimal_checked_sub(a@, b@),
{
    let x = Decimal::from_i128_with_scale(a.mantissa, a.scale);
    let y = Decimal::from_i128_with_scale(b.mantissa, b.scale);
    match x.checked_sub(y) {
        Some(z) => Some(Dec { mantissa: z.mantissa(), scale: z.scale() }),
        None => None,
    }
}

/// Calls `Decimal::checked_mul`; its result, by parts, is named `decimal_checked_mul`.
#[verifier::external_body]
fn decimal_mul(a: &Dec, b: &Dec) -> (r: Option<Dec>)
    ensures
        opt_parts(r) == decimal_checked_mul(a@, b@),
{
    let x = Decimal::from_i128_with_scale(a.mantissa, a.scale);
    let y = Decimal::from_i128_with_scale(b.mantissa, b.scale);
    match x.checked_mul(y) {
        Some(z) => Some(Dec { mantissa: z.mantissa(), scale: z.scale() }),
        None => None,
    }
}

/// Calls `Decimal::checked_div`; its result, by parts, is named `decimal_checked_div`.
/// The source returns `None` for a zero divisor (`CalculationResult::DivByZero`).
#[verifier::external_body]
fn decimal_div(a: &Dec, b: &Dec) -> (r: Option<Dec>)
    ensures
        opt_parts(r) == decimal_checked_div(a@, b@),
        b@.0 == 0 ==> r is None,
{
    let x = Decimal::from_i128_with_scale(a.mantissa, a.scale);
    let y = Decimal::from_i128_with_scale(b.mantissa, b.scale);
    match x.checked_div(y) {
        Some(z) => Some(Dec { mantissa: z.mantissa(), scale: z.scale() }),
        None => None,
    }
}

impl PartialEq for Dec {
    fn eq(&self, other: &Dec) -> (r: bool) {
        !decimal_lt(self, other) && !decimal_lt(other, self)
    }
}

impl PartialEqSpecImpl for Dec {
    open spec fn obeys_eq_spec() -> bool {
        true
    }

    open spec fn eq_spec(&self, other: &Dec) -> bool {
        value_eq(self@, other@)
    }
}

} // verus!
