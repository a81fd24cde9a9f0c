//! Fixed-point numbers with eighteen decimal places and parts-per-million
//! ratios.
//!
//! Both fixed-point types keep their value as an integer count of
//! `10^-18` units. Addition and subtraction are plain integer arithmetic;
//! multiplication and division need a 256-bit intermediate value and are
//! delegated to `sp-arithmetic`.

use vstd::prelude::*;

verus! {

/// The inner value that stands for the number one in both fixed-point types.
pub const ACCURACY: u128 = 1_000_000_000_000_000_000;

/// The number of parts that make a whole `Permill`.
pub const PERMILL_ACCURACY: u32 = 1_000_000;

/// Inner value of a `FixedU128` that equals one part per million.
pub const PERMILL_UNIT: u128 = 1_000_000_000_000;

/// Quotient of `n` by `d`, rounded toward zero.
pub open spec fn truncating_quotient(n: int, d: int) -> int
    recommends
        d != 0,
{
    if n >= 0 && d > 0 {
        n / d
    } else if n < 0 && d > 0 {
        -((-n) / d)
    } else if n >= 0 && d < 0 {
        -(n / (-d))
    } else {
        (-n) / (-d)
    }
}

/// Product of two signed inner values, rescaled and rounded toward zero;
/// `None` when it does not fit.
pub open spec fn signed_product(a: i128, b: i128) -> Option<i128> {
    let q = truncating_quotient(a * b, ACCURACY as int);
    if i128::MIN <= q <= i128::MAX {
        Some(q as i128)
    } else {
        None
    }
}

/// Quotient of two signed inner values, rescaled and rounded toward zero;
/// `None` when the divisor is zero or the quotient does not fit.
pub open spec fn signed_quotient(a: i128, b: i128) -> Option<i128> {
    if b == 0 {
        None
    } else {
        let q = truncating_quotient(a * ACCURACY, b as int);
        if i128::MIN <= q <= i128::MAX {
            Some(q as i128)
        } else {
            None
        }
    }
}

/// Product of two unsigned inner values, rescaled and rounded down; `None`
/// when it does not fit.
pub open spec fn unsigned_product(a: u128, b: u128) -> Option<u128> {
    let q = (a * b) / (ACCURACY as int);
    if q <= u128::MAX {
        Some(q as u128)
    } else {
        None
    }
}

/// Quotient of two unsigned inner values, rescaled and rounded down; `None`
/// when the divisor is zero or the quotient does not fit.
pub open spec fn unsigned_quotient(a: u128, b: u128) -> Option<u128> {
    if b == 0 {
        None
    } else {
        let q = (a * ACCURACY) / (b as int);
        if q <= u128::MAX {
            Some(q as u128)
        } else {
            None
        }
    }
}

/// `sp_arithmetic::FixedI128::checked_mul` on inner values: the exact
/// product divided by `10^18`, rounded toward zero, or `None` when that
/// is outside `i128`.
#[verifier::external_body]
fn fixed_i128_checked_mul(a: i128, b: i128) -> (r: Option<i128>)
    ensures
        r == signed_product(a, b),
{
    let lhs = sp_arithmetic::FixedI128::from_inner(a);
    let rhs = sp_arithmetic::FixedI128::from_inner(b);
    sp_arithmetic::traits::CheckedMul::checked_mul(&lhs, &rhs).map(|v| v.into_inner())
}

/// `sp_arithmetic::FixedI128::checked_div` on inner values: the dividend
/// times `10^18` divided by the divisor, rounded toward zero, or `None`
/// when the divisor is zero or the result is outside `i128`.
#[verifier::external_body]
fn fixed_i128_checked_div(a: i128, b: i128) -> (r: Option<i128>)
    ensures
        r == signed_quotient(a, b),
{
    let lhs = sp_arithmetic::FixedI128::from_inner(a);
    let rhs = sp_arithmetic::FixedI128::from_inner(b);
    sp_arithmetic::traits::CheckedDiv::checked_div(&lhs, &rhs).map(|v| v.into_inner())
}

/// `sp_arithmetic::FixedU128::checked_mul` on inner values: the exact
/// product divided by `10^18`, rounded down, or `None` when that is
/// outside `u128`.
#[verifier::external_body]
fn fixed_u128_checked_mul(a: u128, b: u128) -> (r: Option<u128>)
    ensures
        r == unsigned_product(a, b),
{
    let lhs = sp_arithmetic::FixedU128::from_inner(a);
    let rhs = sp_arithmetic::FixedU128::from_inner(b);
    sp_arithmetic::traits::CheckedMul::checked_mul(&lhs, &rhs).map(|v| v.into_inner())
}

/// `sp_arithmetic::FixedU128::checked_div` on inner values: the dividend
/// times `10^18` divided by the divisor, rounded down, or `None` when the
/// divisor is zero or the result is outside `u128`.
#[verifier::external_body]
fn fixed_u128_checked_div(a: u128, b: u128) -> (r: Option<u128>)
    ensures
        r == unsigned_quotient(a, b),
{
    let lhs = sp_arithmetic::FixedU128::from_inner(a);
    let rhs = sp_arithmetic::FixedU128::from_inner(b);
    sp_arithmetic::traits::CheckedDiv::checked_div(&lhs, &rhs).map(|v| v.into_inner())
}

/// A ratio in parts per million, between zero and one inclusive.
#[derive(Clone, Copy, Debug, PartialEq, Eq, Structural)]
pub struct Permill {
    pub parts: u32,
}

impl Permill {
    /// A ratio never exceeds one whole.
    pub open spec fn wf(self) -> bool {
        self.parts <= PERMILL_ACCURACY
    }

    pub fn zero() -> (r: Permill)
        ensures
            r.parts == 0,
            r.wf(),
    {
        Permill { parts: 0 }
    }

    pub fn one() -> (r: Permill)
        ensures
            r.parts == PERMILL_ACCURACY,
            r.wf(),
    {
        Permill { parts: PERMILL_ACCURACY }
    }

    /// Builds a ratio from its parts, capped at one whole.
    pub fn from_parts(parts: u32) -> (r: Permill)
        ensures
            r.wf(),
            r.parts == if parts <= PERMILL_ACCURACY {
                parts
            } else {
                PERMILL_ACCURACY
            },
    {
        if parts <= PERMILL_ACCURACY {
            Permill { parts }
        } else {
            Permill { parts: PERMILL_ACCURACY }
        }
    }

    /// Builds a ratio from whole percent, capped at one hundred.
    pub fn from_percent(percent: u32) -> (r: Permill)
        ensures
            r.wf(),
            r.parts == if percent <= 100 {
                percent * 10_000
            } else {
                PERMILL_ACCURACY as int
            },
    {
        if percent <= 100 {
            Permill { parts: percent * 10_000 }
        } else {
            Permill { parts: PERMILL_ACCURACY }
        }
    }

    pub fn deconstruct(self) -> (r: u32)
        ensures
            r == self.parts,
    {
        self.parts
    }
}

/// Unsigned fixed-point number, used for prices and rates.
#[derive(Clone, Copy, Debug, PartialEq, Eq, Structural)]
pub struct FixedU128 {
    pub inner: u128,
}

impl FixedU128 {
    pub open spec fn spec_from_permill(p: Permill) -> FixedU128 {
        FixedU128 { inner: (p.parts * PERMILL_UNIT) as u128 }
    }

    pub open spec fn spec_saturating_add(self, rhs: FixedU128) -> FixedU128 {
        if self.inner + rhs.inner > u128::MAX {
            FixedU128 { inner: u128::MAX }
        } else {
            FixedU128 { inner: (self.inner + rhs.inner) as u128 }
        }
    }

    pub open spec fn spec_saturating_sub(self, rhs: FixedU128) -> FixedU128 {
        if self.inner < rhs.inner {
            FixedU128 { inner: 0 }
        } else {
            FixedU128 { inner: (self.inner - rhs.inner) as u128 }
        }
    }

    pub open spec fn spec_checked_mul(self, rhs: FixedU128) -> Option<FixedU128> {
        match unsigned_product(self.inner, rhs.inner) {
            Some(q) => Some(FixedU128 { inner: q }),
            None => None,
        }
    }

    pub open spec fn spec_saturating_mul(self, rhs: FixedU128) -> FixedU128 {
        match unsigned_product(self.inner, rhs.inner) {
            Some(q) => FixedU128 { inner: q },
            None => FixedU128 { inner: u128::MAX },
        }
    }

    pub open spec fn spec_checked_div(self, rhs: FixedU128) -> Option<FixedU128> {
        match unsigned_quotient(self.inner, rhs.inner) {
            Some(q) => Some(FixedU128 { inner: q }),
            None => None,
        }
    }

    pub fn zero() -> (r: FixedU128)
        ensures
            r.inner == 0,
    {
        FixedU128 { inner: 0 }
    }

    pub fn max_value() -> (r: FixedU128)
        ensures
            r.inner == u128::MAX,
    {
        FixedU128 { inner: u128::MAX }
    }

    pub fn from_parts(parts: u128) -> (r: FixedU128)
        ensures
            r.inner == parts,
    {
        FixedU128 { inner: parts }
    }

    pub fn deconstruct(self) -> (r: u128)
        ensures
            r == self.inner,
    {
        self.inner
    }

    /// The whole number `n`, capped at the largest representable value.
    pub fn from_natural(n: u128) -> (r: FixedU128)
        ensures
            r.inner == if n * ACCURACY <= u128::MAX {
                n * ACCURACY
            } else {
                u128::MAX as int
            },
    {
        match n.checked_mul(ACCURACY) {
            Some(v) => FixedU128 { inner: v },
            None => FixedU128 { inner: u128::MAX },
        }
    }

    /// The ratio `n / d`, rounded down; `None` when `d` is zero or the
    /// ratio is too large.
    pub fn checked_from_rational(n: u128, d: u128) -> (r: Option<FixedU128>)
        ensures
            r == (FixedU128 { inner: n }).spec_checked_div(FixedU128 { inner: d }),
    {
        match fixed_u128_checked_div(n, d) {
            Some(q) => Some(FixedU128 { inner: q }),
            None => None,
        }
    }

    /// The ratio `p` as a fixed-point number; always exact.
    pub fn from_permill(p: Permill) -> (r: FixedU128)
        ensures
            r == Self::spec_from_permill(p),
    {
        let parts: u128 = p.parts as u128;
        assert(parts * PERMILL_UNIT <= u128::MAX) by (nonlinear_arith)
            requires
                parts <= u32::MAX,
                PERMILL_UNIT == 1_000_000_000_000,
        ;
        FixedU128 { inner: parts * PERMILL_UNIT }
    }

    pub fn saturating_add(self, rhs: FixedU128) -> (r: FixedU128)
        ensures
            r == self.spec_saturating_add(rhs),
    {
        FixedU128 { inner: self.inner.saturating_add(rhs.inner) }
    }

    pub fn saturating_sub(self, rhs: FixedU128) -> (r: FixedU128)
        ensures
            r == self.spec_saturating_sub(rhs),
    {
        FixedU128 { inner: self.inner.saturating_sub(rhs.inner) }
    }

    pub fn checked_mul(&self, rhs: &FixedU128) -> (r: Option<FixedU128>)
        ensures
            r == self.spec_checked_mul(*rhs),
    {
        match fixed_u128_checked_mul(self.inner, rhs.inner) {
            Some(q) => Some(FixedU128 { inner: q }),
            None => None,
        }
    }

    pub fn saturating_mul(self, rhs: FixedU128) -> (r: FixedU128)
        ensures
            r == self.spec_saturating_mul(rhs),
    {
        match fixed_u128_checked_mul(self.inner, rhs.inner) {
            Some(q) => FixedU128 { inner: q },
            None => FixedU128 { inner: u128::MAX },
        }
    }

    pub fn checked_div(&self, rhs: &FixedU128) -> (r: Option<FixedU128>)
        ensures
            r == self.spec_checked_div(*rhs),
    {
        match fixed_u128_checked_div(self.inner, rhs.inner) {
            Some(q) => Some(FixedU128 { inner: q }),
            None => None,
        }
    }

    pub fn gt(&self, rhs: &FixedU128) -> (r: bool)
        ensures
            r == (self.inner > rhs.inner),
    {
        self.inner > rhs.inner
    }
}

/// Signed fixed-point number, used for balances, profit and loss.
#[derive(Clone, Copy, Debug, PartialEq, Eq, Structural)]
pub struct Fixed128 {
    pub inner: i128,
}

impl Fixed128 {
    pub open spec fn spec_zero() -> Fixed128 {
        Fixed128 { inner: 0 }
    }

    pub open spec fn spec_max_value() -> Fixed128 {
        Fixed128 { inner: i128::MAX }
    }

    pub open spec fn spec_checked_add(self, rhs: Fixed128) -> Option<Fixed128> {
        if i128::MIN <= self.inner + rhs.inner <= i128::MAX {
            Some(Fixed128 { inner: (self.inner + rhs.inner) as i128 })
        } else {
            None
        }
    }

    pub open spec fn spec_checked_sub(self, rhs: Fixed128) -> Option<Fixed128> {
        if i128::MIN <= self.inner - rhs.inner <= i128::MAX {
            Some(Fixed128 { inner: (self.inner - rhs.inner) as i128 })
        } else {
            None
        }
    }

    pub open spec fn spec_checked_mul(self, rhs: Fixed128) -> Option<Fixed128> {
        match signed_product(self.inner, rhs.inner) {
            Some(q) => Some(Fixed128 { inner: q }),
            None => None,
        }
    }

    pub open spec fn spec_checked_div(self, rhs: Fixed128) -> Option<Fixed128> {
        match signed_quotient(self.inner, rhs.inner) {
            Some(q) => Some(Fixed128 { inner: q }),
            None => None,
        }
    }

    pub open spec fn spec_checked_abs(self) -> Option<Fixed128> {
        if self.inner == i128::MIN {
            None
        } else if self.inner < 0 {
            Some(Fixed128 { inner: (-self.inner) as i128 })
        } else {
            Some(self)
        }
    }

    /// The unsigned inner value `v` read as a signed number; `None` when it
    /// is too large.
    pub open spec fn spec_from_unsigned(v: u128) -> Option<Fixed128> {
        if v <= i128::MAX {
            Some(Fixed128 { inner: v as i128 })
        } else {
            None
        }
    }

    pub fn zero() -> (r: Fixed128)
        ensures
            r == Self::spec_zero(),
    {
        Fixed128 { inner: 0 }
    }

    pub fn max_value() -> (r: Fixed128)
        ensures
            r == Self::spec_max_value(),
    {
        Fixed128 { inner: i128::MAX }
    }

    pub fn from_parts(parts: i128) -> (r: Fixed128)
        ensures
            r.inner == parts,
    {
        Fixed128 { inner: parts }
    }

    pub fn deconstruct(self) -> (r: i128)
        ensures
            r == self.inner,
    {
        self.inner
    }

    /// The whole number `n`, capped at the bounds of the type.
    pub fn from_natural(n: i128) -> (r: Fixed128)
        ensures
            r.inner == if n * ACCURACY > i128::MAX {
                i128::MAX as int
            } else if n * ACCURACY < i128::MIN {
                i128::MIN as int
            } else {
                n * ACCURACY
            },
    {
        let unit: i128 = 1_000_000_000_000_000_000;
        match n.checked_mul(unit) {
            Some(v) => Fixed128 { inner: v },
            None => {
                assert(n != 0);
                if n > 0 {
                    assert(n * ACCURACY > i128::MAX);
                    Fixed128 { inner: i128::MAX }
                } else {
                    assert(n * ACCURACY < i128::MIN) by (nonlinear_arith)
                        requires
                            n < 0,
                            ACCURACY == 1_000_000_000_000_000_000,
                            !(i128::MIN <= n * 1_000_000_000_000_000_000 <= i128::MAX),
                    ;
                    Fixed128 { inner: i128::MIN }
                }
            },
        }
    }

    /// Reads an unsigned inner value as a signed number; `None` when it is
    /// too large.
    pub fn checked_from_unsigned(v: u128) -> (r: Option<Fixed128>)
        ensures
            r == Self::spec_from_unsigned(v),
    {
        if v <= 170_141_183_460_469_231_731_687_303_715_884_105_727u128 {
            Some(Fixed128 { inner: v as i128 })
        } else {
            None
        }
    }

    pub fn checked_add(&self, rhs: &Fixed128) -> (r: Option<Fixed128>)
        ensures
            r == self.spec_checked_add(*rhs),
    {
        match self.inner.checked_add(rhs.inner) {
            Some(v) => Some(Fixed128 { inner: v }),
            None => None,
        }
    }

    pub fn checked_sub(&self, rhs: &Fixed128) -> (r: Option<Fixed128>)
        ensures
            r == self.spec_checked_sub(*rhs),
    {
        match self.inner.checked_sub(rhs.inner) {
            Some(v) => Some(Fixed128 { inner: v }),
            None => None,
        }
    }

    pub fn checked_mul(&self, rhs: &Fixed128) -> (r: Option<Fixed128>)
        ensures
            r == self.spec_checked_mul(*rhs),
    {
        match fixed_i128_checked_mul(self.inner, rhs.inner) {
            Some(q) => Some(Fixed128 { inner: q }),
            None => None,
        }
    }

    pub fn checked_div(&self, rhs: &Fixed128) -> (r: Option<Fixed128>)
        ensures
            r == self.spec_checked_div(*rhs),
    {
        match fixed_i128_checked_div(self.inner, rhs.inner) {
            Some(q) => Some(Fixed128 { inner: q }),
            None => None,
        }
    }

    /// Absolute value; `None` for the one value whose negation does not fit.
    pub fn checked_abs(self) -> (r: Option<Fixed128>)
        ensures
            r == self.spec_checked_abs(),
    {
        if self.inner == i128::MIN {
            None
        } else if self.inner < 0 {
            Some(Fixed128 { inner: -self.inner })
        } else {
            Some(self)
        }
    }

    /// Absolute value, capped at the largest representable value.
    pub fn saturating_abs(self) -> (r: Fixed128)
        ensures
            r.inner == if self.inner == i128::MIN {
                i128::MAX as int
            } else if self.inner < 0 {
                -self.inner
            } else {
                self.inner as int
            },
    {
        if self.inner == i128::MIN {
            Fixed128 { inner: i128::MAX }
        } else if self.inner < 0 {
            Fixed128 { inner: -self.inner }
        } else {
            self
        }
    }

    pub fn is_zero(&self) -> (r: bool)
        ensures
            r == (self.inner == 0),
    {
        self.inner == 0
    }

    pub fn is_positive(&self) -> (r: bool)
        ensures
            r == (self.inner > 0),
    {
        self.inner > 0
    }

    pub fn is_negative(&self) -> (r: bool)
        ensures
            r == (self.inner < 0),
    {
        self.inner < 0
    }

    pub fn le(&self, rhs: &Fixed128) -> (r: bool)
        ensures
            r == (self.inner <= rhs.inner),
    {
        self.inner <= rhs.inner
    }

    pub fn gt(&self, rhs: &Fixed128) -> (r: bool)
        ensures
            r == (self.inner > rhs.inner),
    {
        self.inner > rhs.inner
    }
}

} // verus!
