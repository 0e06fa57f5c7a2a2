//! A unit of money.
//!
//! A number with two decimals of precision, internally represented as an
//! `i32` counting hundredths of a unit. The stored integer is the sole
//! source of truth: the whole part is the value divided by 100 truncating
//! toward zero, the fractional part is the remainder and carries the
//! value's sign.

use vstd::prelude::*;
use vstd::std_specs::convert::FromSpecImpl;
use vstd::std_specs::ops::{AddSpec, SubSpec};
use core::cmp::Ordering;
use crate::display::{render, spec_display};
use crate::errors::CurrencyParseError;
use crate::parse::{parse_str, spec_parse};

verus! {

/// The whole part of the hundredths value `v`: division by 100 truncating
/// toward zero.
pub open spec fn whole_of(v: int) -> int {
    if v >= 0 {
        v / 100
    } else {
        -((-v) / 100)
    }
}

/// The fractional part of the hundredths value `v`: the remainder of the
/// truncating division, with the sign of `v`.
pub open spec fn frac_of(v: int) -> int {
    if v >= 0 {
        v % 100
    } else {
        -((-v) % 100)
    }
}

pub proof fn lemma_whole_frac(v: int)
    ensures
        v == whole_of(v) * 100 + frac_of(v),
        -100 < frac_of(v) < 100,
        v >= 0 ==> whole_of(v) >= 0 && frac_of(v) >= 0,
        v < 0 ==> whole_of(v) <= 0 && frac_of(v) <= 0,
{
    if v >= 0 {
        vstd::arithmetic::div_mod::lemma_fundamental_div_mod(v, 100);
    } else {
        vstd::arithmetic::div_mod::lemma_fundamental_div_mod(-v, 100);
    }
}

/// A unit of money: a fixed-point value with two decimals of precision,
/// stored as an `i32` count of hundredths. Any `i32` is a valid amount, so
/// the raw count is public.
#[derive(Clone, Copy, Debug, PartialEq, Eq, Ord, Structural)]
pub struct Currency(pub i32);

impl View for Currency {
    type V = int;

    open spec fn view(&self) -> int {
        self.0 as int
    }
}

impl Currency {
    /// Extract the fractional part of this number
    pub fn fractional(self) -> (r: i32)
        ensures
            r as int == frac_of(self@),
    {
        self.0 % 100
    }

    /// Extract the non-fractional part of this number
    pub fn whole(self) -> (r: i32)
        ensures
            r as int == whole_of(self@),
    {
        self.0 / 100
    }

    /// The canonical rendering: sign, whole part, and the two-digit
    /// fractional part when it is non-zero.
    pub fn to_string(&self) -> (r: String)
        ensures
            r@ == spec_display(self@),
    {
        render(self.0)
    }

    /// Parse a monetary amount, exactly as [`spec_parse`] describes:
    /// the result is `Ok` if and only if the trimmed input matches the
    /// grammar and every intermediate value fits in the backing `i32`,
    /// and each failure reports the first error the grammar assigns.
    pub fn from_str(s: &str) -> (r: Result<Currency, CurrencyParseError>)
        ensures
            match r {
                Ok(c) => spec_parse(s@) == Ok::<int, CurrencyParseError>(c@),
                Err(e) => spec_parse(s@) == Err::<int, CurrencyParseError>(e),
            },
    {
        match parse_str(s) {
            Ok(v) => Ok(Currency(v)),
            Err(e) => Err(e),
        }
    }
}

impl core::str::FromStr for Currency {
    type Err = CurrencyParseError;

    fn from_str(s: &str) -> Result<Currency, CurrencyParseError> {
        Currency::from_str(s)
    }
}

impl From<i32> for Currency {
    /// Construct from a raw count of hundredths; total and infallible.
    fn from(v: i32) -> (r: Currency)
        ensures
            r@ == v as int,
    {
        Currency(v)
    }
}

impl FromSpecImpl<i32> for Currency {
    open spec fn obeys_from_spec() -> bool {
        true
    }

    open spec fn from_spec(v: i32) -> Currency {
        Currency(v)
    }
}

impl From<Currency> for i32 {
    /// The raw count of hundredths.
    fn from(c: Currency) -> (r: i32)
        ensures
            r as int == c@,
    {
        c.0
    }
}

impl FromSpecImpl<Currency> for i32 {
    open spec fn obeys_from_spec() -> bool {
        true
    }

    open spec fn from_spec(c: Currency) -> i32 {
        c.0
    }
}

impl Default for Currency {
    /// The zero amount.
    fn default() -> (r: Currency)
        ensures
            r@ == 0,
    {
        Currency(0)
    }
}

impl core::ops::Add for Currency {
    type Output = Currency;

    /// Plain addition of the underlying hundredths values. Overflow of the
    /// backing integer is outside the contract: callers must stay within
    /// `i32` range.
    fn add(self, other: Currency) -> (r: Currency)
        ensures
            r@ == self@ + other@,
    {
        Currency(self.0 + other.0)
    }
}

impl vstd::std_specs::ops::AddSpecImpl for Currency {
    open spec fn obeys_add_spec() -> bool {
        true
    }

    open spec fn add_req(self, rhs: Currency) -> bool {
        i32::MIN <= self@ + rhs@ <= i32::MAX
    }

    open spec fn add_spec(self, rhs: Currency) -> Currency {
        Currency((self@ + rhs@) as i32)
    }
}

impl core::ops::Sub for Currency {
    type Output = Currency;

    /// Plain subtraction of the underlying hundredths values; same overflow
    /// contract as addition.
    fn sub(self, other: Currency) -> (r: Currency)
        ensures
            r@ == self@ - other@,
    {
        Currency(self.0 - other.0)
    }
}

impl vstd::std_specs::ops::SubSpecImpl for Currency {
    open spec fn obeys_sub_spec() -> bool {
        true
    }

    open spec fn sub_req(self, rhs: Currency) -> bool {
        i32::MIN <= self@ - rhs@ <= i32::MAX
    }

    open spec fn sub_spec(self, rhs: Currency) -> Currency {
        Currency((self@ - rhs@) as i32)
    }
}

impl core::ops::Neg for Currency {
    type Output = Currency;

    /// Negation of the underlying hundredths value.
    fn neg(self) -> (r: Currency)
        ensures
            r@ == -self@,
    {
        Currency(-self.0)
    }
}

impl vstd::std_specs::ops::NegSpecImpl for Currency {
    open spec fn obeys_neg_spec() -> bool {
        true
    }

    open spec fn neg_req(self) -> bool {
        self@ != i32::MIN
    }

    open spec fn neg_spec(self) -> Currency {
        Currency((-self@) as i32)
    }
}

impl Currency {
    /// In-place addition; the result is identical to `self + other`.
    pub fn add_assign(&mut self, other: Currency)
        requires
            i32::MIN <= old(self)@ + other@ <= i32::MAX,
        ensures
            final(self)@ == old(self)@ + other@,
            *final(self) == old(self).add_spec(other),
    {
        self.0 = self.0 + other.0;
    }

    /// In-place subtraction; the result is identical to `self - other`.
    pub fn sub_assign(&mut self, other: Currency)
        requires
            i32::MIN <= old(self)@ - other@ <= i32::MAX,
        ensures
            final(self)@ == old(self)@ - other@,
            *final(self) == old(self).sub_spec(other),
    {
        self.0 = self.0 - other.0;
    }
}

impl PartialOrd for Currency {
    /// Comparison is exactly comparison of the underlying hundredths
    /// values: more negative sorts first.
    fn partial_cmp(&self, other: &Currency) -> (r: Option<Ordering>) {
        if self.0 < other.0 {
            Some(Ordering::Less)
        } else if self.0 == other.0 {
            Some(Ordering::Equal)
        } else {
            Some(Ordering::Greater)
        }
    }
}

impl vstd::std_specs::cmp::PartialOrdSpecImpl for Currency {
    open spec fn obeys_partial_cmp_spec() -> bool {
        true
    }

    open spec fn partial_cmp_spec(&self, other: &Currency) -> Option<Ordering> {
        if self@ < other@ {
            Some(Ordering::Less)
        } else if self@ == other@ {
            Some(Ordering::Equal)
        } else {
            Some(Ordering::Greater)
        }
    }
}

} // verus!
