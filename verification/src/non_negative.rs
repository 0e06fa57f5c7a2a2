//! A `Currency` that is known never to be negative, for quantities that
//! are invalid below zero (prices, stock levels).
//!
//! The only way to obtain one is a validating constructor; every
//! operation re-establishes the invariant, failing with
//! [`NonNegativeCurrencyError::NegativeValue`] rather than clamping, and
//! a failed operation yields no value at all, so no partially-updated
//! wrapper can be observed.

use vstd::prelude::*;
use crate::currency::Currency;
use crate::errors::NonNegativeCurrencyError;

verus! {

/// A monetary amount that is at least zero.
#[derive(Clone, Copy, Debug, PartialEq, Eq, Structural)]
pub struct NonNegativeCurrency(Currency);

impl View for NonNegativeCurrency {
    type V = int;

    closed spec fn view(&self) -> int {
        self.0@
    }
}

impl NonNegativeCurrency {
    #[verifier::type_invariant]
    spec fn inv(self) -> bool {
        self.0@ >= 0
    }

    /// Wrap `c`; succeeds exactly when `c` is not negative.
    pub fn new(c: Currency) -> (r: Result<NonNegativeCurrency, NonNegativeCurrencyError>)
        ensures
            c@ >= 0 ==> (r matches Ok(n) && n@ == c@),
            c@ < 0 ==> r == Err::<NonNegativeCurrency, NonNegativeCurrencyError>(
                NonNegativeCurrencyError::NegativeValue,
            ),
    {
        if c.0 >= 0 {
            Ok(NonNegativeCurrency(c))
        } else {
            Err(NonNegativeCurrencyError::NegativeValue)
        }
    }

    /// Wrap a raw count of hundredths; succeeds exactly when it is not
    /// negative.
    pub fn from_raw(v: i32) -> (r: Result<NonNegativeCurrency, NonNegativeCurrencyError>)
        ensures
            v >= 0 ==> (r matches Ok(n) && n@ == v as int),
            v < 0 ==> r == Err::<NonNegativeCurrency, NonNegativeCurrencyError>(
                NonNegativeCurrencyError::NegativeValue,
            ),
    {
        NonNegativeCurrency::new(Currency::from(v))
    }

    /// Subtraction, re-validated: fails, yielding no value, when the
    /// subtrahend exceeds the minuend.
    pub fn checked_sub(self, other: NonNegativeCurrency) -> (r: Result<
        NonNegativeCurrency,
        NonNegativeCurrencyError,
    >)
        ensures
            self@ >= other@ ==> (r matches Ok(n) && n@ == self@ - other@),
            self@ < other@ ==> r == Err::<NonNegativeCurrency, NonNegativeCurrencyError>(
                NonNegativeCurrencyError::NegativeValue,
            ),
    {
        proof {
            use_type_invariant(self);
            use_type_invariant(other);
        }
        let d = self.0.0 - other.0.0;
        if d >= 0 {
            Ok(NonNegativeCurrency(Currency(d)))
        } else {
            Err(NonNegativeCurrencyError::NegativeValue)
        }
    }

    /// The wrapped plain value; always available, since every
    /// non-negative amount is a valid plain amount. Whatever was done to
    /// produce the wrapper, the value it yields is never negative.
    pub fn currency(self) -> (r: Currency)
        ensures
            r@ == self@,
            r@ >= 0,
    {
        proof {
            use_type_invariant(self);
        }
        self.0
    }
}

impl core::ops::Add for NonNegativeCurrency {
    type Output = NonNegativeCurrency;

    /// Addition is closed: the sum of two non-negative amounts is
    /// non-negative, so no re-validation is needed and no error can
    /// occur. Overflow of the backing integer is outside the contract.
    fn add(self, other: NonNegativeCurrency) -> (r: NonNegativeCurrency)
        ensures
            r@ == self@ + other@,
    {
        proof {
            use_type_invariant(self);
            use_type_invariant(other);
        }
        NonNegativeCurrency(Currency(self.0.0 + other.0.0))
    }
}

impl vstd::std_specs::ops::AddSpecImpl for NonNegativeCurrency {
    closed spec fn obeys_add_spec() -> bool {
        true
    }

    closed spec fn add_req(self, rhs: NonNegativeCurrency) -> bool {
        self@ + rhs@ <= i32::MAX
    }

    closed spec fn add_spec(self, rhs: NonNegativeCurrency) -> NonNegativeCurrency {
        NonNegativeCurrency(Currency((self@ + rhs@) as i32))
    }
}

impl From<NonNegativeCurrency> for Currency {
    /// Unwrap to the plain value, which is never negative.
    fn from(n: NonNegativeCurrency) -> (r: Currency)
        ensures
            r@ == n@,
            r@ >= 0,
    {
        proof {
            use_type_invariant(n);
        }
        n.0
    }
}

impl vstd::std_specs::convert::FromSpecImpl<NonNegativeCurrency> for Currency {
    closed spec fn obeys_from_spec() -> bool {
        true
    }

    closed spec fn from_spec(n: NonNegativeCurrency) -> Currency {
        n.0
    }
}

} // verus!
