//! The closed error taxonomies: parse failures on `Currency` and the one
//! extra failure of the non-negative wrapper.

use vstd::prelude::*;

verus! {

/// Why a string failed to parse as a `Currency`.
#[derive(Clone, Copy, Debug, PartialEq, Eq, Structural)]
pub enum CurrencyParseError {
    /// The fractional part of the number was > 99. Example: 0.100
    FracGreaterThan99,
    /// The string did not match the accepted grammar
    MatchFailed,
    /// Parsing resulted in an integer overflow
    IntegerOverflow,
}

impl CurrencyParseError {
    /// A human-readable description of the failure.
    pub fn message(&self) -> (r: &'static str)
        ensures
            *self is MatchFailed ==> r@ == "parsing failed"@,
            *self is IntegerOverflow ==> r@ == "integer overflow"@,
            *self is FracGreaterThan99 ==> r@ == "decimal fraction greater than 99"@,
    {
        match self {
            CurrencyParseError::MatchFailed => "parsing failed",
            CurrencyParseError::IntegerOverflow => "integer overflow",
            CurrencyParseError::FracGreaterThan99 => "decimal fraction greater than 99",
        }
    }
}

/// Why an operation on the non-negative wrapper was refused.
#[derive(Clone, Copy, Debug, PartialEq, Eq, Structural)]
pub enum NonNegativeCurrencyError {
    /// The value would have been negative
    NegativeValue,
}

impl NonNegativeCurrencyError {
    /// A human-readable description of the failure.
    pub fn message(&self) -> (r: &'static str)
        ensures
            r@ == "negative value"@,
    {
        "negative value"
    }
}

} // verus!
