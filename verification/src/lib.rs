//! A fixed-point monetary value type.
//!
//! Amounts are stored as a signed 32-bit count of hundredths of a unit.
//! The crate provides checked construction, a canonical textual grammar with
//! a closed error taxonomy, display rendering that round-trips through the
//! parser, and a validated non-negative wrapper for quantities that must
//! never drop below zero.

pub mod chars;
pub mod currency;
pub mod digits;
pub mod display;
pub mod errors;
pub mod laws;
pub mod non_negative;
pub mod parse;
pub mod text;

pub use currency::Currency;
pub use errors::CurrencyParseError;
pub use errors::NonNegativeCurrencyError;
pub use non_negative::NonNegativeCurrency;
