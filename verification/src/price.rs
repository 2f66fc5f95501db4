//! Fixed-point prices and percentages.

use crate::decimal::{decimal_reading, parse_decimal, ParseError};
use vstd::prelude::*;
use vstd::string::StringSliceAdditionalSpecFns;

verus! {

/// Number of decimal places carried by a [`Price`].
pub const PRICE_DECIMALS: u8 = 8;

/// Number of [`Price`] units in one whole unit of the quote currency.
pub const PRICE_SCALE: u64 = 100_000_000;

/// Number of decimal places carried by a [`Percent`].
pub const PERCENT_DECIMALS: u8 = 2;

/// Number of basis points in one hundred percent.
pub const FULL_BASIS_POINTS: u32 = 10_000;

/// A non-negative price, counted in units of `1 / PRICE_SCALE` of the quote
/// currency. Every `u64` is a valid price.
#[derive(Clone, Copy, Debug, PartialEq, Eq, Structural, Hash)]
pub struct Price {
    pub units: u64,
}

/// A non-negative percentage, counted in basis points (hundredths of one
/// percent). Every `u32` is a valid percentage.
#[derive(Clone, Copy, Debug, PartialEq, Eq, Structural, Hash)]
pub struct Percent {
    pub basis_points: u32,
}

/// What reading `text` as a price yields: the numeral it holds, counted in
/// price units, or the reason why it holds none.
pub open spec fn price_reading(text: Seq<u8>) -> Result<Price, ParseError> {
    match decimal_reading(text, PRICE_DECIMALS as nat) {
        Ok(units) => Ok(Price { units }),
        Err(error) => Err(error),
    }
}

/// What reading `text` as a percentage yields: the numeral it holds, counted
/// in basis points, or the reason why it holds none.
pub open spec fn percent_reading(text: Seq<u8>) -> Result<Percent, ParseError> {
    match decimal_reading(text, PERCENT_DECIMALS as nat) {
        Ok(basis_points) => if basis_points <= u32::MAX {
            Ok(Percent { basis_points: basis_points as u32 })
        } else {
            Err(ParseError::OutOfRange)
        },
        Err(error) => Err(error),
    }
}

impl Price {
    /// The price that is `units / PRICE_SCALE` of the quote currency.
    pub fn from_units(units: u64) -> (price: Price)
        ensures
            price.units == units,
    {
        Price { units }
    }

    /// This price taken `factor` times, in price units. The product of two
    /// 64-bit numbers always fits in 128 bits.
    pub fn times(self, factor: u64) -> (product: u128)
        ensures
            product == self.units * factor,
    {
        let units: u128 = self.units as u128;
        let factor: u128 = factor as u128;
        assert(units * factor <= 0xffff_ffff_ffff_ffff * 0xffff_ffff_ffff_ffff)
            by (nonlinear_arith)
            requires
                units <= 0xffff_ffff_ffff_ffff,
                factor <= 0xffff_ffff_ffff_ffff,
        ;
        units * factor
    }

    /// Reads a price written as a plain decimal numeral such as `"67250.5"`.
    ///
    /// Anything that is not a finite, non-negative decimal with at most
    /// `PRICE_DECIMALS` fraction digits and a value within range is rejected.
    pub fn parse(text: &str) -> (reading: Result<Price, ParseError>)
        ensures
            reading == price_reading(text.spec_bytes()),
    {
        match parse_decimal(text.as_bytes(), PRICE_DECIMALS) {
            Ok(units) => Ok(Price { units }),
            Err(error) => Err(error),
        }
    }
}

impl Percent {
    /// The percentage that is `basis_points / 100` percent.
    pub fn from_basis_points(basis_points: u32) -> (percent: Percent)
        ensures
            percent.basis_points == basis_points,
    {
        Percent { basis_points }
    }

    /// Reads a percentage written as a plain decimal numeral such as `"2.5"`.
    ///
    /// Anything that is not a finite, non-negative decimal with at most
    /// `PERCENT_DECIMALS` fraction digits and a value within range is
    /// rejected.
    pub fn parse(text: &str) -> (reading: Result<Percent, ParseError>)
        ensures
            reading == percent_reading(text.spec_bytes()),
    {
        match parse_decimal(text.as_bytes(), PERCENT_DECIMALS) {
            Ok(basis_points) => if basis_points <= u32::MAX as u64 {
                Ok(Percent { basis_points: basis_points as u32 })
            } else {
                Err(ParseError::OutOfRange)
            },
            Err(error) => Err(error),
        }
    }
}

} // verus!
