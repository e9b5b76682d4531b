//! The price oracle: the last known price of the collateral asset.

use vstd::prelude::*;
use crate::call::{CallFailure, REJECT_UNKNOWN};

verus! {

/// Prices are integers with two implied decimal digits: a price of 1.00 in
/// the unit of account is stored as `PRICE_SCALE`.
pub const PRICE_SCALE: u64 = 100;

/// The price that an oracle holds before any price is set: 100 units.
pub const DEFAULT_TOKEN_PRICE: u64 = 100;

/// A price of the collateral asset and the time at which it was observed.
#[derive(Clone, Copy, Debug, PartialEq, Eq, Structural)]
pub struct PriceQuote {
    pub price: u64,
    pub observed_at: u64,
}

/// Why a refresh from the external feed gave no price.
#[derive(Clone, Copy, Debug, PartialEq, Eq, Structural)]
pub enum OracleError {
    /// The feed could not be reached.
    Unreachable,
    /// The feed did not answer in time.
    Timeout,
    /// The answer held no price that could be read.
    Unparseable,
}

/// Why a call to the feed that gave no answer gave none: a call that ran out
/// of time timed out, an answer that cannot be decoded cannot be read, and in
/// every other case the feed was not reached.
pub open spec fn feed_failure(failure: CallFailure) -> OracleError {
    match failure {
        CallFailure::NotSent => OracleError::Unreachable,
        CallFailure::Rejected(code) => if code == REJECT_UNKNOWN {
            OracleError::Timeout
        } else {
            OracleError::Unreachable
        },
        CallFailure::Undecodable => OracleError::Unparseable,
    }
}

pub fn classify_feed_failure(failure: &CallFailure) -> (error: OracleError)
    ensures
        error == feed_failure(*failure),
{
    match failure {
        CallFailure::NotSent => OracleError::Unreachable,
        CallFailure::Rejected(code) => if *code == REJECT_UNKNOWN {
            OracleError::Timeout
        } else {
            OracleError::Unreachable
        },
        CallFailure::Undecodable => OracleError::Unparseable,
    }
}

/// Holds the single current quote; no history is kept.
#[derive(Clone, Copy, Debug, PartialEq, Eq, Structural)]
pub struct PriceOracle {
    pub quote: PriceQuote,
}

impl PriceOracle {
    /// An oracle whose price is `initial_price`, observed at `observed_at`.
    pub fn new(initial_price: u64, observed_at: u64) -> (oracle: PriceOracle)
        ensures
            oracle.quote == (PriceQuote { price: initial_price, observed_at }),
    {
        PriceOracle { quote: PriceQuote { price: initial_price, observed_at } }
    }
}

impl Default for PriceOracle {
    fn default() -> (oracle: PriceOracle)
        ensures
            oracle.quote == (PriceQuote { price: DEFAULT_TOKEN_PRICE, observed_at: 0 }),
    {
        PriceOracle { quote: PriceQuote { price: DEFAULT_TOKEN_PRICE, observed_at: 0 } }
    }
}

/// The last known price.
pub fn get_token_price(oracle: &PriceOracle) -> (price: u64)
    ensures
        price == oracle.quote.price,
{
    oracle.quote.price
}

/// Overwrites the quote unconditionally. Who may do so is the caller's policy.
pub fn set_token_price(oracle: &mut PriceOracle, price: u64, observed_at: u64)
    ensures
        final(oracle).quote == (PriceQuote { price, observed_at }),
{
    oracle.quote = PriceQuote { price, observed_at };
}

/// Overwrites the quote with a newly observed price; the same as
/// [`set_token_price`].
pub fn update_token_price(oracle: &mut PriceOracle, new_price: u64, observed_at: u64)
    ensures
        final(oracle).quote == (PriceQuote { price: new_price, observed_at }),
{
    set_token_price(oracle, new_price, observed_at);
}

/// Applies what a fetch from the external feed gave at `observed_at`.
///
/// A fetched price replaces the quote. A failed fetch leaves the quote as it
/// was and is reported: a stale price is safer than a wrong one.
pub fn refresh_price(
    oracle: &mut PriceOracle,
    fetched: Result<u64, OracleError>,
    observed_at: u64,
) -> (outcome: Result<(), OracleError>)
    ensures
        match fetched {
            Ok(price) => outcome is Ok && final(oracle).quote == (PriceQuote {
                price,
                observed_at,
            }),
            Err(error) => outcome == Err::<(), OracleError>(error) && *final(oracle) == *old(
                oracle,
            ),
        },
{
    match fetched {
        Ok(price) => {
            set_token_price(oracle, price, observed_at);
            Ok(())
        },
        Err(error) => Err(error),
    }
}

} // verus!
