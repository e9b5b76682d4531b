//! A collateralized lending ledger.
//!
//! Users deposit collateral, borrow against it up to a loan-to-value limit,
//! repay, and are liquidated when their debt exceeds what their collateral
//! backs. Every amount is a `u64` in value units of the smallest unit of
//! account, so no price enters the comparison of debt with collateral; the
//! loan-to-value ratio is explicit configuration.
//!
//! The library computes and keeps the books; it makes no call to the outside.
//! Its host names the caller, fetches prices, and calls the external asset
//! ledger between the two halves of a withdrawal, handing each answer back as
//! a plain value.
//!
//! - [`position`]: positions, the loan-to-value policy, the record format.
//! - [`rules`]: the rules of lending as steps from position to position.
//! - [`identity`]: user identities and their order.
//! - [`store`], [`ledger`]: the durable map of records and the account
//!   ledger over it.
//! - [`engine`]: the operations, and the withdrawals in flight.
//! - [`oracle`]: the current price.
//! - [`call`], [`gateway`]: what goes to and comes from the external asset
//!   ledger, and how its answers are classed.
//! - [`error`]: why an operation did not go through.

pub mod call;
pub mod engine;
pub mod error;
pub mod gateway;
pub mod identity;
pub mod ledger;
pub mod oracle;
pub mod position;
pub mod rules;
pub mod store;
