//! Why an operation of the engine did not go through.

use vstd::prelude::*;
use crate::position::StorageError;

verus! {

/// The failures of the engine's operations. Whichever is returned, no
/// position has been left with more debt than its collateral backs unless it
/// was so before.
#[derive(Clone, Copy, Debug, PartialEq, Eq, Structural)]
pub enum EngineError {
    /// The debt asked for, or left after a withdrawal, would exceed what the
    /// collateral backs.
    LimitExceeded,
    /// There is no debt to repay.
    NoDebt,
    /// The amount would take a balance past the largest value it can hold.
    Overflow,
    /// The withdrawal asks for more than the collateral held.
    InsufficientBalance,
    /// A withdrawal of the same user is in flight; the caller may retry.
    Busy,
    /// There is no withdrawal in flight to settle.
    NoTransfer,
    /// The user's record could not be decoded. Other users are not affected.
    Storage(StorageError),
    /// The gateway rejected the transfer; the amount was credited back.
    Rejected,
    /// Whether the transfer happened is unknown; the debit stays until the
    /// transfer is reconciled.
    Ambiguous,
}

} // verus!
