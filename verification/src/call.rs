//! How a call to an outside service can end without an answer.

use vstd::prelude::*;

verus! {

/// A call that gave no answer that could be read.
#[derive(Clone, Copy, Debug, PartialEq, Eq, Structural)]
pub enum CallFailure {
    /// The call was never sent: the callee has seen nothing.
    NotSent,
    /// The host rejected the call, with this reject code.
    Rejected(u32),
    /// An answer came that could not be decoded.
    Undecodable,
}

/// The reject code of a call that found no callee.
pub const REJECT_DESTINATION_INVALID: u32 = 3;

/// The reject code of a call whose outcome the host does not know, which is
/// what a call that ran out of time reports.
pub const REJECT_UNKNOWN: u32 = 6;

/// The largest number that is a reject code.
pub const REJECT_CODE_MAX: u32 = 6;

} // verus!
