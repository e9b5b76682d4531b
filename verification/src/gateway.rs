//! What the engine exchanges with the external asset ledger: the values that
//! go out with a transfer, the answers that come back, and how each answer is
//! classed.

use vstd::prelude::*;
use sha2::{Digest, Sha224};
use crate::call::{CallFailure, REJECT_CODE_MAX, REJECT_DESTINATION_INVALID, REJECT_UNKNOWN};
use crate::identity::UserId;

verus! {

/// An account on the external ledger.
#[derive(Debug, PartialEq, Eq)]
pub struct Account {
    pub owner: UserId,
    /// A 32-byte subaccount, if any.
    pub subaccount: Option<Vec<u8>>,
}

/// A balance on the external ledger, in its smallest unit.
#[derive(Clone, Copy, Debug, PartialEq, Eq, Structural)]
pub struct Balance {
    pub e8s: u64,
}

/// The argument of a transfer on the external ledger.
#[derive(Debug, PartialEq, Eq)]
pub struct TransferArg {
    pub from_subaccount: Option<[u8; 32]>,
    pub to: Account,
    pub amount: u64,
    pub fee: Option<u64>,
    pub memo: Option<Vec<u8>>,
    pub created_at_time: Option<u64>,
}

/// Why the external ledger refused a transfer.
#[derive(Debug, PartialEq, Eq)]
pub enum TransferError {
    GenericError { message: String, error_code: u64 },
    TemporarilyUnavailable,
    BadBurn { min_burn_amount: u64 },
    Duplicate { duplicate_of: u64 },
    BadFee { expected_fee: u64 },
    CreatedInFuture { ledger_time: u64 },
    TooOld,
    InsufficientFunds { balance: u64 },
}

/// The external ledger's answer to a transfer: the index of the block that
/// holds it, or a refusal.
pub type TransferResult = Result<u64, TransferError>;

/// The classes into which every failure of the gateway falls.
#[derive(Clone, Copy, Debug, PartialEq, Eq, Structural)]
pub enum GatewayError {
    /// The amount has clearly not moved: a refund is safe.
    Rejected,
    /// The gateway could not be used; whether the amount moved is unknown.
    Unavailable,
    /// No answer came in time; whether the amount moved is unknown.
    Timeout,
    /// The answer did not follow the protocol; an operator has to look.
    Malformed,
}

/// What comes of a transfer: the receipt, or the class of the failure.
pub type TransferOutcome = Result<u64, GatewayError>;

/// The class of a refusal by the external ledger.
///
/// A refusal that names a fault of the request itself (its fee, its burn
/// amount, its time stamps, the funds behind it) was made before anything
/// moved. A ledger that is temporarily unavailable is classed as such. A
/// duplicate speaks of an earlier transfer that did move, and a generic error
/// says nothing that can be relied on: both are left to an operator.
pub open spec fn transfer_error_class(error: TransferError) -> GatewayError {
    match error {
        TransferError::BadFee { .. } => GatewayError::Rejected,
        TransferError::BadBurn { .. } => GatewayError::Rejected,
        TransferError::InsufficientFunds { .. } => GatewayError::Rejected,
        TransferError::TooOld => GatewayError::Rejected,
        TransferError::CreatedInFuture { .. } => GatewayError::Rejected,
        TransferError::TemporarilyUnavailable => GatewayError::Unavailable,
        TransferError::Duplicate { .. } => GatewayError::Malformed,
        TransferError::GenericError { .. } => GatewayError::Malformed,
    }
}

pub fn classify_transfer_error(error: &TransferError) -> (class: GatewayError)
    ensures
        class == transfer_error_class(*error),
{
    match error {
        TransferError::BadFee { .. } => GatewayError::Rejected,
        TransferError::BadBurn { .. } => GatewayError::Rejected,
        TransferError::InsufficientFunds { .. } => GatewayError::Rejected,
        TransferError::TooOld => GatewayError::Rejected,
        TransferError::CreatedInFuture { .. } => GatewayError::Rejected,
        TransferError::TemporarilyUnavailable => GatewayError::Unavailable,
        TransferError::Duplicate { .. } => GatewayError::Malformed,
        TransferError::GenericError { .. } => GatewayError::Malformed,
    }
}

/// The outcome that an answer of the external ledger stands for.
pub open spec fn transfer_outcome(answer: TransferResult) -> TransferOutcome {
    match answer {
        Ok(block_index) => Ok(block_index),
        Err(error) => Err(transfer_error_class(error)),
    }
}

pub fn classify_transfer(answer: &TransferResult) -> (outcome: TransferOutcome)
    ensures
        outcome == transfer_outcome(*answer),
{
    match answer {
        Ok(block_index) => Ok(*block_index),
        Err(error) => Err(classify_transfer_error(error)),
    }
}

/// The class of a call that the host rejected with `code`.
///
/// Only an invalid destination shows that no ledger saw the transfer. An
/// unknown outcome is what a call that ran out of time reports. Every other
/// reject code (a fatal or transient fault of the host, a reject or a failure
/// of the callee) leaves open what happened. A number that is no reject code
/// does not follow the protocol.
pub open spec fn reject_code_class(code: u32) -> GatewayError {
    if code == REJECT_DESTINATION_INVALID {
        GatewayError::Rejected
    } else if code == REJECT_UNKNOWN {
        GatewayError::Timeout
    } else if 1 <= code <= REJECT_CODE_MAX {
        GatewayError::Unavailable
    } else {
        GatewayError::Malformed
    }
}

pub fn classify_reject_code(code: u32) -> (class: GatewayError)
    ensures
        class == reject_code_class(code),
{
    if code == REJECT_DESTINATION_INVALID {
        GatewayError::Rejected
    } else if code == REJECT_UNKNOWN {
        GatewayError::Timeout
    } else if 1 <= code && code <= REJECT_CODE_MAX {
        GatewayError::Unavailable
    } else {
        GatewayError::Malformed
    }
}

/// The class of a call to the gateway that gave no answer: a call that was
/// never sent moved nothing, a rejected call is classed by its reject code,
/// and an answer that cannot be decoded does not follow the protocol.
pub open spec fn call_failure_class(failure: CallFailure) -> GatewayError {
    match failure {
        CallFailure::NotSent => GatewayError::Rejected,
        CallFailure::Rejected(code) => reject_code_class(code),
        CallFailure::Undecodable => GatewayError::Malformed,
    }
}

pub fn classify_call_failure(failure: &CallFailure) -> (class: GatewayError)
    ensures
        class == call_failure_class(*failure),
{
    match failure {
        CallFailure::NotSent => GatewayError::Rejected,
        CallFailure::Rejected(code) => classify_reject_code(*code),
        CallFailure::Undecodable => GatewayError::Malformed,
    }
}

/// The outcome of a transfer, from what the call to the gateway gave.
pub open spec fn transfer_call_outcome(
    reply: Result<TransferResult, CallFailure>,
) -> TransferOutcome {
    match reply {
        Ok(answer) => transfer_outcome(answer),
        Err(failure) => Err(call_failure_class(failure)),
    }
}

pub fn classify_transfer_call(reply: &Result<TransferResult, CallFailure>) -> (outcome:
    TransferOutcome)
    ensures
        outcome == transfer_call_outcome(*reply),
{
    match reply {
        Ok(answer) => classify_transfer(answer),
        Err(failure) => Err(classify_call_failure(failure)),
    }
}

/// The outcome that reconciliation establishes for a transfer whose outcome
/// was unknown: the index of the block that holds the transfer is its receipt,
/// and a transfer that is in no block never moved anything.
pub fn reconciled(block_index: Option<u64>) -> (outcome: TransferOutcome)
    ensures
        outcome == match block_index {
            Some(index) => Ok::<u64, GatewayError>(index),
            None => Err(GatewayError::Rejected),
        },
{
    match block_index {
        Some(index) => Ok(index),
        None => Err(GatewayError::Rejected),
    }
}

/// The argument of a transfer of `amount` to the default account of
/// `destination`. The fee is the one that the ledger quoted; where the quote
/// failed it is left out and the ledger applies its own.
pub fn transfer_request(
    destination: UserId,
    amount: u64,
    quoted_fee: Result<u64, CallFailure>,
) -> (arg: TransferArg)
    ensures
        arg.to.owner@ == destination@,
        arg.to.subaccount is None,
        arg.amount == amount,
        arg.fee == match quoted_fee {
            Ok(fee) => Some(fee),
            Err(_) => None::<u64>,
        },
        arg.from_subaccount is None,
        arg.memo is None,
        arg.created_at_time is None,
{
    let fee = match quoted_fee {
        Ok(fee) => Some(fee),
        Err(_) => None,
    };
    TransferArg {
        from_subaccount: None,
        to: Account { owner: destination, subaccount: None },
        amount,
        fee,
        memo: None,
        created_at_time: None,
    }
}

/// The SHA-224 digest of a byte string.
pub uninterp spec fn sha224_digest(data: Seq<u8>) -> Seq<u8>;

/// `Sha224::digest`: the SHA-224 hash of `data`, which is 28 bytes long.
#[verifier::external_body]
fn sha224(data: &Vec<u8>) -> (digest: Vec<u8>)
    ensures
        digest@ == sha224_digest(data@),
        digest@.len() == 28,
{
    Sha224::digest(data).to_vec()
}

/// The domain separator of account identifiers: a byte 10, which is the
/// length of what follows, and the ASCII text `account-id`.
pub open spec fn account_domain() -> Seq<u8> {
    seq![10u8, 97u8, 99u8, 99u8, 111u8, 117u8, 110u8, 116u8, 45u8, 105u8, 100u8]
}

/// The bytes that are hashed into the account identifier of `principal`: the
/// domain separator, the principal's bytes, and the default subaccount of 32
/// zero bytes.
pub open spec fn account_preimage(principal: Seq<u8>) -> Seq<u8> {
    account_domain() + principal + Seq::new(32, |i: int| 0u8)
}

/// The identifier of the default account of `principal` on the external
/// ledger.
pub fn principal_to_account(principal: &UserId) -> (account: Vec<u8>)
    ensures
        account@ == sha224_digest(account_preimage(principal@)),
        account@.len() == 28,
{
    let mut preimage: Vec<u8> = vec![
        10u8,
        97u8,
        99u8,
        99u8,
        111u8,
        117u8,
        110u8,
        116u8,
        45u8,
        105u8,
        100u8,
    ];
    let mut owner = principal.as_bytes().clone();
    preimage.append(&mut owner);
    let mut i: usize = 0;
    while i < 32
        invariant
            i <= 32,
            preimage@ == account_domain() + principal@ + Seq::new(i as nat, |k: int| 0u8),
        decreases 32 - i,
    {
        preimage.push(0u8);
        i += 1;
        assert(Seq::new(i as nat, |k: int| 0u8) =~= Seq::new((i - 1) as nat, |k: int| 0u8).push(
            0u8,
        ));
    }
    sha224(&preimage)
}

} // verus!
