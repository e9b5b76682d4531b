use lending_ledger::call::CallFailure;
use lending_ledger::gateway::{
    classify_call_failure, classify_reject_code, classify_transfer, classify_transfer_call,
    classify_transfer_error, principal_to_account, reconciled, transfer_request, Account,
    Balance, GatewayError, TransferError, TransferResult,
};
use lending_ledger::identity::UserId;

#[test]
fn refusals_that_fault_the_request_are_rejections() {
    let rejected = [
        TransferError::BadFee { expected_fee: 10 },
        TransferError::BadBurn { min_burn_amount: 1 },
        TransferError::InsufficientFunds { balance: 3 },
        TransferError::TooOld,
        TransferError::CreatedInFuture { ledger_time: 5 },
    ];
    for error in rejected.iter() {
        assert_eq!(classify_transfer_error(error), GatewayError::Rejected);
    }
}

#[test]
fn other_refusals_are_not_refunded() {
    assert_eq!(
        classify_transfer_error(&TransferError::TemporarilyUnavailable),
        GatewayError::Unavailable
    );
    assert_eq!(
        classify_transfer_error(&TransferError::Duplicate { duplicate_of: 8 }),
        GatewayError::Malformed
    );
    assert_eq!(
        classify_transfer_error(&TransferError::GenericError {
            message: String::from("no"),
            error_code: 1
        }),
        GatewayError::Malformed
    );
}

#[test]
fn transfer_answer_becomes_receipt_or_class() {
    assert_eq!(classify_transfer(&TransferResult::Ok(42)), Ok(42));
    assert_eq!(
        classify_transfer(&TransferResult::Err(TransferError::TooOld)),
        Err(GatewayError::Rejected)
    );
    assert_eq!(
        classify_transfer(&TransferResult::Err(TransferError::TemporarilyUnavailable)),
        Err(GatewayError::Unavailable)
    );
}

#[test]
fn reject_codes_are_classed() {
    assert_eq!(classify_reject_code(3), GatewayError::Rejected);
    assert_eq!(classify_reject_code(6), GatewayError::Timeout);
    assert_eq!(classify_reject_code(1), GatewayError::Unavailable);
    assert_eq!(classify_reject_code(2), GatewayError::Unavailable);
    assert_eq!(classify_reject_code(4), GatewayError::Unavailable);
    assert_eq!(classify_reject_code(5), GatewayError::Unavailable);
    assert_eq!(classify_reject_code(0), GatewayError::Malformed);
    assert_eq!(classify_reject_code(7), GatewayError::Malformed);
    assert_eq!(classify_reject_code(u32::MAX), GatewayError::Malformed);
}

#[test]
fn calls_without_an_answer_are_classed() {
    assert_eq!(classify_call_failure(&CallFailure::NotSent), GatewayError::Rejected);
    assert_eq!(
        classify_call_failure(&CallFailure::Undecodable),
        GatewayError::Malformed
    );
    assert_eq!(
        classify_call_failure(&CallFailure::Rejected(3)),
        GatewayError::Rejected
    );
    assert_eq!(
        classify_call_failure(&CallFailure::Rejected(6)),
        GatewayError::Timeout
    );
    assert_eq!(
        classify_call_failure(&CallFailure::Rejected(2)),
        GatewayError::Unavailable
    );
    assert_eq!(
        classify_call_failure(&CallFailure::Rejected(99)),
        GatewayError::Malformed
    );
}

#[test]
fn transfer_call_becomes_an_outcome() {
    assert_eq!(classify_transfer_call(&Ok(TransferResult::Ok(7))), Ok(7));
    assert_eq!(
        classify_transfer_call(&Ok(TransferResult::Err(TransferError::BadFee {
            expected_fee: 10
        }))),
        Err(GatewayError::Rejected)
    );
    assert_eq!(
        classify_transfer_call(&Ok(TransferResult::Err(TransferError::Duplicate {
            duplicate_of: 1
        }))),
        Err(GatewayError::Malformed)
    );
    assert_eq!(
        classify_transfer_call(&Err(CallFailure::Rejected(6))),
        Err(GatewayError::Timeout)
    );
    assert_eq!(
        classify_transfer_call(&Err(CallFailure::NotSent)),
        Err(GatewayError::Rejected)
    );
}

#[test]
fn transfer_request_goes_to_the_default_account() {
    let arg = transfer_request(UserId::new(vec![9, 8, 7]), 500, Ok(10));
    assert_eq!(
        arg.to,
        Account { owner: UserId::new(vec![9, 8, 7]), subaccount: None }
    );
    assert_eq!(arg.amount, 500);
    assert_eq!(arg.fee, Some(10));
    assert_eq!(arg.from_subaccount, None);
    assert_eq!(arg.memo, None);
    assert_eq!(arg.created_at_time, None);
}

#[test]
fn transfer_request_leaves_out_a_fee_that_was_not_quoted() {
    for failure in [
        CallFailure::NotSent,
        CallFailure::Rejected(2),
        CallFailure::Rejected(6),
        CallFailure::Undecodable,
    ] {
        let arg = transfer_request(UserId::new(vec![1]), 1, Err(failure));
        assert_eq!(arg.fee, None);
        assert_eq!(arg.amount, 1);
    }
}

#[test]
fn balance_holds_its_amount() {
    assert_eq!(Balance { e8s: 12 }.e8s, 12);
}

#[test]
fn account_identifier_is_the_sha224_of_the_preimage() {
    assert_eq!(
        principal_to_account(&UserId::new(vec![1, 2, 3])),
        vec![
            244, 181, 241, 110, 163, 176, 238, 99, 38, 182, 117, 99, 12, 242, 155, 224, 191, 31,
            1, 124, 149, 123, 170, 180, 205, 141, 86, 69
        ]
    );
    assert_eq!(
        principal_to_account(&UserId::new(vec![])),
        vec![
            126, 134, 45, 43, 87, 217, 188, 158, 165, 198, 95, 154, 36, 172, 108, 7, 69, 117,
            244, 120, 152, 49, 75, 141, 108, 176, 146, 157
        ]
    );
    assert_eq!(
        principal_to_account(&UserId::new(vec![0; 29])),
        vec![
            54, 13, 85, 199, 34, 187, 246, 89, 9, 10, 64, 138, 215, 109, 162, 47, 78, 99, 81,
            236, 113, 205, 250, 48, 2, 185, 141, 83
        ]
    );
}

#[test]
fn account_identifier_has_28_bytes_and_depends_on_the_principal() {
    let a = principal_to_account(&UserId::new(vec![4]));
    let b = principal_to_account(&UserId::new((0u8..10).collect()));
    assert_eq!(a.len(), 28);
    assert_eq!(b.len(), 28);
    assert_ne!(a, b);
    assert_eq!(
        a,
        vec![
            106, 86, 42, 169, 234, 162, 72, 26, 144, 73, 205, 240, 67, 59, 151, 56, 201, 146,
            214, 152, 195, 29, 138, 191, 137, 202, 220, 121
        ]
    );
}

#[test]
fn reconciliation_finds_a_receipt_or_nothing() {
    assert_eq!(reconciled(Some(31)), Ok(31));
    assert_eq!(reconciled(Some(0)), Ok(0));
    assert_eq!(reconciled(None), Err(GatewayError::Rejected));
}
