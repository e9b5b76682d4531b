use lending_ledger::error::EngineError;
use lending_ledger::position::{LtvPolicy, Position, StorageError, RECORD_LEN, RECORD_VERSION};

fn sixty_percent() -> LtvPolicy {
    LtvPolicy::new(60, 100).unwrap()
}

#[test]
fn record_has_version_then_two_little_endian_amounts() {
    let bytes = Position::new(1000, 600).to_bytes();
    assert_eq!(
        bytes,
        vec![1, 232, 3, 0, 0, 0, 0, 0, 0, 88, 2, 0, 0, 0, 0, 0, 0]
    );
    assert_eq!(bytes.len(), RECORD_LEN);
    assert_eq!(bytes[0], RECORD_VERSION);
}

#[test]
fn record_round_trips() {
    let samples = [
        (0u64, 0u64),
        (1, 0),
        (0, 1),
        (1000, 600),
        (u64::MAX, 0),
        (0, u64::MAX),
        (u64::MAX, u64::MAX),
        (0x0102_0304_0506_0708, 0x1112_1314_1516_1718),
    ];
    for (collateral, debt) in samples {
        let position = Position::new(collateral, debt);
        assert_eq!(Position::from_bytes(&position.to_bytes()), Ok(position));
    }
}

#[test]
fn decoding_reads_the_bytes_it_is_given() {
    let bytes = [1u8, 1, 0, 0, 0, 0, 0, 0, 0, 0, 1, 0, 0, 0, 0, 0, 0];
    assert_eq!(Position::from_bytes(&bytes), Ok(Position::new(1, 256)));
}

#[test]
fn empty_record_has_wrong_length() {
    assert_eq!(Position::from_bytes(&[]), Err(StorageError::WrongLength));
}

#[test]
fn record_of_another_version_is_unknown() {
    let mut bytes = Position::new(5, 3).to_bytes();
    bytes[0] = 2;
    assert_eq!(Position::from_bytes(&bytes), Err(StorageError::UnknownVersion));
    assert_eq!(Position::from_bytes(&[0]), Err(StorageError::UnknownVersion));
    assert_eq!(Position::from_bytes(&[2, 9, 9]), Err(StorageError::UnknownVersion));
}

#[test]
fn truncated_or_padded_record_has_wrong_length() {
    let bytes = Position::new(5, 3).to_bytes();
    assert_eq!(Position::from_bytes(&bytes[..16]), Err(StorageError::WrongLength));
    assert_eq!(Position::from_bytes(&bytes[..1]), Err(StorageError::WrongLength));
    let mut longer = bytes.clone();
    longer.push(0);
    assert_eq!(Position::from_bytes(&longer), Err(StorageError::WrongLength));
}

#[test]
fn default_position_is_empty() {
    assert_eq!(Position::default(), Position::new(0, 0));
}

#[test]
fn policy_needs_a_positive_denominator_and_a_ratio_of_at_most_one() {
    assert!(LtvPolicy::new(60, 0).is_none());
    assert!(LtvPolicy::new(0, 0).is_none());
    assert!(LtvPolicy::new(101, 100).is_none());
    assert!(LtvPolicy::new(100, 100).is_some());
    assert!(LtvPolicy::new(0, 1).is_some());
    let policy = LtvPolicy::new(6000, 10000).unwrap();
    assert_eq!(policy.numerator(), 6000);
    assert_eq!(policy.denominator(), 10000);
}

#[test]
fn max_debt_is_the_floor_of_the_share() {
    let policy = sixty_percent();
    assert_eq!(policy.max_debt(1000), 600);
    assert_eq!(policy.max_debt(999), 599);
    assert_eq!(policy.max_debt(1), 0);
    assert_eq!(policy.max_debt(2), 1);
    assert_eq!(policy.max_debt(0), 0);
    assert_eq!(LtvPolicy::new(1, 2).unwrap().max_debt(7), 3);
    assert_eq!(LtvPolicy::new(1, 1).unwrap().max_debt(u64::MAX), u64::MAX);
    assert_eq!(LtvPolicy::new(0, 5).unwrap().max_debt(u64::MAX), 0);
}

#[test]
fn max_debt_does_not_overflow_on_large_collateral() {
    let policy = LtvPolicy::new(6000, 10000).unwrap();
    assert_eq!(policy.max_debt(u64::MAX), 11068046444225730969);
    let wide = LtvPolicy::new(u64::MAX - 1, u64::MAX).unwrap();
    assert_eq!(wide.max_debt(u64::MAX), u64::MAX - 1);
}

#[test]
fn deposit_step_adds_or_overflows() {
    assert_eq!(Position::new(10, 4).deposit(5), Ok(Position::new(15, 4)));
    assert_eq!(Position::new(10, 4).deposit(0), Ok(Position::new(10, 4)));
    assert_eq!(
        Position::new(u64::MAX - 1, 0).deposit(1),
        Ok(Position::new(u64::MAX, 0))
    );
    assert_eq!(
        Position::new(u64::MAX - 1, 0).deposit(2),
        Err(EngineError::Overflow)
    );
}

#[test]
fn borrow_step_stops_at_the_limit() {
    let policy = sixty_percent();
    assert_eq!(
        Position::new(1000, 0).borrow(&policy, 600),
        Ok(Position::new(1000, 600))
    );
    assert_eq!(
        Position::new(1000, 0).borrow(&policy, 601),
        Err(EngineError::LimitExceeded)
    );
    assert_eq!(
        Position::new(1000, 599).borrow(&policy, 1),
        Ok(Position::new(1000, 600))
    );
    assert_eq!(
        Position::new(1000, 600).borrow(&policy, 0),
        Ok(Position::new(1000, 600))
    );
    assert_eq!(
        Position::new(1000, 650).borrow(&policy, 0),
        Err(EngineError::LimitExceeded)
    );
    assert_eq!(
        Position::new(1000, 1).borrow(&policy, u64::MAX),
        Err(EngineError::LimitExceeded)
    );
}

#[test]
fn repay_step_saturates_at_zero() {
    assert_eq!(Position::new(1000, 600).repay(1000), Ok(Position::new(1000, 0)));
    assert_eq!(Position::new(1000, 600).repay(600), Ok(Position::new(1000, 0)));
    assert_eq!(Position::new(1000, 600).repay(1), Ok(Position::new(1000, 599)));
    assert_eq!(Position::new(1000, 600).repay(0), Ok(Position::new(1000, 600)));
    assert_eq!(
        Position::new(1000, 600).repay(u64::MAX),
        Ok(Position::new(1000, 0))
    );
    assert_eq!(Position::new(1000, 0).repay(5), Err(EngineError::NoDebt));
    assert_eq!(Position::new(1000, 0).repay(0), Err(EngineError::NoDebt));
}

#[test]
fn repay_all_step_clears_the_debt() {
    assert_eq!(Position::new(7, 3).repay_all(), Position::new(7, 0));
    assert_eq!(Position::new(7, 0).repay_all(), Position::new(7, 0));
}

#[test]
fn liquidate_step_seizes_only_what_is_underwater() {
    let policy = sixty_percent();
    assert!(Position::new(1000, 600).is_healthy(&policy));
    assert!(!Position::new(1000, 601).is_healthy(&policy));
    assert!(Position::new(0, 0).is_healthy(&policy));
    assert!(!Position::new(0, 1).is_healthy(&policy));
    assert_eq!(
        Position::new(1000, 600).liquidate(&policy),
        Position::new(1000, 600)
    );
    assert_eq!(
        Position::new(1000, 650).liquidate(&policy),
        Position::new(0, 0)
    );
}

#[test]
fn debit_step_keeps_the_debt_backed() {
    let policy = sixty_percent();
    assert_eq!(
        Position::new(1000, 300).debit(&policy, 500),
        Ok(Position::new(500, 300))
    );
    assert_eq!(
        Position::new(1000, 300).debit(&policy, 501),
        Err(EngineError::LimitExceeded)
    );
    assert_eq!(
        Position::new(1000, 0).debit(&policy, 1000),
        Ok(Position::new(0, 0))
    );
    assert_eq!(
        Position::new(1000, 0).debit(&policy, 1001),
        Err(EngineError::InsufficientBalance)
    );
    assert_eq!(
        Position::new(1000, 300).debit(&policy, 0),
        Ok(Position::new(1000, 300))
    );
}

#[test]
fn deposit_undoes_a_debit() {
    let policy = sixty_percent();
    let samples = [(1000u64, 300u64, 400u64), (u64::MAX, 0, u64::MAX), (5, 3, 0)];
    for (collateral, debt, amount) in samples {
        let before = Position::new(collateral, debt);
        let debited = before.debit(&policy, amount).unwrap();
        assert_eq!(debited.deposit(amount), Ok(before));
    }
}
