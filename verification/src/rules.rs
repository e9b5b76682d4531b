//! The rules of lending, as steps from one position to the next.
//!
//! Every step is total: it gives the next position or the reason for which
//! the position stays as it is.

use vstd::prelude::*;
use crate::error::EngineError;
use crate::position::{lemma_max_debt_bounds, LtvPolicy, Position};

verus! {

/// Depositing adds to the collateral. The credit that undoes the debit of a
/// withdrawal is a deposit of the same amount.
pub open spec fn deposit_step(p: Position, amount: u64) -> Result<Position, EngineError> {
    if p.collateral + amount > u64::MAX {
        Err(EngineError::Overflow)
    } else {
        Ok(Position { collateral: (p.collateral + amount) as u64, debt: p.debt })
    }
}

/// Borrowing adds to the debt, as long as the debt stays within what the
/// collateral backs.
pub open spec fn borrow_step(policy: LtvPolicy, p: Position, amount: u64) -> Result<
    Position,
    EngineError,
> {
    if p.debt + amount > policy.spec_max_debt(p.collateral) {
        Err(EngineError::LimitExceeded)
    } else {
        Ok(Position { collateral: p.collateral, debt: (p.debt + amount) as u64 })
    }
}

/// Repaying takes from the debt and stops at zero; without debt there is
/// nothing to repay.
pub open spec fn repay_step(p: Position, amount: u64) -> Result<Position, EngineError> {
    if p.debt == 0 {
        Err(EngineError::NoDebt)
    } else if amount >= p.debt {
        Ok(Position { collateral: p.collateral, debt: 0 })
    } else {
        Ok(Position { collateral: p.collateral, debt: (p.debt - amount) as u64 })
    }
}

/// Repaying everything clears the debt.
pub open spec fn repay_all_step(p: Position) -> Position {
    Position { collateral: p.collateral, debt: 0 }
}

/// Liquidation seizes a position whose debt exceeds what its collateral
/// backs, in full, and leaves any other as it is.
pub open spec fn liquidate_step(policy: LtvPolicy, p: Position) -> Position {
    if policy.healthy(p) {
        p
    } else {
        Position::empty()
    }
}

/// The debit that starts a withdrawal takes from the collateral what the
/// collateral holds and the debt can spare.
pub open spec fn debit_step(policy: LtvPolicy, p: Position, amount: u64) -> Result<
    Position,
    EngineError,
> {
    if amount > p.collateral {
        Err(EngineError::InsufficientBalance)
    } else if p.debt > policy.spec_max_debt((p.collateral - amount) as u64) {
        Err(EngineError::LimitExceeded)
    } else {
        Ok(Position { collateral: (p.collateral - amount) as u64, debt: p.debt })
    }
}

impl Position {
    pub fn deposit(self, amount: u64) -> (next: Result<Position, EngineError>)
        ensures
            next == deposit_step(self, amount),
    {
        match self.collateral.checked_add(amount) {
            Some(collateral) => Ok(Position { collateral, debt: self.debt }),
            None => Err(EngineError::Overflow),
        }
    }

    pub fn borrow(self, policy: &LtvPolicy, amount: u64) -> (next: Result<Position, EngineError>)
        ensures
            next == borrow_step(*policy, self, amount),
    {
        let limit = policy.max_debt(self.collateral);
        match self.debt.checked_add(amount) {
            Some(debt) => {
                if debt > limit {
                    Err(EngineError::LimitExceeded)
                } else {
                    Ok(Position { collateral: self.collateral, debt })
                }
            },
            None => Err(EngineError::LimitExceeded),
        }
    }

    pub fn repay(self, amount: u64) -> (next: Result<Position, EngineError>)
        ensures
            next == repay_step(self, amount),
    {
        if self.debt == 0 {
            Err(EngineError::NoDebt)
        } else {
            Ok(Position { collateral: self.collateral, debt: self.debt.saturating_sub(amount) })
        }
    }

    pub fn repay_all(self) -> (next: Position)
        ensures
            next == repay_all_step(self),
    {
        Position { collateral: self.collateral, debt: 0 }
    }

    /// Whether the debt is within what the collateral backs.
    pub fn is_healthy(&self, policy: &LtvPolicy) -> (healthy: bool)
        ensures
            healthy == policy.healthy(*self),
    {
        self.debt <= policy.max_debt(self.collateral)
    }

    pub fn liquidate(self, policy: &LtvPolicy) -> (next: Position)
        ensures
            next == liquidate_step(*policy, self),
    {
        if self.is_healthy(policy) {
            self
        } else {
            Position { collateral: 0, debt: 0 }
        }
    }

    pub fn debit(self, policy: &LtvPolicy, amount: u64) -> (next: Result<Position, EngineError>)
        ensures
            next == debit_step(*policy, self, amount),
    {
        if amount > self.collateral {
            return Err(EngineError::InsufficientBalance);
        }
        let collateral = self.collateral - amount;
        if self.debt > policy.max_debt(collateral) {
            Err(EngineError::LimitExceeded)
        } else {
            Ok(Position { collateral, debt: self.debt })
        }
    }
}

/// More collateral backs at least as much debt.
pub proof fn lemma_max_debt_monotonic(policy: LtvPolicy, less: u64, more: u64)
    requires
        policy.wf(),
        less <= more,
    ensures
        policy.spec_max_debt(less) <= policy.spec_max_debt(more),
{
    let n = policy.spec_numerator() as int;
    let d = policy.spec_denominator() as int;
    policy.lemma_wf();
    assert(less * n <= more * n) by (nonlinear_arith)
        requires
            less <= more,
            0 <= n,
    ;
    assert((less * n) / d <= (more * n) / d) by (nonlinear_arith)
        requires
            less * n <= more * n,
            0 < d,
    ;
}

/// A position that was within its limit is within its limit after any step
/// that goes through, and a borrow, a liquidation or a debit that goes
/// through leaves it within its limit whatever it was before.
pub proof fn lemma_steps_keep_limit(policy: LtvPolicy, p: Position, amount: u64)
    requires
        policy.wf(),
    ensures
        policy.healthy(p) ==> (deposit_step(p, amount) matches Ok(q) ==> policy.healthy(q)),
        borrow_step(policy, p, amount) matches Ok(q) ==> policy.healthy(q),
        policy.healthy(p) ==> (repay_step(p, amount) matches Ok(q) ==> policy.healthy(q)),
        policy.healthy(p) ==> policy.healthy(repay_all_step(p)),
        policy.healthy(liquidate_step(policy, p)),
        debit_step(policy, p, amount) matches Ok(q) ==> policy.healthy(q),
{
    policy.lemma_wf();
    let n = policy.spec_numerator() as int;
    let d = policy.spec_denominator() as int;
    lemma_max_debt_bounds(p.collateral as int, n, d);
    lemma_max_debt_bounds(0, n, d);
    if p.collateral + amount <= u64::MAX {
        lemma_max_debt_monotonic(policy, p.collateral, (p.collateral + amount) as u64);
    }
}

/// A borrow that would take the debt past the limit is refused, and a refused
/// borrow is one that would have done so.
pub proof fn lemma_borrow_refused(policy: LtvPolicy, p: Position, amount: u64)
    ensures
        borrow_step(policy, p, amount) == Err::<Position, EngineError>(EngineError::LimitExceeded)
            <==> p.debt + amount > policy.spec_max_debt(p.collateral),
{
}

/// Repaying never takes the debt below zero: it takes it to zero, or down by
/// the amount, and never up.
pub proof fn lemma_repay_saturates(p: Position, amount: u64)
    ensures
        repay_step(p, amount) matches Ok(q) ==> q.collateral == p.collateral && 0 <= q.debt
            <= p.debt && q.debt as int == if amount >= p.debt {
            0
        } else {
            p.debt - amount
        },
        repay_step(p, amount) is Err <==> p.debt == 0,
{
}

/// Repaying everything a second time changes nothing.
pub proof fn lemma_repay_all_idempotent(p: Position)
    ensures
        repay_all_step(repay_all_step(p)) == repay_all_step(p),
        repay_all_step(p).debt == 0,
        repay_all_step(p).collateral == p.collateral,
{
}

/// Liquidating a position within its limit changes nothing; liquidating any
/// other empties it.
pub proof fn lemma_liquidate(policy: LtvPolicy, p: Position)
    ensures
        policy.healthy(p) ==> liquidate_step(policy, p) == p,
        !policy.healthy(p) ==> liquidate_step(policy, p) == Position::empty(),
{
}

/// A deposit of what was debited gives the position that was debited.
pub proof fn lemma_deposit_undoes_debit(policy: LtvPolicy, p: Position, amount: u64)
    ensures
        debit_step(policy, p, amount) matches Ok(q) ==> deposit_step(q, amount) == Ok::<
            Position,
            EngineError,
        >(p),
{
}

} // verus!
