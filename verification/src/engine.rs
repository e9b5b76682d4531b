//! The lending engine: the operations on positions and the two halves of a
//! withdrawal, around the call to the external gateway that the host makes
//! between them.
//!
//! An operation reads the user's position, computes the next one and stores
//! it, with nothing in between. A withdrawal debits before the host calls the
//! gateway and keeps the user's other operations out until the call is
//! settled, so that nothing acts on a balance that may yet be credited back.

use vstd::prelude::*;
use crate::error::EngineError;
use crate::gateway::{GatewayError, TransferOutcome};
use crate::identity::{bytes_before, UserId};
use crate::ledger::{AccountLedger, LedgerEntry};
use crate::position::{encode_position, LtvPolicy, Position, StorageError};
use crate::rules::{
    borrow_step, debit_step, deposit_step, lemma_deposit_undoes_debit, lemma_steps_keep_limit,
    liquidate_step, repay_all_step, repay_step,
};

verus! {

/// How far an attempted transfer has come.
#[derive(Clone, Copy, Debug, PartialEq, Eq, Structural)]
pub enum TransferState {
    /// The amount is debited and the gateway has not given a final answer.
    Pending,
    /// The gateway moved the amount; the debit stays.
    Confirmed,
    /// The gateway refused; the amount was credited back.
    Failed,
}

/// The record of a withdrawal in flight.
#[derive(Debug, PartialEq, Eq)]
pub struct TransferIntent {
    pub user: UserId,
    pub amount: u64,
    pub state: TransferState,
}

/// The state in which an outcome of the gateway leaves a pending transfer: a
/// receipt confirms it, a rejection fails it, and anything else leaves it
/// pending, since the amount may have moved.
pub open spec fn settled_state(outcome: TransferOutcome) -> TransferState {
    match outcome {
        Ok(_) => TransferState::Confirmed,
        Err(GatewayError::Rejected) => TransferState::Failed,
        Err(_) => TransferState::Pending,
    }
}

pub fn settle_state(outcome: &TransferOutcome) -> (state: TransferState)
    ensures
        state == settled_state(*outcome),
{
    match outcome {
        Ok(_) => TransferState::Confirmed,
        Err(GatewayError::Rejected) => TransferState::Failed,
        Err(_) => TransferState::Pending,
    }
}

/// Whether `pending` holds a transfer of `user`.
spec fn has_transfer(pending: Seq<TransferIntent>, user: Seq<u8>) -> bool {
    exists|i: int| 0 <= i < pending.len() && #[trigger] pending[i].user@ == user
}

/// The place of the transfer of `user` in `pending`.
spec fn transfer_index(pending: Seq<TransferIntent>, user: Seq<u8>) -> int {
    choose|i: int| 0 <= i < pending.len() && #[trigger] pending[i].user@ == user
}

/// Whether no user has two transfers in `pending`.
spec fn one_per_user(pending: Seq<TransferIntent>) -> bool {
    forall|i: int, j: int|
        #![trigger pending[i], pending[j]]
        0 <= i < j < pending.len() ==> pending[i].user@ != pending[j].user@
}

/// The amounts in `pending`, by user.
spec fn amounts_by_user(pending: Seq<TransferIntent>) -> Map<Seq<u8>, u64> {
    Map::new(
        |user: Seq<u8>| has_transfer(pending, user),
        |user: Seq<u8>| pending[transfer_index(pending, user)].amount,
    )
}

/// What an operation reports of the step it attempted.
pub open spec fn reported(step: Result<Position, EngineError>) -> Result<(), EngineError> {
    match step {
        Ok(_) => Ok(()),
        Err(error) => Err(error),
    }
}

proof fn lemma_transfer_index(pending: Seq<TransferIntent>, i: int)
    requires
        one_per_user(pending),
        0 <= i < pending.len(),
    ensures
        has_transfer(pending, pending[i].user@),
        transfer_index(pending, pending[i].user@) == i,
        amounts_by_user(pending).contains_key(pending[i].user@),
        amounts_by_user(pending)[pending[i].user@] == pending[i].amount,
{
    let user = pending[i].user@;
    assert(has_transfer(pending, user));
    let k = transfer_index(pending, user);
    assert(pending[k].user@ == user);
    if k < i {
        assert(pending[k].user@ != pending[i].user@);
    } else if i < k {
        assert(pending[i].user@ != pending[k].user@);
    }
}

proof fn lemma_amounts_after_push(pending: Seq<TransferIntent>, intent: TransferIntent)
    requires
        one_per_user(pending),
        !has_transfer(pending, intent.user@),
    ensures
        one_per_user(pending.push(intent)),
        amounts_by_user(pending.push(intent)) == amounts_by_user(pending).insert(
            intent.user@,
            intent.amount,
        ),
{
    let after = pending.push(intent);
    assert forall|i: int, j: int|
        #![trigger after[i], after[j]]
        0 <= i < j < after.len() implies after[i].user@ != after[j].user@ by {
        if j == pending.len() {
            if pending[i].user@ == intent.user@ {
                assert(has_transfer(pending, intent.user@));
            }
        } else {
            assert(pending[i].user@ != pending[j].user@);
        }
    }
    assert forall|user: Seq<u8>| has_transfer(after, user) <==> (user == intent.user@
        || has_transfer(pending, user)) by {
        if has_transfer(after, user) {
            let k = transfer_index(after, user);
            assert(after[k].user@ == user);
            if k < pending.len() {
                assert(pending[k].user@ == user);
            }
        }
        if user == intent.user@ {
            assert(after[pending.len() as int].user@ == user);
        }
        if has_transfer(pending, user) {
            let k = transfer_index(pending, user);
            assert(after[k].user@ == user);
        }
    }
    assert forall|user: Seq<u8>| has_transfer(after, user) implies #[trigger] amounts_by_user(
        after,
    )[user] == amounts_by_user(pending).insert(intent.user@, intent.amount)[user] by {
        if user == intent.user@ {
            lemma_transfer_index(after, pending.len() as int);
        } else {
            let k = transfer_index(pending, user);
            lemma_transfer_index(pending, k);
            assert(after[k] == pending[k]);
            lemma_transfer_index(after, k);
        }
    }
    assert(amounts_by_user(after) =~= amounts_by_user(pending).insert(intent.user@, intent.amount));
}

proof fn lemma_amounts_after_remove(pending: Seq<TransferIntent>, i: int)
    requires
        one_per_user(pending),
        0 <= i < pending.len(),
    ensures
        one_per_user(pending.remove(i)),
        !has_transfer(pending.remove(i), pending[i].user@),
        amounts_by_user(pending.remove(i)) == amounts_by_user(pending).remove(pending[i].user@),
{
    let after = pending.remove(i);
    let gone = pending[i].user@;
    assert forall|a: int| 0 <= a < after.len() implies #[trigger] after[a] == pending[if a < i {
        a
    } else {
        a + 1
    }] by {}
    assert forall|a: int, b: int|
        #![trigger after[a], after[b]]
        0 <= a < b < after.len() implies after[a].user@ != after[b].user@ by {
        let pa = if a < i { a } else { a + 1 };
        let pb = if b < i { b } else { b + 1 };
        assert(pending[pa].user@ != pending[pb].user@);
    }
    assert forall|user: Seq<u8>| has_transfer(after, user) <==> (user != gone && has_transfer(
        pending,
        user,
    )) by {
        if has_transfer(after, user) {
            let k = transfer_index(after, user);
            let pk = if k < i { k } else { k + 1 };
            assert(pending[pk].user@ == user);
            if pk < i {
                assert(pending[pk].user@ != pending[i].user@);
            } else {
                assert(pending[i].user@ != pending[pk].user@);
            }
        }
        if user != gone && has_transfer(pending, user) {
            let k = transfer_index(pending, user);
            assert(pending[k].user@ == user);
            let ak = if k < i { k } else { k - 1 };
            assert(after[ak].user@ == user);
        }
    }
    assert forall|user: Seq<u8>| has_transfer(after, user) implies #[trigger] amounts_by_user(
        after,
    )[user] == amounts_by_user(pending)[user] by {
        let k = transfer_index(pending, user);
        lemma_transfer_index(pending, k);
        let ak = if k < i { k } else { k - 1 };
        assert(after[ak] == pending[k]);
        lemma_transfer_index(after, ak);
    }
    assert(amounts_by_user(after) =~= amounts_by_user(pending).remove(gone));
}

/// The ledger, the loan-to-value policy, and the withdrawals in flight.
pub struct LendingEngine {
    ledger: AccountLedger,
    policy: LtvPolicy,
    pending: Vec<TransferIntent>,
}

impl LendingEngine {
    /// The invariant of the engine, which [`LendingEngine::new`] establishes
    /// and every operation keeps: every transfer in flight is pending, is the
    /// only one of its user, and can be credited back to that user's record.
    pub closed spec fn wf(&self) -> bool {
        &&& self.policy.wf()
        &&& forall|i: int|
            #![trigger self.pending@[i]]
            0 <= i < self.pending@.len() ==> {
                &&& self.pending@[i].state == TransferState::Pending
                &&& self.ledger.record(self.pending@[i].user@) matches Ok(p)
                &&& p.collateral + self.pending@[i].amount <= u64::MAX
            }
        &&& one_per_user(self.pending@)
    }

    pub closed spec fn spec_ledger(&self) -> &AccountLedger {
        &self.ledger
    }

    pub closed spec fn spec_policy(&self) -> &LtvPolicy {
        &self.policy
    }

    /// The amounts of the withdrawals in flight, by user.
    pub closed spec fn in_flight(&self) -> Map<Seq<u8>, u64> {
        amounts_by_user(self.pending@)
    }

    /// What an operation on `user` starts from: the user's position, unless a
    /// withdrawal of the user is in flight or the record does not decode.
    pub open spec fn starts_from(&self, user: Seq<u8>) -> Result<Position, EngineError> {
        if self.in_flight().contains_key(user) {
            Err(EngineError::Busy)
        } else {
            match self.ledger().record(user) {
                Ok(p) => Ok(p),
                Err(error) => Err(EngineError::Storage(error)),
            }
        }
    }

    /// Whether the record of `user` decodes to a position within its limit.
    pub open spec fn backed(&self, user: Seq<u8>) -> bool {
        self.ledger().record(user) matches Ok(p) && self.policy().healthy(p)
    }

    /// Whether `self` is `before` in all but the records.
    pub open spec fn keeps_all_but_records(&self, before: &LendingEngine) -> bool {
        self.policy() == before.policy() && self.in_flight() == before.in_flight()
    }

    /// Whether `self` is `before` with nothing changed.
    pub open spec fn keeps(&self, before: &LendingEngine) -> bool {
        self.keeps_all_but_records(before) && self.ledger()@ == before.ledger()@
    }

    /// Whether the records of `self` are those of `before` after an operation
    /// on `user` attempted `step`: the next position is stored where the step
    /// gave one that differs from what the user held, and nothing is written
    /// otherwise.
    pub open spec fn records_follow(
        &self,
        before: &LendingEngine,
        user: Seq<u8>,
        step: Result<Position, EngineError>,
    ) -> bool {
        match step {
            Ok(next) => if before.ledger().record(user) == Ok::<Position, StorageError>(next) {
                self.ledger()@ == before.ledger()@
            } else {
                self.ledger()@ == before.ledger()@.insert(user, encode_position(next))
            },
            Err(_) => self.ledger()@ == before.ledger()@,
        }
    }

    /// What [`LendingEngine::records_follow`] means for the positions: `user`
    /// holds what the step gave, or what the user held if it gave nothing, and
    /// every other user reads as before.
    pub open spec fn positions_follow(
        &self,
        before: &LendingEngine,
        user: Seq<u8>,
        step: Result<Position, EngineError>,
    ) -> bool {
        &&& self.ledger().record(user) == match step {
            Ok(next) => Ok::<Position, StorageError>(next),
            Err(_) => before.ledger().record(user),
        }
        &&& forall|other: Seq<u8>|
            other != user ==> #[trigger] self.ledger().record(other) == before.ledger().record(
                other,
            )
    }

    /// Whether `self` is what `before` becomes when an operation on `user`
    /// attempted `step` and touched nothing but that user's record.
    pub open spec fn follows(
        &self,
        before: &LendingEngine,
        user: Seq<u8>,
        step: Result<Position, EngineError>,
    ) -> bool {
        &&& self.keeps_all_but_records(before)
        &&& self.records_follow(before, user, step)
        &&& self.positions_follow(before, user, step)
    }

    pub open spec fn deposit_attempt(&self, user: Seq<u8>, amount: u64) -> Result<
        Position,
        EngineError,
    > {
        match self.starts_from(user) {
            Ok(p) => deposit_step(p, amount),
            Err(error) => Err(error),
        }
    }

    pub open spec fn borrow_attempt(&self, user: Seq<u8>, amount: u64) -> Result<
        Position,
        EngineError,
    > {
        match self.starts_from(user) {
            Ok(p) => borrow_step(*self.policy(), p, amount),
            Err(error) => Err(error),
        }
    }

    pub open spec fn repay_attempt(&self, user: Seq<u8>, amount: u64) -> Result<
        Position,
        EngineError,
    > {
        match self.starts_from(user) {
            Ok(p) => repay_step(p, amount),
            Err(error) => Err(error),
        }
    }

    pub open spec fn repay_all_attempt(&self, user: Seq<u8>) -> Result<Position, EngineError> {
        match self.starts_from(user) {
            Ok(p) => Ok(repay_all_step(p)),
            Err(error) => Err(error),
        }
    }

    pub open spec fn liquidate_attempt(&self, user: Seq<u8>) -> Result<Position, EngineError> {
        match self.starts_from(user) {
            Ok(p) => Ok(liquidate_step(*self.policy(), p)),
            Err(error) => Err(error),
        }
    }

    pub open spec fn debit_attempt(&self, user: Seq<u8>, amount: u64) -> Result<
        Position,
        EngineError,
    > {
        match self.starts_from(user) {
            Ok(p) => debit_step(*self.policy(), p, amount),
            Err(error) => Err(error),
        }
    }

    /// Whether every user whose record was within its limit in `before` still
    /// has a record within its limit.
    pub open spec fn keeps_backing(&self, before: &LendingEngine) -> bool {
        forall|user: Seq<u8>| #[trigger] before.backed(user) ==> self.backed(user)
    }

    /// An engine over `ledger` with no withdrawal in flight.
    pub fn new(ledger: AccountLedger, policy: LtvPolicy) -> (engine: LendingEngine)
        ensures
            engine.wf(),
            engine.ledger()@ == ledger@,
            engine.policy() == policy,
            engine.in_flight() == Map::<Seq<u8>, u64>::empty(),
    {
        proof {
            use_type_invariant(&policy);
        }
        let engine = LendingEngine { ledger, policy, pending: Vec::new() };
        assert(engine.in_flight() =~= Map::<Seq<u8>, u64>::empty());
        engine
    }

    #[verifier::when_used_as_spec(spec_ledger)]
    pub fn ledger(&self) -> (ledger: &AccountLedger)
        ensures
            ledger == self.spec_ledger(),
    {
        &self.ledger
    }

    #[verifier::when_used_as_spec(spec_policy)]
    pub fn policy(&self) -> (policy: &LtvPolicy)
        ensures
            policy == self.spec_policy(),
    {
        &self.policy
    }
}

/// In an engine whose ledger holds no record every user is within the limit,
/// and, since every operation keeps users within their limits, so is every
/// user in every state that the operations reach from there.
pub proof fn lemma_fresh_engine_is_backed(engine: LendingEngine)
    requires
        engine.wf(),
        engine.ledger()@ == Map::<Seq<u8>, Seq<u8>>::empty(),
    ensures
        forall|user: Seq<u8>| #[trigger] engine.backed(user),
{
    engine.policy().lemma_wf();
    assert forall|user: Seq<u8>| #[trigger] engine.backed(user) by {
        assert(!engine.ledger()@.contains_key(user));
        assert(engine.ledger().record(user) == Ok::<Position, StorageError>(Position::empty()));
        lemma_steps_keep_limit(*engine.policy(), Position::empty(), 0);
    }
}

/// A withdrawal that the gateway rejects leaves every position as it was
/// before the withdrawal began: `debited` is the engine after the first half,
/// `after` the engine after the rejection was settled.
pub proof fn lemma_rejected_withdrawal_restores(
    before: LendingEngine,
    debited: LendingEngine,
    after: LendingEngine,
    user: Seq<u8>,
    amount: u64,
)
    requires
        before.debit_attempt(user, amount) is Ok,
        debited.positions_follow(&before, user, before.debit_attempt(user, amount)),
        debited.ledger().record(user) matches Ok(held) && after.positions_follow(
            &debited,
            user,
            deposit_step(held, amount),
        ),
    ensures
        forall|any: Seq<u8>| #[trigger]
            after.ledger().record(any) == before.ledger().record(any),
{
    let start = before.starts_from(user)->Ok_0;
    lemma_deposit_undoes_debit(*before.policy(), start, amount);
    assert forall|any: Seq<u8>| #[trigger]
        after.ledger().record(any) == before.ledger().record(any) by {
        if any != user {
            assert(debited.ledger().record(any) == before.ledger().record(any));
        }
    }
}

impl LendingEngine {
    /// The place of the transfer of `user` among those in flight.
    fn find_transfer(&self, user: &UserId) -> (found: Option<usize>)
        requires
            self.wf(),
        ensures
            found is Some <==> self.in_flight().contains_key(user@),
            found matches Some(i) ==> i < self.pending@.len() && self.pending@[i as int].user@
                == user@ && self.in_flight()[user@] == self.pending@[i as int].amount,
    {
        let mut i: usize = 0;
        while i < self.pending.len()
            invariant
                self.wf(),
                i <= self.pending@.len(),
                forall|j: int| 0 <= j < i ==> (#[trigger] self.pending@[j]).user@ != user@,
            decreases self.pending@.len() - i,
        {
            if self.pending[i].user.same_as(user) {
                proof {
                    lemma_transfer_index(self.pending@, i as int);
                }
                return Some(i);
            }
            i += 1;
        }
        None
    }

    /// What an operation on `user` starts from.
    fn start(&self, user: &UserId) -> (start: Result<Position, EngineError>)
        requires
            self.wf(),
        ensures
            start == self.starts_from(user@),
    {
        if self.find_transfer(user).is_some() {
            return Err(EngineError::Busy);
        }
        match self.ledger.get(user) {
            Ok(p) => Ok(p),
            Err(error) => Err(EngineError::Storage(error)),
        }
    }

    /// Stores `next` as the record of `user`, who held `current` and has no
    /// transfer in flight, unless the two are the same.
    fn commit(&mut self, user: &UserId, current: Position, next: Position)
        requires
            old(self).wf(),
            !old(self).in_flight().contains_key(user@),
            old(self).ledger().record(user@) == Ok::<Position, StorageError>(current),
        ensures
            final(self).wf(),
            final(self).follows(old(self), user@, Ok(next)),
    {
        if next != current {
            self.ledger.upsert(user, next);
            proof {
                assert forall|i: int|
                    #![trigger self.pending@[i]]
                    0 <= i < self.pending@.len() implies self.pending@[i].user@ != user@ by {
                    if self.pending@[i].user@ == user@ {
                        assert(has_transfer(self.pending@, user@));
                    }
                }
            }
        }
    }

    /// Runs one operation on `user`: stores what `step` gave for the position
    /// `current` that the user held, and reports it.
    fn conclude(
        &mut self,
        user: &UserId,
        current: Position,
        step: Result<Position, EngineError>,
    ) -> (outcome: Result<(), EngineError>)
        requires
            old(self).wf(),
            old(self).starts_from(user@) == Ok::<Position, EngineError>(current),
            old(self).policy().healthy(current) && step is Ok ==> old(self).policy().healthy(
                step->Ok_0,
            ),
        ensures
            final(self).wf(),
            final(self).follows(old(self), user@, step),
            outcome == reported(step),
            final(self).keeps_backing(old(self)),
    {
        match step {
            Ok(next) => {
                self.commit(user, current, next);
                Ok(())
            },
            Err(error) => Err(error),
        }
    }
}

/// Adds `amount` to the collateral of `user`. An amount of zero is an amount
/// like any other: a deposit of zero changes nothing and is no error.
pub fn deposit(engine: &mut LendingEngine, user: &UserId, amount: u64) -> (outcome: Result<
    (),
    EngineError,
>)
    requires
        old(engine).wf(),
    ensures
        final(engine).wf(),
        final(engine).follows(old(engine), user@, old(engine).deposit_attempt(user@, amount)),
        outcome == reported(old(engine).deposit_attempt(user@, amount)),
        final(engine).keeps_backing(old(engine)),
{
    match engine.start(user) {
        Ok(p) => {
            proof {
                lemma_steps_keep_limit(*engine.policy(), p, amount);
            }
            engine.conclude(user, p, p.deposit(amount))
        },
        Err(error) => Err(error),
    }
}

/// Adds `amount` to the debt of `user`, unless the debt would then exceed
/// what the collateral backs. The check and the commit are one step: nothing
/// can act on the position between them.
pub fn borrow(engine: &mut LendingEngine, user: &UserId, amount: u64) -> (outcome: Result<
    (),
    EngineError,
>)
    requires
        old(engine).wf(),
    ensures
        final(engine).wf(),
        final(engine).follows(old(engine), user@, old(engine).borrow_attempt(user@, amount)),
        outcome == reported(old(engine).borrow_attempt(user@, amount)),
        old(engine).starts_from(user@) matches Ok(p) && p.debt + amount > old(
            engine,
        ).policy().spec_max_debt(p.collateral) ==> outcome == Err::<(), EngineError>(
            EngineError::LimitExceeded,
        ) && final(engine).keeps(old(engine)),
        final(engine).keeps_backing(old(engine)),
        outcome is Ok ==> final(engine).backed(user@),
{
    match engine.start(user) {
        Ok(p) => {
            proof {
                lemma_steps_keep_limit(*engine.policy(), p, amount);
            }
            let step = p.borrow(&engine.policy, amount);
            engine.conclude(user, p, step)
        },
        Err(error) => Err(error),
    }
}

/// Takes `amount` from the debt of `user`, stopping at zero: repaying more
/// than is owed clears the debt and is no error.
pub fn repay_loan(engine: &mut LendingEngine, user: &UserId, amount: u64) -> (outcome: Result<
    (),
    EngineError,
>)
    requires
        old(engine).wf(),
    ensures
        final(engine).wf(),
        final(engine).follows(old(engine), user@, old(engine).repay_attempt(user@, amount)),
        outcome == reported(old(engine).repay_attempt(user@, amount)),
        old(engine).starts_from(user@) matches Ok(p) && p.debt == 0 ==> outcome == Err::<
            (),
            EngineError,
        >(EngineError::NoDebt) && final(engine).keeps(old(engine)),
        old(engine).starts_from(user@) matches Ok(p) ==> (p.debt > 0 ==> outcome is Ok
            && final(engine).ledger().record(user@) == Ok::<Position, StorageError>(
            Position {
                collateral: p.collateral,
                debt: if amount >= p.debt {
                    0
                } else {
                    (p.debt - amount) as u64
                },
            },
        )),
        final(engine).keeps_backing(old(engine)),
{
    match engine.start(user) {
        Ok(p) => {
            proof {
                lemma_steps_keep_limit(*engine.policy(), p, amount);
            }
            engine.conclude(user, p, p.repay(amount))
        },
        Err(error) => Err(error),
    }
}

/// Clears the debt of `user`. Doing so again changes nothing.
pub fn repay_all(engine: &mut LendingEngine, user: &UserId) -> (outcome: Result<(), EngineError>)
    requires
        old(engine).wf(),
    ensures
        final(engine).wf(),
        final(engine).follows(old(engine), user@, old(engine).repay_all_attempt(user@)),
        outcome == reported(old(engine).repay_all_attempt(user@)),
        final(engine).keeps_backing(old(engine)),
{
    match engine.start(user) {
        Ok(p) => {
            proof {
                lemma_steps_keep_limit(*engine.policy(), p, 0);
            }
            engine.conclude(user, p, Ok(p.repay_all()))
        },
        Err(error) => Err(error),
    }
}

/// Seizes the position of `user` in full if its debt exceeds what its
/// collateral backs, and says whether it did. A position within its limit is
/// left as it is, which is no error.
pub fn liquidate(engine: &mut LendingEngine, user: &UserId) -> (outcome: Result<bool, EngineError>)
    requires
        old(engine).wf(),
    ensures
        final(engine).wf(),
        final(engine).follows(old(engine), user@, old(engine).liquidate_attempt(user@)),
        outcome == match old(engine).starts_from(user@) {
            Ok(p) => Ok::<bool, EngineError>(!old(engine).policy().healthy(p)),
            Err(error) => Err(error),
        },
        old(engine).starts_from(user@) matches Ok(p) && old(engine).policy().healthy(p)
            ==> final(engine).keeps(old(engine)),
        old(engine).starts_from(user@) matches Ok(p) && !old(engine).policy().healthy(p)
            ==> final(engine).ledger().record(user@) == Ok::<Position, StorageError>(
            Position::empty(),
        ),
        final(engine).keeps_backing(old(engine)),
        outcome is Ok ==> final(engine).backed(user@),
{
    match engine.start(user) {
        Ok(p) => {
            proof {
                lemma_steps_keep_limit(*engine.policy(), p, 0);
            }
            let seized = !p.is_healthy(&engine.policy);
            let next = p.liquidate(&engine.policy);
            let _ = engine.conclude(user, p, Ok(next));
            Ok(seized)
        },
        Err(error) => Err(error),
    }
}

/// Every stored record, read-only, in ascending order of identity.
pub fn get_positions(engine: &LendingEngine) -> (entries: Vec<LedgerEntry>)
    ensures
        forall|i: int|
            #![trigger entries@[i]]
            0 <= i < entries@.len() ==> engine.ledger()@.contains_key(entries@[i].user@)
                && entries@[i].record == engine.ledger().record(entries@[i].user@),
        forall|user: Seq<u8>|
            engine.ledger()@.contains_key(user) ==> exists|i: int|
                #![trigger entries@[i]]
                0 <= i < entries@.len() && entries@[i].user@ == user,
        forall|i: int, j: int|
            #![trigger entries@[i], entries@[j]]
            0 <= i < j < entries@.len() ==> bytes_before(entries@[i].user@, entries@[j].user@),
{
    engine.ledger.entries()
}

/// The amount of the withdrawal of `user` that is in flight, if there is one.
pub fn transfer_in_flight(engine: &LendingEngine, user: &UserId) -> (amount: Option<u64>)
    requires
        engine.wf(),
    ensures
        amount is Some <==> engine.in_flight().contains_key(user@),
        amount matches Some(a) ==> a == engine.in_flight()[user@],
{
    match engine.find_transfer(user) {
        Some(i) => Some(engine.pending[i].amount),
        None => None,
    }
}

/// The first half of a withdrawal: debits `amount` from the collateral of
/// `user` and records the transfer as pending, before the host calls the
/// gateway. The debit is refused if the collateral does not hold the amount
/// or would no longer back the debt.
///
/// Until the transfer is settled every operation on `user` is refused as
/// busy, so the balance that the gateway call started from is the balance
/// that a refund returns to.
pub fn begin_withdraw(engine: &mut LendingEngine, user: &UserId, amount: u64) -> (outcome: Result<
    TransferIntent,
    EngineError,
>)
    requires
        old(engine).wf(),
    ensures
        final(engine).wf(),
        final(engine).policy() == old(engine).policy(),
        final(engine).records_follow(
            old(engine),
            user@,
            old(engine).debit_attempt(user@, amount),
        ),
        final(engine).positions_follow(
            old(engine),
            user@,
            old(engine).debit_attempt(user@, amount),
        ),
        match old(engine).debit_attempt(user@, amount) {
            Ok(_) => {
                &&& outcome matches Ok(intent)
                &&& intent.user@ == user@
                &&& intent.amount == amount
                &&& intent.state == TransferState::Pending
                &&& final(engine).in_flight() == old(engine).in_flight().insert(user@, amount)
            },
            Err(error) => {
                &&& outcome == Err::<TransferIntent, EngineError>(error)
                &&& final(engine).in_flight() == old(engine).in_flight()
            },
        },
        final(engine).keeps_backing(old(engine)),
{
    let p = match engine.start(user) {
        Ok(p) => p,
        Err(error) => {
            return Err(error);
        },
    };
    let next = match p.debit(&engine.policy, amount) {
        Ok(next) => next,
        Err(error) => {
            return Err(error);
        },
    };
    proof {
        lemma_steps_keep_limit(*engine.policy(), p, amount);
    }
    engine.commit(user, p, next);
    let ghost before = engine.pending@;
    let intent = TransferIntent { user: user.duplicate(), amount, state: TransferState::Pending };
    proof {
        lemma_amounts_after_push(before, intent);
    }
    engine.pending.push(intent);
    proof {
        assert forall|i: int|
            #![trigger engine.pending@[i]]
            0 <= i < engine.pending@.len() implies {
            &&& engine.pending@[i].state == TransferState::Pending
            &&& engine.ledger.record(engine.pending@[i].user@) matches Ok(q)
            &&& q.collateral + engine.pending@[i].amount <= u64::MAX
        } by {
            if i < before.len() {
                assert(engine.pending@[i] == before[i]);
            }
        }
    }
    Ok(TransferIntent { user: user.duplicate(), amount, state: TransferState::Pending })
}

/// The second half of a withdrawal: applies what the gateway answered to the
/// transfer of `user` that is in flight.
///
/// A receipt confirms the transfer: the debit stays and the receipt is handed
/// on. A rejection fails it: the amount is credited back. Any other failure
/// leaves open whether the amount moved: the debit stays, the transfer stays
/// in flight, and nothing is credited until this function is called again
/// with what reconciliation found.
pub fn settle_withdraw(
    engine: &mut LendingEngine,
    user: &UserId,
    outcome: TransferOutcome,
) -> (settled: Result<u64, EngineError>)
    requires
        old(engine).wf(),
    ensures
        final(engine).wf(),
        final(engine).policy() == old(engine).policy(),
        !old(engine).in_flight().contains_key(user@) ==> {
            &&& settled == Err::<u64, EngineError>(EngineError::NoTransfer)
            &&& final(engine).keeps(old(engine))
        },
        old(engine).in_flight().contains_key(user@) ==> match settled_state(outcome) {
            TransferState::Confirmed => {
                &&& outcome matches Ok(receipt)
                &&& settled == Ok::<u64, EngineError>(receipt)
                &&& final(engine).ledger()@ == old(engine).ledger()@
                &&& final(engine).in_flight() == old(engine).in_flight().remove(user@)
            },
            TransferState::Failed => {
                &&& settled == Err::<u64, EngineError>(EngineError::Rejected)
                &&& final(engine).in_flight() == old(engine).in_flight().remove(user@)
                &&& old(engine).ledger().record(user@) matches Ok(debited)
                &&& deposit_step(debited, old(engine).in_flight()[user@]) is Ok
                &&& final(engine).records_follow(
                    old(engine),
                    user@,
                    deposit_step(debited, old(engine).in_flight()[user@]),
                )
                &&& final(engine).positions_follow(
                    old(engine),
                    user@,
                    deposit_step(debited, old(engine).in_flight()[user@]),
                )
            },
            TransferState::Pending => {
                &&& settled == Err::<u64, EngineError>(EngineError::Ambiguous)
                &&& final(engine).keeps(old(engine))
            },
        },
        final(engine).keeps_backing(old(engine)),
{
    let i = match engine.find_transfer(user) {
        Some(i) => i,
        None => {
            return Err(EngineError::NoTransfer);
        },
    };
    let ghost before = engine.pending@;
    proof {
        lemma_amounts_after_remove(before, i as int);
    }
    match outcome {
        Ok(receipt) => {
            let _ = engine.pending.remove(i);
            proof {
                assert forall|k: int|
                    #![trigger engine.pending@[k]]
                    0 <= k < engine.pending@.len() implies engine.pending@[k] == before[if k < i {
                    k
                } else {
                    k + 1
                }] by {}
            }
            Ok(receipt)
        },
        Err(_) => match settle_state(&outcome) {
            TransferState::Failed => {
                let intent = engine.pending.remove(i);
                proof {
                    assert forall|k: int|
                        #![trigger engine.pending@[k]]
                        0 <= k < engine.pending@.len() implies engine.pending@[k] == before[if k
                        < i {
                        k
                    } else {
                        k + 1
                    }] by {}
                }
                let debited = match engine.ledger.get(user) {
                    Ok(debited) => debited,
                    Err(error) => {
                        assert(false);
                        return Err(EngineError::Storage(error));
                    },
                };
                proof {
                    lemma_steps_keep_limit(*engine.policy(), debited, intent.amount);
                }
                match debited.deposit(intent.amount) {
                    Ok(credited) => {
                        engine.commit(user, debited, credited);
                        Err(EngineError::Rejected)
                    },
                    Err(error) => {
                        assert(false);
                        Err(error)
                    },
                }
            },
            _ => Err(EngineError::Ambiguous),
        },
    }
}

} // verus!
