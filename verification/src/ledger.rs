//! The account ledger: the durable mapping from user identity to position.

use vstd::prelude::*;
use crate::identity::{bytes_before, UserId};
use crate::position::{
    decode_position, encode_position, lemma_decode_encode, Position, StorageError,
};
use crate::store::{
    store_entries, store_get, store_insert, store_open, store_records, RecordStore,
};

verus! {

/// One entry of an enumeration of the ledger: a user and what that user's
/// record decodes to.
#[derive(Debug, PartialEq, Eq)]
pub struct LedgerEntry {
    pub user: UserId,
    pub record: Result<Position, StorageError>,
}

/// The durable store of positions, one record per user.
///
/// Its view is the stored bytes by identity. A user without a record holds the
/// empty position; a record that does not decode is reported to whoever reads
/// it and leaves the rest of the ledger usable.
pub struct AccountLedger {
    store: RecordStore,
}

impl View for AccountLedger {
    type V = Map<Seq<u8>, Seq<u8>>;

    closed spec fn view(&self) -> Map<Seq<u8>, Seq<u8>> {
        store_records(self.store)
    }
}

impl AccountLedger {
    /// What reading the record of `user` gives.
    pub open spec fn record(&self, user: Seq<u8>) -> Result<Position, StorageError> {
        if self@.contains_key(user) {
            decode_position(self@[user])
        } else {
            Ok(Position::empty())
        }
    }

    /// Opens the ledger kept in the host's memory, which a host does once. On
    /// a host whose memory outlives the process the ledger holds what was
    /// stored before, so nothing is promised of its records.
    pub fn open() -> (ledger: AccountLedger) {
        AccountLedger { store: store_open() }
    }

    /// The position of `user`: the empty position if none is stored.
    pub fn get(&self, user: &UserId) -> (found: Result<Position, StorageError>)
        ensures
            found == self.record(user@),
    {
        match store_get(&self.store, user.as_bytes()) {
            Some(bytes) => Position::from_bytes(bytes.as_slice()),
            None => Ok(Position { collateral: 0, debt: 0 }),
        }
    }

    /// Stores `position` as the record of `user`, whatever was there.
    pub fn upsert(&mut self, user: &UserId, position: Position)
        ensures
            final(self)@ == old(self)@.insert(user@, encode_position(position)),
            final(self).record(user@) == Ok::<Position, StorageError>(position),
            forall|other: Seq<u8>|
                other != user@ ==> #[trigger] final(self).record(other) == old(self).record(other),
    {
        proof {
            lemma_decode_encode(position);
        }
        let _ = store_insert(&mut self.store, user.as_bytes().clone(), position.to_bytes());
    }

    /// Puts back the bytes of a record as they were persisted, without
    /// reading them: what they decode to shows when the record is read.
    pub fn restore(&mut self, user: &UserId, record: Vec<u8>)
        ensures
            final(self)@ == old(self)@.insert(user@, record@),
            final(self).record(user@) == decode_position(record@),
            forall|other: Seq<u8>|
                other != user@ ==> #[trigger] final(self).record(other) == old(self).record(other),
    {
        let _ = store_insert(&mut self.store, user.as_bytes().clone(), record);
    }

    /// Every stored record, in ascending order of identity.
    pub fn entries(&self) -> (entries: Vec<LedgerEntry>)
        ensures
            forall|i: int|
                #![trigger entries@[i]]
                0 <= i < entries@.len() ==> self@.contains_key(entries@[i].user@)
                    && entries@[i].record == self.record(entries@[i].user@),
            forall|user: Seq<u8>|
                self@.contains_key(user) ==> exists|i: int|
                    #![trigger entries@[i]]
                    0 <= i < entries@.len() && entries@[i].user@ == user,
            forall|i: int, j: int|
                #![trigger entries@[i], entries@[j]]
                0 <= i < j < entries@.len() ==> bytes_before(entries@[i].user@, entries@[j].user@),
    {
        let raw = store_entries(&self.store);
        let mut entries: Vec<LedgerEntry> = Vec::new();
        let mut i: usize = 0;
        while i < raw.len()
            invariant
                i <= raw.len(),
                entries@.len() == i,
                forall|j: int|
                    #![trigger entries@[j]]
                    0 <= j < i ==> entries@[j].user@ == raw@[j].0@ && entries@[j].record
                        == decode_position(raw@[j].1@),
            decreases raw.len() - i,
        {
            let user = UserId::new(raw[i].0.clone());
            let record = Position::from_bytes(raw[i].1.as_slice());
            entries.push(LedgerEntry { user, record });
            i += 1;
        }
        proof {
            assert forall|user: Seq<u8>| self@.contains_key(user) implies exists|i: int|
                #![trigger entries@[i]]
                0 <= i < entries@.len() && entries@[i].user@ == user by {
                let k = choose|k: int|
                    #![trigger raw@[k]]
                    0 <= k < raw@.len() && raw@[k].0@ == user;
                assert(entries@[k].user@ == user);
            }
            assert forall|i: int, j: int|
                #![trigger entries@[i], entries@[j]]
                0 <= i < j < entries@.len() implies bytes_before(
                entries@[i].user@,
                entries@[j].user@,
            ) by {
                assert(bytes_before(raw@[i].0@, raw@[j].0@));
            }
            assert forall|i: int|
                #![trigger entries@[i]]
                0 <= i < entries@.len() implies self@.contains_key(entries@[i].user@)
                && entries@[i].record == self.record(entries@[i].user@) by {
                assert(store_records(self.store).contains_key(raw@[i].0@));
            }
        }
        entries
    }
}

} // verus!
