//! The durable key-ordered map that holds the persisted records.

use vstd::prelude::*;
use ic_stable_structures::memory_manager::{MemoryId, MemoryManager, VirtualMemory};
use ic_stable_structures::{DefaultMemoryImpl, StableBTreeMap};
use crate::identity::bytes_before;

verus! {

/// A `StableBTreeMap` from identity bytes to record bytes, kept in the first
/// virtual memory of the host's default memory.
///
/// The verifier sees nothing inside it: what it holds is named by
/// [`store_records`], and the functions below say what the map's own methods
/// do to that, as the map's source shows it. They say nothing of a memory that
/// cannot grow any further or that was written to behind the map's back: the
/// map stops the program there.
#[verifier::external_body]
pub struct RecordStore {
    map: StableBTreeMap<Vec<u8>, Vec<u8>, VirtualMemory<DefaultMemoryImpl>>,
}

/// The records that a store holds, by key.
pub uninterp spec fn store_records(store: RecordStore) -> Map<Seq<u8>, Seq<u8>>;

/// `StableBTreeMap::init` on the virtual memory with id 0 of a memory manager
/// over `DefaultMemoryImpl::default()`.
///
/// The map is the one that this memory already holds, if any, so nothing is
/// claimed of its records. On a host whose default memory is shared by the
/// whole program the store is to be opened once.
#[verifier::external_body]
pub(crate) fn store_open() -> (store: RecordStore) {
    let manager = MemoryManager::init(DefaultMemoryImpl::default());
    RecordStore { map: StableBTreeMap::init(manager.get(MemoryId::new(0))) }
}

/// `StableBTreeMap::get`: the value stored under `key`, if there is one.
#[verifier::external_body]
pub(crate) fn store_get(store: &RecordStore, key: &Vec<u8>) -> (found: Option<Vec<u8>>)
    ensures
        found is Some <==> store_records(*store).contains_key(key@),
        found matches Some(value) ==> value@ == store_records(*store)[key@],
{
    store.map.get(key)
}

/// `StableBTreeMap::insert`: stores `value` under `key`, replacing and
/// returning the value that was there; no other key is touched.
#[verifier::external_body]
pub(crate) fn store_insert(store: &mut RecordStore, key: Vec<u8>, value: Vec<u8>) -> (previous:
    Option<Vec<u8>>)
    ensures
        store_records(*final(store)) == store_records(*old(store)).insert(key@, value@),
        previous is Some <==> store_records(*old(store)).contains_key(key@),
        previous matches Some(value) ==> value@ == store_records(*old(store))[key@],
{
    store.map.insert(key, value)
}

/// `StableBTreeMap::iter`, collected: every entry once, sorted by key. Keys
/// are byte vectors, which compare lexicographically.
#[verifier::external_body]
pub(crate) fn store_entries(store: &RecordStore) -> (entries: Vec<(Vec<u8>, Vec<u8>)>)
    ensures
        forall|i: int|
            #![trigger entries@[i]]
            0 <= i < entries@.len() ==> store_records(*store).contains_key(entries@[i].0@)
                && store_records(*store)[entries@[i].0@] == entries@[i].1@,
        forall|key: Seq<u8>|
            store_records(*store).contains_key(key) ==> exists|i: int|
                #![trigger entries@[i]]
                0 <= i < entries@.len() && entries@[i].0@ == key,
        forall|i: int, j: int|
            #![trigger entries@[i], entries@[j]]
            0 <= i < j < entries@.len() ==> bytes_before(entries@[i].0@, entries@[j].0@),
{
    store.map.iter().map(|entry| entry.into_pair()).collect()
}

} // verus!
