//! The durable store as the command handlers see it: whole records under
//! string keys, read and overwritten one key at a time.

use crate::table::Table;
use vstd::prelude::*;

verus! {

/// The store could not take a write.
#[derive(Clone, Copy, Debug, PartialEq, Eq)]
pub struct IoError;

/// Keyed binary records.
///
/// The view is the map from each key to the bytes recorded under it. A store
/// that is not writable stands for a substrate that is unavailable: it
/// refuses every write and keeps what it holds.
pub struct Store {
    records: Table<Vec<u8>>,
    writable: bool,
}

impl View for Store {
    type V = Map<Seq<char>, Seq<u8>>;

    closed spec fn view(&self) -> Map<Seq<char>, Seq<u8>> {
        self.records@.map_values(|data: Vec<u8>| data@)
    }
}

impl Store {
    /// Whether the store takes writes.
    pub closed spec fn writable(&self) -> bool {
        self.writable
    }

    /// An empty store that takes writes.
    pub fn new() -> (store: Self)
        ensures
            store@ == Map::<Seq<char>, Seq<u8>>::empty(),
            store.writable(),
    {
        let store = Store { records: Table::new(), writable: true };
        assert(store@ =~= Map::<Seq<char>, Seq<u8>>::empty());
        store
    }

    /// The record under `key`, or `None` where nothing was ever written there.
    pub fn read(&self, key: &str) -> (data: Option<Vec<u8>>)
        ensures
            match data {
                Some(bytes) => self@.contains_key(key@) && bytes@ == self@[key@],
                None => !self@.contains_key(key@),
            },
    {
        match self.records.get(key) {
            Some(bytes) => {
                let copy = bytes.clone();
                assert(copy@ =~= bytes@);
                Some(copy)
            },
            None => None,
        }
    }

    /// Replaces the record under `key` by `data`, whole.
    ///
    /// Fails exactly when the store is not writable, and then changes nothing.
    pub fn write(&mut self, key: &str, data: Vec<u8>) -> (done: Result<(), IoError>)
        ensures
            final(self).writable() == old(self).writable(),
            old(self).writable() ==> done is Ok && final(self)@ == old(self)@.insert(key@, data@),
            !old(self).writable() ==> done is Err && final(self)@ == old(self)@,
    {
        if !self.writable {
            return Err(IoError);
        }
        self.records.insert(key, data);
        assert(self@ =~= old(self)@.insert(key@, data@));
        Ok(())
    }

    /// Makes the store writable or not; the records stay.
    pub fn set_writable(&mut self, writable: bool)
        ensures
            final(self)@ == old(self)@,
            final(self).writable() == writable,
    {
        self.writable = writable;
    }

    /// Whether the store takes writes.
    pub fn is_writable(&self) -> (writable: bool)
        ensures
            writable == self.writable(),
    {
        self.writable
    }
}

} // verus!
