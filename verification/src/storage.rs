//! The storage that the engines are handed, and one that lives in memory.

use vstd::prelude::*;
use crate::stored::Stored;
use crate::table::Table;

verus! {

/// The durable key-value storage that the engines read and write. Keys are
/// text; absence of a key is an outcome of its own, not an error.
pub trait StorageAdapter<V: View> {
    /// What the storage holds: for each key that is present, its value.
    spec fn contents(&self) -> Map<Seq<char>, V::V>;

    /// How many times the storage has been written: every `set` and every
    /// `remove` counts once, whether or not it changed anything.
    spec fn writes(&self) -> nat;

    /// Whether a value is stored under `key`.
    fn contains(&self, key: &String) -> (found: bool)
        ensures
            found == self.contents().dom().contains(key@),
    ;

    /// The value stored under `key`, or `None` if there is none.
    fn get(&self, key: &String) -> (value: Option<V>)
        ensures
            match value {
                Some(v) => self.contents().dom().contains(key@) && v@ == self.contents()[key@],
                None => !self.contents().dom().contains(key@),
            },
    ;

    /// Stores `value` under `key`, in place of whatever was stored there.
    fn set(&mut self, key: &String, value: V)
        ensures
            final(self).contents() == old(self).contents().insert(key@, value@),
            final(self).writes() == old(self).writes() + 1,
    ;

    /// Removes whatever is stored under `key`; nothing changes if nothing is.
    fn remove(&mut self, key: &String)
        ensures
            final(self).contents() == old(self).contents().remove(key@),
            final(self).writes() == old(self).writes() + 1,
    ;
}

/// A storage that lives in memory.
pub struct MemoryStorage<V: Stored> {
    slots: Table<V>,
    written: Ghost<nat>,
}

impl<V: Stored> MemoryStorage<V> {
    /// A storage that holds nothing.
    pub fn new() -> (storage: Self)
        ensures
            storage.contents() == Map::<Seq<char>, V::V>::empty(),
            storage.writes() == 0,
    {
        MemoryStorage { slots: Table::new(), written: Ghost(0) }
    }

    /// How many keys are present.
    pub fn len(&self) -> (count: usize)
        ensures
            self.contents().dom().finite(),
            count == self.contents().dom().len(),
    {
        self.slots.len()
    }
}

impl<V: Stored> StorageAdapter<V> for MemoryStorage<V> {
    closed spec fn contents(&self) -> Map<Seq<char>, V::V> {
        self.slots@
    }

    closed spec fn writes(&self) -> nat {
        self.written@
    }

    fn contains(&self, key: &String) -> (found: bool) {
        self.slots.contains_key(key)
    }

    fn get(&self, key: &String) -> (value: Option<V>) {
        match self.slots.get(key) {
            Some(v) => Some(v.duplicate()),
            None => None,
        }
    }

    fn set(&mut self, key: &String, value: V) {
        self.slots.insert(key.clone(), value);
        self.written = Ghost(self.written@ + 1);
    }

    fn remove(&mut self, key: &String) {
        self.slots.remove(key);
        self.written = Ghost(self.written@ + 1);
    }
}

} // verus!
