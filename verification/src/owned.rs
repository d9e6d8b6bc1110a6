//! The owned-record engine: what each of its operations does to the stored
//! records, and the engine itself.

use vstd::prelude::*;
use crate::clock::Clock;
use crate::codec::{field_views, record_fields, Field, FieldView, Identity, OwnedRecord, RecordView};
use crate::error::StoreError;
use crate::storage::StorageAdapter;

verus! {

/// The records after `create`: whatever was under `id`, its owner included,
/// gives way to the new record.
pub open spec fn created(
    records: Map<Seq<char>, RecordView>,
    id: Seq<char>,
    value: Seq<char>,
    owner: Seq<char>,
    now: u64,
) -> Map<Seq<char>, RecordView> {
    records.insert(id, RecordView { value, owner, last_modified: now })
}

/// What `read` gives: the stored triple, or the empty sequence if nothing is
/// stored under `id`.
pub open spec fn read_fields(records: Map<Seq<char>, RecordView>, id: Seq<char>) -> Seq<FieldView> {
    if records.dom().contains(id) {
        record_fields(records[id])
    } else {
        Seq::empty()
    }
}

/// Whether `caller` may change the record under `id`: there must be one, and
/// the caller must be its owner.
pub open spec fn may_change(
    records: Map<Seq<char>, RecordView>,
    id: Seq<char>,
    caller: Seq<char>,
) -> Result<(), StoreError> {
    if !records.dom().contains(id) {
        Err(StoreError::AbsentRecord)
    } else if records[id].owner != caller {
        Err(StoreError::Unauthorized)
    } else {
        Ok(())
    }
}

/// The records after `update`: the owner's record gets the new value and
/// the current time, and keeps its owner.
pub open spec fn updated(
    records: Map<Seq<char>, RecordView>,
    id: Seq<char>,
    new_value: Seq<char>,
    caller: Seq<char>,
    now: u64,
) -> Result<Map<Seq<char>, RecordView>, StoreError> {
    match may_change(records, id, caller) {
        Ok(()) => Ok(
            records.insert(
                id,
                RecordView { value: new_value, owner: records[id].owner, last_modified: now },
            ),
        ),
        Err(e) => Err(e),
    }
}

/// The records after `delete`: the owner's record is gone.
pub open spec fn deleted(
    records: Map<Seq<char>, RecordView>,
    id: Seq<char>,
    caller: Seq<char>,
) -> Result<Map<Seq<char>, RecordView>, StoreError> {
    match may_change(records, id, caller) {
        Ok(()) => Ok(records.remove(id)),
        Err(e) => Err(e),
    }
}

/// What `is_owner` gives: whether `address` owns the record under `id`.
pub open spec fn owner_matches(
    records: Map<Seq<char>, RecordView>,
    id: Seq<char>,
    address: Seq<char>,
) -> Result<bool, StoreError> {
    if records.dom().contains(id) {
        Ok(records[id].owner == address)
    } else {
        Err(StoreError::AbsentRecord)
    }
}

/// No record is stamped later than `reading`.
pub open spec fn stamped_by(records: Map<Seq<char>, RecordView>, reading: u64) -> bool {
    forall|id: Seq<char>| #[trigger]
        records.dom().contains(id) ==> records[id].last_modified <= reading
}

/// The owned-record engine: each record lives under its own storage key and
/// carries its owner and the time of its last change. Anyone may create a
/// record, also over an existing one; only the owner may update or delete it.
pub struct UniqueCRUD<S, C> {
    pub storage: S,
    pub clock: C,
}

impl<S: StorageAdapter<OwnedRecord>, C: Clock> UniqueCRUD<S, C> {
    /// An engine over the given storage and clock.
    pub fn new(storage: S, clock: C) -> (engine: Self)
        ensures
            engine.storage == storage,
            engine.clock == clock,
    {
        UniqueCRUD { storage, clock }
    }

    /// The records that are stored, by id.
    pub open spec fn records(&self) -> Map<Seq<char>, RecordView> {
        self.storage.contents()
    }

    /// No stored record is stamped later than the clock's latest reading.
    /// Every call keeps it so.
    pub open spec fn stamps_current(&self) -> bool {
        stamped_by(self.records(), self.clock.reading())
    }

    /// Writes `[value, owner, now]` under `id`. There is no check of any
    /// kind: a record that is already there is overwritten, owner included.
    pub fn create(&mut self, id: &str, value: &str, owner: &Identity)
        ensures
            final(self).clock.reading() >= old(self).clock.reading(),
            final(self).records() == created(
                old(self).records(),
                id@,
                value@,
                owner@,
                final(self).clock.reading(),
            ),
            final(self).storage.writes() == old(self).storage.writes() + 1,
            old(self).stamps_current() ==> final(self).stamps_current(),
    {
        let timestamp = self.clock.now();
        let record = OwnedRecord {
            value: value.to_owned(),
            owner: owner.clone(),
            last_modified: timestamp,
        };
        let key = id.to_owned();
        self.storage.set(&key, record);
    }

    /// The triple stored under `id`, or the empty sequence if there is none.
    pub fn read(&self, id: &str) -> (fields: Vec<Field>)
        ensures
            field_views(fields@) == read_fields(self.records(), id@),
            fields@.len() == read_fields(self.records(), id@).len(),
    {
        let key = id.to_owned();
        match self.storage.get(&key) {
            Some(record) => record.encode(),
            None => {
                let fields: Vec<Field> = Vec::new();
                assert(field_views(fields@) =~= Seq::<FieldView>::empty());
                fields
            },
        }
    }

    /// Gives the record under `id` a new value and the current time. Fails
    /// with `AbsentRecord` if there is no such record, with `Unauthorized` if
    /// `caller` is not its owner; then nothing is written and the clock is
    /// not read.
    pub fn update(&mut self, id: &str, new_value: &str, caller: &Identity) -> (outcome: Result<
        (),
        StoreError,
    >)
        ensures
            final(self).clock.reading() >= old(self).clock.reading(),
            match updated(
                old(self).records(),
                id@,
                new_value@,
                caller@,
                final(self).clock.reading(),
            ) {
                Ok(records) => {
                    &&& outcome is Ok
                    &&& final(self).records() == records
                    &&& final(self).storage.writes() == old(self).storage.writes() + 1
                },
                Err(e) => {
                    &&& outcome == Err::<(), StoreError>(e)
                    &&& final(self).storage == old(self).storage
                    &&& final(self).clock == old(self).clock
                },
            },
            old(self).stamps_current() ==> final(self).stamps_current(),
    {
        let key = id.to_owned();
        let entry = match self.storage.get(&key) {
            Some(entry) => entry,
            None => {
                return Err(StoreError::AbsentRecord);
            },
        };
        if !caller.same_as(&entry.owner) {
            return Err(StoreError::Unauthorized);
        }
        let timestamp = self.clock.now();
        let record = OwnedRecord {
            value: new_value.to_owned(),
            owner: entry.owner,
            last_modified: timestamp,
        };
        self.storage.set(&key, record);
        Ok(())
    }

    /// Removes the record under `id`. Fails with `AbsentRecord` if there is
    /// no such record, with `Unauthorized` if `caller` is not its owner; then
    /// nothing is removed.
    pub fn delete(&mut self, id: &str, caller: &Identity) -> (outcome: Result<(), StoreError>)
        ensures
            final(self).clock == old(self).clock,
            match deleted(old(self).records(), id@, caller@) {
                Ok(records) => {
                    &&& outcome is Ok
                    &&& final(self).records() == records
                    &&& final(self).storage.writes() == old(self).storage.writes() + 1
                },
                Err(e) => {
                    &&& outcome == Err::<(), StoreError>(e)
                    &&& final(self).storage == old(self).storage
                },
            },
            old(self).stamps_current() ==> final(self).stamps_current(),
    {
        let key = id.to_owned();
        let entry = match self.storage.get(&key) {
            Some(entry) => entry,
            None => {
                return Err(StoreError::AbsentRecord);
            },
        };
        if !caller.same_as(&entry.owner) {
            return Err(StoreError::Unauthorized);
        }
        self.storage.remove(&key);
        Ok(())
    }

    /// Whether `address` owns the record under `id`. Fails with
    /// `AbsentRecord` if there is no such record.
    pub fn is_owner(&self, id: &str, address: &Identity) -> (outcome: Result<bool, StoreError>)
        ensures
            outcome == owner_matches(self.records(), id@, address@),
    {
        let key = id.to_owned();
        match self.storage.get(&key) {
            Some(entry) => Ok(address.same_as(&entry.owner)),
            None => Err(StoreError::AbsentRecord),
        }
    }
}

} // verus!
