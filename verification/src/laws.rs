//! What holds between the operations of the two engines.

use vstd::prelude::*;
use crate::aggregate::{added, loaded, product_of};
use crate::codec::{record_fields, FieldView, Product, RecordView};
use crate::error::StoreError;
use crate::history::{catalog_step, record_step, CatalogOp, RecordOp};
use crate::owned::{created, owner_matches, read_fields, stamped_by, updated};

verus! {

/// Deleting a product twice in a row persists the same catalog as deleting
/// it once.
pub proof fn law_delete_product_is_idempotent(
    persisted: Option<Map<Seq<char>, Product>>,
    name: Seq<char>,
)
    ensures
        catalog_step(catalog_step(persisted, (CatalogOp::Delete { name })), (CatalogOp::Delete {
            name,
        })) == catalog_step(persisted, (CatalogOp::Delete { name })),
{
    let once = catalog_step(persisted, (CatalogOp::Delete { name }));
    let twice = catalog_step(once, (CatalogOp::Delete { name }));
    assert(twice->Some_0 =~= once->Some_0);
}

/// Once a product has been added under a name, a second `add_product` of
/// that name is refused with `AlreadyExists`, whatever it brings: the
/// catalog stays as the first call left it, and `get_product` still gives
/// the first product.
pub proof fn law_product_names_are_unique(
    persisted: Option<Map<Seq<char>, Product>>,
    name: Seq<char>,
    first: Product,
    second: Product,
    catalog: Map<Seq<char>, Product>,
)
    requires
        added(persisted, name, first) == Ok::<Map<Seq<char>, Product>, StoreError>(catalog),
    ensures
        added(Some(catalog), name, second) == Err::<Map<Seq<char>, Product>, StoreError>(
            StoreError::AlreadyExists,
        ),
        catalog_step(Some(catalog), (CatalogOp::Add { name, product: second })) == Some(catalog),
        product_of(Some(catalog), name) == seq![first.quantity, first.price],
{
}

/// A product that is added under a name the catalog does not have yet is
/// read back as exactly `[quantity, price]`.
pub proof fn law_added_product_reads_back(
    persisted: Option<Map<Seq<char>, Product>>,
    name: Seq<char>,
    quantity: i32,
    price: i32,
)
    requires
        !loaded(persisted).dom().contains(name),
    ensures
        added(persisted, name, (Product { quantity, price })) is Ok,
        product_of(
            catalog_step(persisted, (CatalogOp::Add { name, product: Product { quantity, price } })),
            name,
        ) == seq![quantity, price],
{
}

/// Where nothing was ever persisted or created, `get_product` and `read`
/// give the empty sequence for every key.
pub proof fn law_nothing_stored_reads_empty(key: Seq<char>)
    ensures
        product_of(None, key) == Seq::<i32>::empty(),
        read_fields(Map::empty(), key) == Seq::<FieldView>::empty(),
{
}

/// After `create` by one identity, an `update` by another is refused with
/// `Unauthorized`: the records stay as `create` left them, and the record
/// still reads with the value it was created with.
pub proof fn law_only_the_owner_updates(
    records: Map<Seq<char>, RecordView>,
    id: Seq<char>,
    value: Seq<char>,
    owner: Seq<char>,
    created_at: u64,
    new_value: Seq<char>,
    caller: Seq<char>,
    now: u64,
)
    requires
        caller != owner,
    ensures
        updated(created(records, id, value, owner, created_at), id, new_value, caller, now) == Err::<
            Map<Seq<char>, RecordView>,
            StoreError,
        >(StoreError::Unauthorized),
        record_step(
            created(records, id, value, owner, created_at),
            (RecordOp::Update { id, new_value, caller, now }),
        ) == created(records, id, value, owner, created_at),
        read_fields(created(records, id, value, owner, created_at), id) == record_fields(
            RecordView { value, owner, last_modified: created_at },
        ),
{
}

/// `create` over an existing record asks nobody: whoever owned the id
/// before, the record is now the new one and belongs to the new owner, and
/// to nobody else.
pub proof fn law_create_takes_the_record_over(
    records: Map<Seq<char>, RecordView>,
    id: Seq<char>,
    value: Seq<char>,
    owner: Seq<char>,
    now: u64,
    other: Seq<char>,
)
    requires
        records.dom().contains(id),
    ensures
        read_fields(created(records, id, value, owner, now), id) == record_fields(
            RecordView { value, owner, last_modified: now },
        ),
        owner_matches(created(records, id, value, owner, now), id, owner) == Ok::<
            bool,
            StoreError,
        >(true),
        other != owner ==> owner_matches(created(records, id, value, owner, now), id, other)
            == Ok::<bool, StoreError>(false),
{
}

/// Of two updates of one record, made one after the other at readings of a
/// clock that does not run backwards, the second leaves a `last_modified`
/// that is no smaller than the one the first left.
pub proof fn law_second_update_is_not_earlier(
    records: Map<Seq<char>, RecordView>,
    id: Seq<char>,
    first_value: Seq<char>,
    first_caller: Seq<char>,
    first_now: u64,
    second_value: Seq<char>,
    second_caller: Seq<char>,
    second_now: u64,
    after_first: Map<Seq<char>, RecordView>,
    after_second: Map<Seq<char>, RecordView>,
)
    requires
        first_now <= second_now,
        updated(records, id, first_value, first_caller, first_now) == Ok::<
            Map<Seq<char>, RecordView>,
            StoreError,
        >(after_first),
        updated(after_first, id, second_value, second_caller, second_now) == Ok::<
            Map<Seq<char>, RecordView>,
            StoreError,
        >(after_second),
    ensures
        after_second[id].last_modified >= after_first[id].last_modified,
{
}

/// While no record is stamped later than the clock's latest reading, a call
/// made at a reading that is no earlier keeps it so, and it never moves the
/// `last_modified` of a record that it leaves in place backwards.
pub proof fn law_stamps_follow_the_clock(
    records: Map<Seq<char>, RecordView>,
    reading: u64,
    op: RecordOp,
    now: u64,
    id: Seq<char>,
)
    requires
        stamped_by(records, reading),
        reading <= now,
        op matches RecordOp::Create { now: at, .. } ==> at == now,
        op matches RecordOp::Update { now: at, .. } ==> at == now,
    ensures
        stamped_by(record_step(records, op), now),
        records.dom().contains(id) && record_step(records, op).dom().contains(id) ==> record_step(
            records,
            op,
        )[id].last_modified >= records[id].last_modified,
{
    assert(records.dom().contains(id) ==> records[id].last_modified <= reading);
}

} // verus!
