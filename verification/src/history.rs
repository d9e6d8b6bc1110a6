//! Sequences of calls, and what holds of the store after any of them.

use vstd::prelude::*;
use crate::aggregate::{added, changed, dropped, loaded, product_of};
use crate::codec::{FieldView, Product, RecordView};
use crate::owned::{created, deleted, read_fields, updated};

verus! {

/// One mutating call on the aggregate engine.
pub enum CatalogOp {
    Add { name: Seq<char>, product: Product },
    Update { name: Seq<char>, product: Product },
    Delete { name: Seq<char> },
}

/// The persisted catalog after one call. A call that is refused leaves it
/// as it was.
pub open spec fn catalog_step(
    persisted: Option<Map<Seq<char>, Product>>,
    op: CatalogOp,
) -> Option<Map<Seq<char>, Product>> {
    match op {
        CatalogOp::Add { name, product } => match added(persisted, name, product) {
            Ok(catalog) => Some(catalog),
            Err(_) => persisted,
        },
        CatalogOp::Update { name, product } => match changed(persisted, name, product) {
            Ok(catalog) => Some(catalog),
            Err(_) => persisted,
        },
        CatalogOp::Delete { name } => Some(dropped(persisted, name)),
    }
}

/// The persisted catalog after a sequence of calls, made in order.
pub open spec fn catalog_run(
    persisted: Option<Map<Seq<char>, Product>>,
    ops: Seq<CatalogOp>,
) -> Option<Map<Seq<char>, Product>>
    decreases ops.len(),
{
    if ops.len() == 0 {
        persisted
    } else {
        catalog_step(catalog_run(persisted, ops.drop_last()), ops.last())
    }
}

/// Whether the call is an `add_product` of that name.
pub open spec fn adds(op: CatalogOp, name: Seq<char>) -> bool {
    op matches CatalogOp::Add { name: added_name, .. } && added_name == name
}

/// A name that the catalog does not have, and that no call adds, is never
/// observed: after any sequence of calls `get_product` gives the empty
/// sequence for it.
pub proof fn law_product_never_added_is_never_seen(
    persisted: Option<Map<Seq<char>, Product>>,
    ops: Seq<CatalogOp>,
    name: Seq<char>,
)
    requires
        !loaded(persisted).dom().contains(name),
        forall|i: int| 0 <= i < ops.len() ==> !adds(#[trigger] ops[i], name),
    ensures
        !loaded(catalog_run(persisted, ops)).dom().contains(name),
        product_of(catalog_run(persisted, ops), name) == Seq::<i32>::empty(),
    decreases ops.len(),
{
    if ops.len() > 0 {
        let front = ops.drop_last();
        assert forall|i: int| 0 <= i < front.len() implies !adds(#[trigger] front[i], name) by {
            assert(front[i] == ops[i]);
        }
        law_product_never_added_is_never_seen(persisted, front, name);
        assert(!adds(ops[ops.len() - 1], name));
    }
}

/// A name that was deleted and not added again is never observed: after the
/// whole sequence of calls `get_product` gives the empty sequence for it.
pub proof fn law_product_deleted_is_never_seen(
    persisted: Option<Map<Seq<char>, Product>>,
    ops: Seq<CatalogOp>,
    at: int,
    name: Seq<char>,
)
    requires
        0 <= at < ops.len(),
        ops[at] == (CatalogOp::Delete { name }),
        forall|i: int| at < i < ops.len() ==> !adds(#[trigger] ops[i], name),
    ensures
        !loaded(catalog_run(persisted, ops)).dom().contains(name),
        product_of(catalog_run(persisted, ops), name) == Seq::<i32>::empty(),
    decreases ops.len(),
{
    let front = ops.drop_last();
    if at < ops.len() - 1 {
        assert(front[at] == ops[at]);
        assert forall|i: int| at < i < front.len() implies !adds(#[trigger] front[i], name) by {
            assert(front[i] == ops[i]);
        }
        law_product_deleted_is_never_seen(persisted, front, at, name);
        assert(!adds(ops[ops.len() - 1], name));
    }
}

/// One mutating call on the owned-record engine, with the clock reading
/// that it was made at.
pub enum RecordOp {
    Create { id: Seq<char>, value: Seq<char>, owner: Seq<char>, now: u64 },
    Update { id: Seq<char>, new_value: Seq<char>, caller: Seq<char>, now: u64 },
    Delete { id: Seq<char>, caller: Seq<char> },
}

/// The stored records after one call. A call that is refused leaves them
/// as they were.
pub open spec fn record_step(records: Map<Seq<char>, RecordView>, op: RecordOp) -> Map<
    Seq<char>,
    RecordView,
> {
    match op {
        RecordOp::Create { id, value, owner, now } => created(records, id, value, owner, now),
        RecordOp::Update { id, new_value, caller, now } => match updated(
            records,
            id,
            new_value,
            caller,
            now,
        ) {
            Ok(after) => after,
            Err(_) => records,
        },
        RecordOp::Delete { id, caller } => match deleted(records, id, caller) {
            Ok(after) => after,
            Err(_) => records,
        },
    }
}

/// The stored records after a sequence of calls, made in order.
pub open spec fn record_run(records: Map<Seq<char>, RecordView>, ops: Seq<RecordOp>) -> Map<
    Seq<char>,
    RecordView,
>
    decreases ops.len(),
{
    if ops.len() == 0 {
        records
    } else {
        record_step(record_run(records, ops.drop_last()), ops.last())
    }
}

/// Whether the call is a `create` of that id.
pub open spec fn creates(op: RecordOp, id: Seq<char>) -> bool {
    op matches RecordOp::Create { id: created_id, .. } && created_id == id
}

/// An id under which nothing is stored, and that no call creates, is never
/// observed: after any sequence of calls `read` gives the empty sequence
/// for it.
pub proof fn law_record_never_created_is_never_seen(
    records: Map<Seq<char>, RecordView>,
    ops: Seq<RecordOp>,
    id: Seq<char>,
)
    requires
        !records.dom().contains(id),
        forall|i: int| 0 <= i < ops.len() ==> !creates(#[trigger] ops[i], id),
    ensures
        !record_run(records, ops).dom().contains(id),
        read_fields(record_run(records, ops), id) == Seq::<FieldView>::empty(),
    decreases ops.len(),
{
    if ops.len() > 0 {
        let front = ops.drop_last();
        assert forall|i: int| 0 <= i < front.len() implies !creates(#[trigger] front[i], id) by {
            assert(front[i] == ops[i]);
        }
        law_record_never_created_is_never_seen(records, front, id);
        assert(!creates(ops[ops.len() - 1], id));
    }
}

/// An id whose record its owner deleted, and that no later call creates, is
/// never observed: after the whole sequence of calls `read` gives the empty
/// sequence for it.
pub proof fn law_record_deleted_is_never_seen(
    records: Map<Seq<char>, RecordView>,
    ops: Seq<RecordOp>,
    at: int,
    id: Seq<char>,
    caller: Seq<char>,
)
    requires
        0 <= at < ops.len(),
        ops[at] == (RecordOp::Delete { id, caller }),
        deleted(record_run(records, ops.take(at)), id, caller) is Ok,
        forall|i: int| at < i < ops.len() ==> !creates(#[trigger] ops[i], id),
    ensures
        !record_run(records, ops).dom().contains(id),
        read_fields(record_run(records, ops), id) == Seq::<FieldView>::empty(),
    decreases ops.len(),
{
    let front = ops.drop_last();
    if at < ops.len() - 1 {
        assert(front[at] == ops[at]);
        assert(front.take(at) =~= ops.take(at));
        assert forall|i: int| at < i < front.len() implies !creates(#[trigger] front[i], id) by {
            assert(front[i] == ops[i]);
        }
        law_record_deleted_is_never_seen(records, front, at, id, caller);
        assert(!creates(ops[ops.len() - 1], id));
    } else {
        assert(front =~= ops.take(at));
    }
}

} // verus!
