use unique_crud::aggregate::{AggregateStore, Catalog, CATALOG_SLOT};
use unique_crud::codec::Product;
use unique_crud::error::StoreError;
use unique_crud::storage::{MemoryStorage, StorageAdapter};

fn fresh() -> AggregateStore<MemoryStorage<Catalog>> {
    AggregateStore::new(MemoryStorage::new())
}

fn slot() -> String {
    CATALOG_SLOT.to_string()
}

/// The persisted catalog as sorted `(name, quantity, price)` rows, or `None`
/// if nothing was ever persisted.
fn persisted(engine: &AggregateStore<MemoryStorage<Catalog>>) -> Option<Vec<(String, i32, i32)>> {
    let catalog = engine.storage.get(&slot())?;
    let mut rows = Vec::new();
    for name in catalog.keys() {
        let product = *catalog.get(&name).unwrap();
        rows.push((name, product.quantity, product.price));
    }
    rows.sort();
    Some(rows)
}

#[test]
fn apple_is_added_updated_and_deleted() {
    let mut engine = fresh();
    assert_eq!(engine.add_product("apple", 10, 2), Ok(()));
    assert_eq!(engine.get_product("apple"), vec![10, 2]);
    assert_eq!(engine.update_product("apple", 5, 3), Ok(()));
    assert_eq!(engine.get_product("apple"), vec![5, 3]);
    engine.delete_product("apple");
    assert_eq!(engine.get_product("apple"), Vec::<i32>::new());
}

#[test]
fn get_product_on_a_fresh_store_is_empty() {
    let engine = fresh();
    assert!(engine.get_product("apple").is_empty());
    assert_eq!(persisted(&engine), None);
}

#[test]
fn get_product_of_an_unknown_name_is_empty() {
    let mut engine = fresh();
    engine.add_product("apple", 1, 1).unwrap();
    assert!(engine.get_product("pear").is_empty());
    assert!(engine.get_product("").is_empty());
    assert!(engine.get_product("Apple").is_empty());
}

#[test]
fn added_product_reads_back_exactly() {
    let mut engine = fresh();
    assert_eq!(engine.add_product("bolt", 7, 13), Ok(()));
    assert_eq!(engine.get_product("bolt"), vec![7, 13]);
    assert_eq!(engine.add_product("debt", -4, 0), Ok(()));
    assert_eq!(engine.get_product("debt"), vec![-4, 0]);
    assert_eq!(engine.add_product("edge", i32::MIN, i32::MAX), Ok(()));
    assert_eq!(engine.get_product("edge"), vec![i32::MIN, i32::MAX]);
    assert_eq!(engine.add_product("", 0, 0), Ok(()));
    assert_eq!(engine.get_product(""), vec![0, 0]);
}

#[test]
fn second_add_of_a_name_is_refused() {
    let mut engine = fresh();
    assert_eq!(engine.add_product("X", 3, 4), Ok(()));
    let before = persisted(&engine);
    assert_eq!(engine.add_product("X", 30, 40), Err(StoreError::AlreadyExists));
    assert_eq!(engine.get_product("X"), vec![3, 4]);
    assert_eq!(persisted(&engine), before);
    assert_eq!(engine.add_product("X", 3, 4), Err(StoreError::AlreadyExists));
}

#[test]
fn first_add_persists_the_catalog() {
    let mut engine = fresh();
    assert!(!engine.storage.contains(&slot()));
    engine.add_product("nut", 1, 2).unwrap();
    assert!(engine.storage.contains(&slot()));
    assert_eq!(persisted(&engine), Some(vec![("nut".to_string(), 1, 2)]));
}

#[test]
fn update_before_anything_was_persisted_is_not_initialized() {
    let mut engine = fresh();
    assert_eq!(engine.update_product("apple", 1, 1), Err(StoreError::NotInitialized));
    assert_eq!(persisted(&engine), None);
}

#[test]
fn update_of_an_unknown_name_is_not_found() {
    let mut engine = fresh();
    engine.add_product("apple", 10, 2).unwrap();
    assert_eq!(engine.update_product("pear", 1, 1), Err(StoreError::NotFound));
    assert_eq!(persisted(&engine), Some(vec![("apple".to_string(), 10, 2)]));
    assert!(engine.get_product("pear").is_empty());
}

#[test]
fn update_overwrites_only_its_own_product() {
    let mut engine = fresh();
    engine.add_product("apple", 10, 2).unwrap();
    engine.add_product("pear", 20, 4).unwrap();
    assert_eq!(engine.update_product("apple", 9, 3), Ok(()));
    assert_eq!(
        persisted(&engine),
        Some(vec![("apple".to_string(), 9, 3), ("pear".to_string(), 20, 4)])
    );
}

#[test]
fn delete_of_an_unknown_name_is_no_error() {
    let mut engine = fresh();
    engine.add_product("apple", 10, 2).unwrap();
    engine.delete_product("pear");
    assert_eq!(persisted(&engine), Some(vec![("apple".to_string(), 10, 2)]));
}

#[test]
fn delete_on_a_fresh_store_persists_an_empty_catalog() {
    let mut engine = fresh();
    engine.delete_product("apple");
    assert_eq!(persisted(&engine), Some(vec![]));
    assert_eq!(engine.update_product("apple", 1, 1), Err(StoreError::NotFound));
}

#[test]
fn deleting_twice_is_deleting_once() {
    let mut once = fresh();
    once.add_product("apple", 10, 2).unwrap();
    once.add_product("pear", 20, 4).unwrap();
    once.delete_product("apple");

    let mut twice = fresh();
    twice.add_product("apple", 10, 2).unwrap();
    twice.add_product("pear", 20, 4).unwrap();
    twice.delete_product("apple");
    twice.delete_product("apple");

    assert_eq!(persisted(&once), persisted(&twice));
    assert_eq!(persisted(&twice), Some(vec![("pear".to_string(), 20, 4)]));
}

#[test]
fn deleted_product_is_not_seen_until_added_again() {
    let mut engine = fresh();
    engine.add_product("apple", 10, 2).unwrap();
    engine.delete_product("apple");
    assert_eq!(engine.update_product("apple", 5, 3), Err(StoreError::NotFound));
    engine.add_product("pear", 1, 1).unwrap();
    engine.delete_product("pear");
    assert!(engine.get_product("apple").is_empty());
    assert_eq!(engine.add_product("apple", 6, 6), Ok(()));
    assert_eq!(engine.get_product("apple"), vec![6, 6]);
}

#[test]
fn other_storage_slots_are_left_alone() {
    let mut storage: MemoryStorage<Catalog> = MemoryStorage::new();
    let mut other = Catalog::new();
    other.insert("spare".to_string(), Product { quantity: 1, price: 1 });
    storage.set(&"archive".to_string(), other);
    let mut engine = AggregateStore::new(storage);
    engine.add_product("apple", 10, 2).unwrap();
    engine.delete_product("apple");
    let archive = engine.storage.get(&"archive".to_string()).unwrap();
    assert_eq!(archive.get(&"spare".to_string()), Some(&Product { quantity: 1, price: 1 }));
    assert!(engine.get_product("spare").is_empty());
}
