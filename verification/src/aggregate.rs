//! The aggregate engine: what each of its operations does to the persisted
//! catalog, and the engine itself.

use vstd::prelude::*;
use crate::codec::{product_fields, Product};
use crate::error::StoreError;
use crate::storage::StorageAdapter;
use crate::table::Table;

verus! {

/// The whole catalog, as it is kept in its one storage slot.
pub type Catalog = Table<Product>;

/// The storage key under which the whole catalog is kept.
pub const CATALOG_SLOT: &'static str = "catalog";

/// The catalog that an operation starts from: the persisted one, or the
/// empty one if none has been persisted yet.
pub open spec fn loaded(persisted: Option<Map<Seq<char>, Product>>) -> Map<Seq<char>, Product> {
    match persisted {
        Some(catalog) => catalog,
        None => Map::empty(),
    }
}

/// The catalog that `add_product` persists, or why it refuses.
pub open spec fn added(
    persisted: Option<Map<Seq<char>, Product>>,
    name: Seq<char>,
    product: Product,
) -> Result<Map<Seq<char>, Product>, StoreError> {
    if loaded(persisted).dom().contains(name) {
        Err(StoreError::AlreadyExists)
    } else {
        Ok(loaded(persisted).insert(name, product))
    }
}

/// What `get_product` gives: the stored pair, or the empty sequence if the
/// catalog has no product of that name.
pub open spec fn product_of(persisted: Option<Map<Seq<char>, Product>>, name: Seq<char>) -> Seq<
    i32,
> {
    if loaded(persisted).dom().contains(name) {
        product_fields(loaded(persisted)[name])
    } else {
        Seq::empty()
    }
}

/// The catalog that `update_product` persists, or why it refuses.
pub open spec fn changed(
    persisted: Option<Map<Seq<char>, Product>>,
    name: Seq<char>,
    product: Product,
) -> Result<Map<Seq<char>, Product>, StoreError> {
    match persisted {
        None => Err(StoreError::NotInitialized),
        Some(catalog) => if catalog.dom().contains(name) {
            Ok(catalog.insert(name, product))
        } else {
            Err(StoreError::NotFound)
        },
    }
}

/// The catalog that `delete_product` persists.
pub open spec fn dropped(persisted: Option<Map<Seq<char>, Product>>, name: Seq<char>) -> Map<
    Seq<char>,
    Product,
> {
    loaded(persisted).remove(name)
}

/// The aggregate engine: every product lives in one catalog, and the whole
/// catalog is read from and written to a single storage slot.
pub struct AggregateStore<S> {
    pub storage: S,
}

impl<S: StorageAdapter<Catalog>> AggregateStore<S> {
    /// An engine over the given storage.
    pub fn new(storage: S) -> (engine: Self)
        ensures
            engine.storage == storage,
    {
        AggregateStore { storage }
    }

    /// The persisted catalog, or `None` if none has ever been persisted.
    pub open spec fn catalog(&self) -> Option<Map<Seq<char>, Product>> {
        if self.storage.contents().dom().contains(CATALOG_SLOT@) {
            Some(self.storage.contents()[CATALOG_SLOT@])
        } else {
            None
        }
    }

    fn load(&self) -> (catalog: Catalog)
        ensures
            catalog@ == loaded(self.catalog()),
    {
        match self.storage.get(&CATALOG_SLOT.to_owned()) {
            Some(catalog) => catalog,
            None => Table::new(),
        }
    }

    /// Adds a product under a new name. Fails with `AlreadyExists` if the
    /// catalog already has that name; then nothing is written.
    pub fn add_product(&mut self, name: &str, quantity: i32, price: i32) -> (outcome: Result<
        (),
        StoreError,
    >)
        ensures
            match added(old(self).catalog(), name@, (Product { quantity, price })) {
                Ok(catalog) => {
                    &&& outcome is Ok
                    &&& final(self).storage.contents() == old(self).storage.contents().insert(
                        CATALOG_SLOT@,
                        catalog,
                    )
                    &&& final(self).storage.writes() == old(self).storage.writes() + 1
                },
                Err(e) => {
                    &&& outcome == Err::<(), StoreError>(e)
                    &&& final(self).storage == old(self).storage
                },
            },
    {
        let mut catalog = self.load();
        let key = name.to_owned();
        if catalog.contains_key(&key) {
            return Err(StoreError::AlreadyExists);
        }
        catalog.insert(key, Product { quantity, price });
        self.storage.set(&CATALOG_SLOT.to_owned(), catalog);
        Ok(())
    }

    /// The pair `[quantity, price]` of the product, or the empty sequence if
    /// the catalog has no product of that name.
    pub fn get_product(&self, name: &str) -> (fields: Vec<i32>)
        ensures
            fields@ == product_of(self.catalog(), name@),
    {
        let catalog = self.load();
        match catalog.get(&name.to_owned()) {
            Some(product) => product.encode(),
            None => Vec::new(),
        }
    }

    /// Overwrites the product of that name. Fails with `NotInitialized` if
    /// no catalog has ever been persisted, with `NotFound` if the catalog has
    /// no product of that name; then nothing is written.
    pub fn update_product(&mut self, name: &str, quantity: i32, price: i32) -> (outcome: Result<
        (),
        StoreError,
    >)
        ensures
            match changed(old(self).catalog(), name@, (Product { quantity, price })) {
                Ok(catalog) => {
                    &&& outcome is Ok
                    &&& final(self).storage.contents() == old(self).storage.contents().insert(
                        CATALOG_SLOT@,
                        catalog,
                    )
                    &&& final(self).storage.writes() == old(self).storage.writes() + 1
                },
                Err(e) => {
                    &&& outcome == Err::<(), StoreError>(e)
                    &&& final(self).storage == old(self).storage
                },
            },
    {
        let slot = CATALOG_SLOT.to_owned();
        let mut catalog = match self.storage.get(&slot) {
            Some(catalog) => catalog,
            None => {
                return Err(StoreError::NotInitialized);
            },
        };
        let key = name.to_owned();
        if !catalog.contains_key(&key) {
            return Err(StoreError::NotFound);
        }
        catalog.insert(key, Product { quantity, price });
        self.storage.set(&slot, catalog);
        Ok(())
    }

    /// Removes the product of that name if there is one, and persists the
    /// catalog whether or not anything changed.
    pub fn delete_product(&mut self, name: &str)
        ensures
            final(self).storage.contents() == old(self).storage.contents().insert(
                CATALOG_SLOT@,
                dropped(old(self).catalog(), name@),
            ),
            final(self).storage.writes() == old(self).storage.writes() + 1,
    {
        let mut catalog = self.load();
        catalog.remove(&name.to_owned());
        self.storage.set(&CATALOG_SLOT.to_owned(), catalog);
    }
}

} // verus!
