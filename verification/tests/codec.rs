use unique_crud::codec::{Field, Identity, OwnedRecord, Product};
use unique_crud::stored::Stored;

fn record() -> OwnedRecord {
    OwnedRecord {
        value: "draft".to_string(),
        owner: Identity::new("alice".to_string()),
        last_modified: 42,
    }
}

#[test]
fn product_is_the_pair_of_quantity_and_price() {
    assert_eq!(Product { quantity: 10, price: 2 }.encode(), vec![10, 2]);
    assert_eq!(Product { quantity: -1, price: i32::MAX }.encode(), vec![-1, i32::MAX]);
}

#[test]
fn product_decodes_from_a_pair_only() {
    assert_eq!(Product::decode(&vec![10, 2]), Some(Product { quantity: 10, price: 2 }));
    assert_eq!(Product::decode(&vec![]), None);
    assert_eq!(Product::decode(&vec![10]), None);
    assert_eq!(Product::decode(&vec![10, 2, 3]), None);
}

#[test]
fn product_round_trips() {
    let product = Product { quantity: i32::MIN, price: 7 };
    assert_eq!(Product::decode(&product.encode()), Some(product));
}

#[test]
fn record_is_the_triple_of_value_owner_and_time() {
    assert_eq!(
        record().encode(),
        vec![
            Field::Token("draft".to_string()),
            Field::Owner(Identity::new("alice".to_string())),
            Field::Timestamp(42),
        ]
    );
}

#[test]
fn record_round_trips() {
    assert_eq!(OwnedRecord::decode(&record().encode()), Some(record()));
}

#[test]
fn record_decodes_from_a_well_formed_triple_only() {
    let token = Field::Token("draft".to_string());
    let owner = Field::Owner(Identity::new("alice".to_string()));
    let time = Field::Timestamp(42);
    assert_eq!(OwnedRecord::decode(&vec![]), None);
    assert_eq!(OwnedRecord::decode(&vec![token.clone(), owner.clone()]), None);
    assert_eq!(OwnedRecord::decode(&vec![token.clone(), time.clone(), owner.clone()]), None);
    assert_eq!(OwnedRecord::decode(&vec![owner.clone(), token.clone(), time.clone()]), None);
    assert_eq!(
        OwnedRecord::decode(&vec![token.clone(), owner.clone(), time.clone(), time.clone()]),
        None
    );
    assert_eq!(OwnedRecord::decode(&vec![token, owner, time]), Some(record()));
}

#[test]
fn identities_are_the_same_when_their_names_are() {
    let alice = Identity::new("alice".to_string());
    assert!(alice.same_as(&Identity::new("alice".to_string())));
    assert!(!alice.same_as(&Identity::new("alicf".to_string())));
    assert!(!alice.same_as(&Identity::new("".to_string())));
}

#[test]
fn duplicates_hold_the_same_values() {
    assert_eq!(record().duplicate(), record());
    assert_eq!(Product { quantity: 1, price: 2 }.duplicate(), Product { quantity: 1, price: 2 });
    assert_eq!(Identity::new("bob".to_string()).clone(), Identity::new("bob".to_string()));
    let time = Field::Timestamp(9);
    assert_eq!(time.clone(), time);
}
