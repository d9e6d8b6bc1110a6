//! The records and how they are laid out in storage: a product as the pair
//! `[quantity, price]`, an owned record as the triple
//! `[value, owner, last_modified]`.

use vstd::prelude::*;
use crate::stored::Stored;

verus! {

/// A catalog record: how much of a product there is, and at what price.
/// In storage it is the ordered pair `[quantity, price]`.
#[derive(Clone, Copy, Debug, PartialEq, Eq, Structural)]
pub struct Product {
    pub quantity: i32,
    pub price: i32,
}

impl View for Product {
    type V = Product;

    open spec fn view(&self) -> Product {
        *self
    }
}

impl Stored for Product {
    fn duplicate(&self) -> (copy: Self) {
        *self
    }
}

/// The pair that a product is stored as.
pub open spec fn product_fields(product: Product) -> Seq<i32> {
    seq![product.quantity, product.price]
}

/// The product that a stored sequence stands for, if it is a pair.
pub open spec fn decoded_product(fields: Seq<i32>) -> Option<Product> {
    if fields.len() == 2 {
        Some(Product { quantity: fields[0], price: fields[1] })
    } else {
        None
    }
}

impl Product {
    /// The pair `[quantity, price]`.
    pub fn encode(&self) -> (fields: Vec<i32>)
        ensures
            fields@ == product_fields(*self),
    {
        let mut fields: Vec<i32> = Vec::new();
        fields.push(self.quantity);
        fields.push(self.price);
        assert(fields@ =~= product_fields(*self));
        fields
    }

    /// Reads a product back from a stored sequence; `None` unless it is a
    /// pair.
    pub fn decode(fields: &Vec<i32>) -> (product: Option<Product>)
        ensures
            product == decoded_product(fields@),
    {
        if fields.len() == 2 {
            Some(Product { quantity: fields[0], price: fields[1] })
        } else {
            None
        }
    }
}

/// A verified caller identity. All that is known of it is whether it is the
/// same as another.
#[derive(Debug, PartialEq, Eq)]
pub struct Identity {
    pub name: String,
}

impl View for Identity {
    type V = Seq<char>;

    open spec fn view(&self) -> Seq<char> {
        self.name@
    }
}

impl Identity {
    pub fn new(name: String) -> (identity: Self)
        ensures
            identity@ == name@,
    {
        Identity { name }
    }

    /// Whether the two identities are the same.
    pub fn same_as(&self, other: &Identity) -> (same: bool)
        ensures
            same == (self@ == other@),
    {
        self.name == other.name
    }
}

impl Clone for Identity {
    fn clone(&self) -> (copy: Self)
        ensures
            copy@ == self@,
    {
        Identity { name: self.name.clone() }
    }
}

/// An owned record: a value, the identity that created it, and the time of
/// its last change. In storage it is the ordered triple
/// `[value, owner, last_modified]`.
#[derive(Debug, PartialEq, Eq)]
pub struct OwnedRecord {
    pub value: String,
    pub owner: Identity,
    pub last_modified: u64,
}

/// What an [`OwnedRecord`] holds.
pub struct RecordView {
    pub value: Seq<char>,
    pub owner: Seq<char>,
    pub last_modified: u64,
}

impl View for OwnedRecord {
    type V = RecordView;

    open spec fn view(&self) -> RecordView {
        RecordView { value: self.value@, owner: self.owner@, last_modified: self.last_modified }
    }
}

impl Clone for OwnedRecord {
    fn clone(&self) -> (copy: Self)
        ensures
            copy@ == self@,
    {
        OwnedRecord {
            value: self.value.clone(),
            owner: self.owner.clone(),
            last_modified: self.last_modified,
        }
    }
}

impl Stored for OwnedRecord {
    fn duplicate(&self) -> (copy: Self) {
        self.clone()
    }
}

/// One slot of a stored owned record.
#[derive(Debug, PartialEq, Eq)]
pub enum Field {
    Token(String),
    Owner(Identity),
    Timestamp(u64),
}

/// What a [`Field`] holds.
pub enum FieldView {
    Token(Seq<char>),
    Owner(Seq<char>),
    Timestamp(u64),
}

impl View for Field {
    type V = FieldView;

    open spec fn view(&self) -> FieldView {
        match self {
            Field::Token(text) => FieldView::Token(text@),
            Field::Owner(identity) => FieldView::Owner(identity@),
            Field::Timestamp(seconds) => FieldView::Timestamp(*seconds),
        }
    }
}

impl Clone for Field {
    fn clone(&self) -> (copy: Self)
        ensures
            copy@ == self@,
    {
        match self {
            Field::Token(text) => Field::Token(text.clone()),
            Field::Owner(identity) => Field::Owner(identity.clone()),
            Field::Timestamp(seconds) => Field::Timestamp(*seconds),
        }
    }
}

/// What a sequence of fields holds, slot by slot.
pub open spec fn field_views(fields: Seq<Field>) -> Seq<FieldView> {
    Seq::new(fields.len(), |i: int| fields[i]@)
}

/// The triple that an owned record is stored as.
pub open spec fn record_fields(record: RecordView) -> Seq<FieldView> {
    seq![
        FieldView::Token(record.value),
        FieldView::Owner(record.owner),
        FieldView::Timestamp(record.last_modified),
    ]
}

/// The record that a stored sequence stands for, if it is a triple of a
/// token, an owner and a timestamp, in that order.
pub open spec fn decoded_record(fields: Seq<FieldView>) -> Option<RecordView> {
    if fields.len() == 3 {
        match (fields[0], fields[1], fields[2]) {
            (
                FieldView::Token(value),
                FieldView::Owner(owner),
                FieldView::Timestamp(last_modified),
            ) => Some(RecordView { value, owner, last_modified }),
            _ => None,
        }
    } else {
        None
    }
}

impl OwnedRecord {
    /// The triple `[value, owner, last_modified]`.
    pub fn encode(&self) -> (fields: Vec<Field>)
        ensures
            field_views(fields@) == record_fields(self@),
    {
        let mut fields: Vec<Field> = Vec::new();
        fields.push(Field::Token(self.value.clone()));
        fields.push(Field::Owner(self.owner.clone()));
        fields.push(Field::Timestamp(self.last_modified));
        assert(field_views(fields@) =~= record_fields(self@));
        fields
    }

    /// Reads a record back from a stored sequence; `None` unless it is a
    /// triple of a token, an owner and a timestamp.
    pub fn decode(fields: &Vec<Field>) -> (record: Option<OwnedRecord>)
        ensures
            match record {
                Some(r) => decoded_record(field_views(fields@)) == Some(r@),
                None => decoded_record(field_views(fields@)) is None,
            },
    {
        if fields.len() != 3 {
            return None;
        }
        match (&fields[0], &fields[1], &fields[2]) {
            (Field::Token(value), Field::Owner(owner), Field::Timestamp(last_modified)) => Some(
                OwnedRecord {
                    value: value.clone(),
                    owner: owner.clone(),
                    last_modified: *last_modified,
                },
            ),
            _ => None,
        }
    }
}

/// Decoding what was encoded gives the product back.
pub proof fn lemma_product_round_trip(product: Product)
    ensures
        decoded_product(product_fields(product)) == Some(product),
{
}

/// Decoding what was encoded gives the record back.
pub proof fn lemma_record_round_trip(record: RecordView)
    ensures
        decoded_record(record_fields(record)) == Some(record),
{
}

} // verus!
