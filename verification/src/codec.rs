//! The record codec: from a book to its stored record, and back.

use vstd::prelude::*;
use crate::attribute::{
    as_text, attribute_of, optional_text, to_attribute, Attribute, AttributeView,
};
use crate::keys::{
    lemma_sort_key_reversible, partition_key, partition_key_text, sort_key, sort_key_parts,
    sort_key_text, split_sort_key, SEPARATOR,
};
use crate::record::{RecordView, StoredRecord};
use crate::text::same_text;

verus! {

/// A book as requests carry it. A book that is to be stored has an id and a
/// category; its name may be absent.
#[derive(Debug, PartialEq, Eq)]
pub struct Book {
    pub id: Option<String>,
    pub category: Option<String>,
    pub name: Option<String>,
}

/// A book as the contracts speak of it.
pub struct BookView {
    pub id: Option<Seq<char>>,
    pub category: Option<Seq<char>>,
    pub name: Option<Seq<char>>,
}

impl View for Book {
    type V = BookView;

    open spec fn view(&self) -> BookView {
        BookView {
            id: optional_text(self.id),
            category: optional_text(self.category),
            name: optional_text(self.name),
        }
    }
}

impl Clone for Book {
    /// A book with the same id, category and name.
    fn clone(&self) -> (copy: Book)
        ensures
            copy@ == self@,
    {
        Book { id: self.id.clone(), category: self.category.clone(), name: self.name.clone() }
    }
}

/// Why a stored record does not read as a book.
#[derive(Debug, Clone, Copy, PartialEq, Eq, Structural)]
pub enum DecodeError {
    /// The record has no partition key.
    MissingPartitionKey,
    /// The partition key is not the string `book`.
    NotABook,
    /// The record has no sort key.
    MissingSortKey,
    /// The sort key is not a string.
    SortKeyNotText,
    /// The sort key holds no separator.
    MalformedSortKey,
    /// The name is neither a string nor null.
    NameNotText,
}

/// The name of the partition key attribute.
pub open spec fn partition_attribute() -> Seq<char> {
    "PK"@
}

/// The name of the sort key attribute.
pub open spec fn sort_attribute() -> Seq<char> {
    "SK"@
}

/// The name of the attribute that holds a book's name.
pub open spec fn name_attribute() -> Seq<char> {
    "name"@
}

/// Whether a book has what storing it requires: an id and a category.
pub open spec fn storable(book: BookView) -> bool {
    book.id is Some && book.category is Some
}

/// The stored record of a storable book: the shared partition key, the sort
/// key made of id and category, and the name, null where the book has none.
pub open spec fn encode_spec(book: BookView) -> RecordView
    recommends
        storable(book),
{
    Map::<Seq<char>, AttributeView>::empty().insert(
        partition_attribute(),
        AttributeView::S(partition_key_text()),
    ).insert(
        sort_attribute(),
        AttributeView::S(sort_key_text(book.id->0, book.category->0)),
    ).insert(name_attribute(), attribute_of(book.name))
}

/// The name that a record gives its book: the string under `name`, none
/// where that attribute is null or absent.
pub open spec fn decoded_name(record: RecordView) -> Result<Option<Seq<char>>, DecodeError> {
    if !record.contains_key(name_attribute()) {
        Ok(None)
    } else {
        match record[name_attribute()] {
            AttributeView::S(name) => Ok(Some(name)),
            AttributeView::Null => Ok(None),
            AttributeView::Other => Err(DecodeError::NameNotText),
        }
    }
}

/// The book that a record reads as, or the first reason why it reads as
/// none: checked in turn are the partition key, the sort key, and the name.
pub open spec fn decode_spec(record: RecordView) -> Result<BookView, DecodeError> {
    if !record.contains_key(partition_attribute()) {
        Err(DecodeError::MissingPartitionKey)
    } else if record[partition_attribute()] != AttributeView::S(partition_key_text()) {
        Err(DecodeError::NotABook)
    } else if !record.contains_key(sort_attribute()) {
        Err(DecodeError::MissingSortKey)
    } else {
        match record[sort_attribute()] {
            AttributeView::S(sk) => match sort_key_parts(sk) {
                None => Err(DecodeError::MalformedSortKey),
                Some((id, category)) => match decoded_name(record) {
                    Ok(name) => Ok(BookView { id: Some(id), category: Some(category), name }),
                    Err(error) => Err(error),
                },
            },
            _ => Err(DecodeError::SortKeyNotText),
        }
    }
}

/// One decoded row as the contracts speak of it.
pub open spec fn row_view(row: Result<Book, DecodeError>) -> Result<BookView, DecodeError> {
    match row {
        Ok(book) => Ok(book@),
        Err(error) => Err(error),
    }
}

/// The three attribute names differ from one another.
pub proof fn lemma_attribute_names_differ()
    ensures
        partition_attribute() != sort_attribute(),
        partition_attribute() != name_attribute(),
        sort_attribute() != name_attribute(),
{
    reveal_strlit("PK");
    reveal_strlit("SK");
    reveal_strlit("name");
    assert("PK"@[0] != "SK"@[0]);
    assert("PK"@.len() != "name"@.len());
    assert("SK"@.len() != "name"@.len());
}

impl Book {
    /// Whether the book has an id and a category, as storing it requires.
    pub fn is_storable(&self) -> (ready: bool)
        ensures
            ready == storable(self@),
    {
        self.id.is_some() && self.category.is_some()
    }
}

/// The stored record of a book that has an id and a category.
pub fn encode(entity: &Book) -> (record: StoredRecord)
    requires
        storable(entity@),
    ensures
        record@ == encode_spec(entity@),
{
    let id: &String = entity.id.as_ref().unwrap();
    let category: &String = entity.category.as_ref().unwrap();
    let mut record = StoredRecord::new();
    record.insert("PK".to_owned(), to_attribute(Some(partition_key())));
    record.insert("SK".to_owned(), to_attribute(Some(sort_key(id.as_str(), category.as_str()))));
    record.insert("name".to_owned(), to_attribute(entity.name.clone()));
    record
}

/// The name that a record gives its book.
fn decode_name(raw: &StoredRecord) -> (name: Result<Option<String>, DecodeError>)
    ensures
        match name {
            Ok(name) => decoded_name(raw@) == Ok::<Option<Seq<char>>, DecodeError>(
                optional_text(name),
            ),
            Err(error) => decoded_name(raw@) == Err::<Option<Seq<char>>, DecodeError>(error),
        },
{
    match raw.get("name") {
        None => Ok(None),
        Some(Attribute::S(name)) => Ok(Some(name.clone())),
        Some(Attribute::Null) => Ok(None),
        Some(Attribute::Other) => Err(DecodeError::NameNotText),
    }
}

/// Reads a stored record as a book. The id and the category are what stands
/// before and after the first separator of the sort key.
pub fn decode(raw: &StoredRecord) -> (decoded: Result<Book, DecodeError>)
    ensures
        row_view(decoded) == decode_spec(raw@),
{
    let in_partition = match raw.get("PK") {
        None => {
            return Err(DecodeError::MissingPartitionKey);
        },
        Some(value) => match as_text(value) {
            Some(pk) => same_text(pk.as_str(), partition_key().as_str()),
            None => false,
        },
    };
    if !in_partition {
        return Err(DecodeError::NotABook);
    }
    let sk: &String = match raw.get("SK") {
        None => {
            return Err(DecodeError::MissingSortKey);
        },
        Some(value) => match as_text(value) {
            Some(sk) => sk,
            None => {
                return Err(DecodeError::SortKeyNotText);
            },
        },
    };
    match split_sort_key(sk.as_str()) {
        None => Err(DecodeError::MalformedSortKey),
        Some((id, category)) => match decode_name(raw) {
            Ok(name) => Ok(Book { id: Some(id), category: Some(category), name }),
            Err(error) => Err(error),
        },
    }
}

/// Reads each record in turn, keeping the order. A record that does not read
/// as a book leaves its error in its place and does not stop the rest.
pub fn decode_many(raw: &Vec<StoredRecord>) -> (rows: Vec<Result<Book, DecodeError>>)
    ensures
        rows@.len() == raw@.len(),
        forall|i: int| 0 <= i < raw@.len() ==> row_view(#[trigger] rows@[i]) == decode_spec(raw@[i]@),
{
    let mut rows: Vec<Result<Book, DecodeError>> = Vec::new();
    let mut i: usize = 0;
    while i < raw.len()
        invariant
            i <= raw.len(),
            rows@.len() == i,
            forall|k: int| 0 <= k < i ==> row_view(#[trigger] rows@[k]) == decode_spec(raw@[k]@),
        decreases raw.len() - i,
    {
        rows.push(decode(&raw[i]));
        i += 1;
    }
    rows
}

/// Reading back the record of a book gives the book again, on id, category
/// and name, as long as the id holds no separator.
pub proof fn lemma_decode_inverts_encode(book: BookView)
    requires
        storable(book),
        !book.id->0.contains(SEPARATOR),
    ensures
        decode_spec(encode_spec(book)) == Ok::<BookView, DecodeError>(book),
{
    lemma_attribute_names_differ();
    lemma_sort_key_reversible(book.id->0, book.category->0);
}

} // verus!
