//! What each endpoint answers, given what the store gateway reported.
//! Nothing here touches the store: each function takes the report of a read
//! or a write and decides the reply.

use vstd::prelude::*;
use crate::codec::{decode, decode_many, decode_spec, row_view, Book, BookView, DecodeError};
use crate::listing::{pick_winner, winner};
use crate::gateway::{found_view, FoundView, PutOutcome, QueryOutcome};
use crate::query::record_views;
use crate::record::RecordView;

verus! {

/// The status of a reply that carries an answer.
pub const STATUS_OK: u16 = 200;

/// The status of a reply that reports a failure of the service.
pub const STATUS_INTERNAL_SERVER_ERROR: u16 = 500;

/// One record of a reply: the book it decoded to, or the error marker that
/// stands in its place where it did not decode.
#[derive(Debug, PartialEq, Eq)]
pub enum Row {
    /// The book, as an object with its id, category and name.
    Book(Book),
    /// An object with the one member `error`.
    Error(String),
}

/// The body of a reply.
#[derive(Debug, PartialEq, Eq)]
pub enum Body {
    /// One row.
    Item(Row),
    /// A list of rows.
    Items(Vec<Row>),
    /// An object with the one member `msg`.
    Message(String),
    /// An object with the one member `error`.
    Error(String),
    /// Plain text.
    Text(String),
}

/// A reply: a status and a body.
#[derive(Debug, PartialEq, Eq)]
pub struct Reply {
    pub status: u16,
    pub body: Body,
}

/// A row as the contracts speak of it.
pub enum RowView {
    Book(BookView),
    Error(Seq<char>),
}

impl View for Row {
    type V = RowView;

    open spec fn view(&self) -> RowView {
        match self {
            Row::Book(book) => RowView::Book(book@),
            Row::Error(marker) => RowView::Error(marker@),
        }
    }
}

impl Clone for Row {
    /// The same row.
    fn clone(&self) -> (copy: Row)
        ensures
            copy@ == self@,
    {
        match self {
            Row::Book(book) => Row::Book(book.clone()),
            Row::Error(marker) => Row::Error(marker.clone()),
        }
    }
}

/// The views of a list of rows.
pub open spec fn row_views(rows: Seq<Row>) -> Seq<RowView> {
    rows.map_values(|row: Row| row@)
}

/// The body of a reply as the contracts speak of it.
pub enum BodyView {
    Item(RowView),
    Items(Seq<RowView>),
    Message(Seq<char>),
    Error(Seq<char>),
    Text(Seq<char>),
}

/// A reply as the contracts speak of it.
pub struct ReplyView {
    pub status: u16,
    pub body: BodyView,
}

impl View for Body {
    type V = BodyView;

    open spec fn view(&self) -> BodyView {
        match self {
            Body::Item(row) => BodyView::Item(row@),
            Body::Items(rows) => BodyView::Items(row_views(rows@)),
            Body::Message(text) => BodyView::Message(text@),
            Body::Error(text) => BodyView::Error(text@),
            Body::Text(text) => BodyView::Text(text@),
        }
    }
}

impl View for Reply {
    type V = ReplyView;

    open spec fn view(&self) -> ReplyView {
        ReplyView { status: self.status, body: self.body@ }
    }
}

/// The row that stands for a decoded record: its book where it decoded;
/// where it did not, the same marker whatever the reason, so that one bad
/// record does not fail the reply.
pub open spec fn row_from(decoded: Result<BookView, DecodeError>) -> RowView {
    match decoded {
        Ok(book) => RowView::Book(book),
        Err(_) => RowView::Error("Failed to deserialize item"@),
    }
}

/// The row that stands for a stored record.
pub open spec fn row_of(record: RecordView) -> RowView {
    row_from(decode_spec(record))
}

/// The reply that reports `message` as an error, under the status of an
/// answer.
pub open spec fn error_reply(message: Seq<char>) -> ReplyView {
    ReplyView { status: STATUS_OK, body: BodyView::Error(message) }
}

/// The reply to a lookup by id: the row of the record that wins among those
/// found; the not-found marker where none was found; the failure marker
/// where the read failed.
pub open spec fn book_by_id_reply(found: FoundView) -> ReplyView {
    match found {
        FoundView::Items(items) => if items.len() > 0 {
            ReplyView { status: STATUS_OK, body: BodyView::Item(row_of(items[winner(items)])) }
        } else {
            error_reply("Item not found"@)
        },
        FoundView::NoList => error_reply("Item not found"@),
        FoundView::Failed => error_reply("Failed to query items"@),
    }
}

/// The reply to a listing: the row of every record found, in the order of
/// the store, an empty list included; the no-items marker where the store
/// gave no list; the failure marker where the read failed.
pub open spec fn books_reply(found: FoundView) -> ReplyView {
    match found {
        FoundView::Items(items) => ReplyView {
            status: STATUS_OK,
            body: BodyView::Items(items.map_values(|record: RecordView| row_of(record))),
        },
        FoundView::NoList => error_reply("No items found"@),
        FoundView::Failed => error_reply("Failed to query items"@),
    }
}

/// The reply to a write: the confirmation, or the failure as plain text
/// under the status of a service failure.
pub open spec fn added_reply(stored: bool) -> ReplyView {
    if stored {
        ReplyView { status: STATUS_OK, body: BodyView::Message("Item added to DynamoDB"@) }
    } else {
        ReplyView {
            status: STATUS_INTERNAL_SERVER_ERROR,
            body: BodyView::Text("Failed to add item to DynamoDB"@),
        }
    }
}

/// The reply to a health check.
pub open spec fn health_reply(healthy: bool) -> ReplyView {
    if healthy {
        ReplyView { status: STATUS_OK, body: BodyView::Text("Healthy!"@) }
    } else {
        ReplyView { status: STATUS_INTERNAL_SERVER_ERROR, body: BodyView::Text("Not healthy!"@) }
    }
}

/// The reply that reports `message` as an error.
fn error_marker(message: &str) -> (reply: Reply)
    ensures
        reply@ == error_reply(message@),
{
    Reply { status: STATUS_OK, body: Body::Error(message.to_owned()) }
}

/// The row that stands for a decoded record.
pub fn to_row(decoded: Result<Book, DecodeError>) -> (row: Row)
    ensures
        row@ == row_from(row_view(decoded)),
{
    match decoded {
        Ok(book) => Row::Book(book),
        Err(_) => Row::Error("Failed to deserialize item".to_owned()),
    }
}

/// The reply to the lookup of a book by id, given the outcome of the read
/// planned for it. Where the id is stored under several categories the
/// reply holds the smallest of them in the order of the dictionary. The
/// store lists a partition in that order, so this is the record it lists
/// first; the reply is the same in whatever order the records arrive.
pub fn get_book_by_id(outcome: &QueryOutcome) -> (reply: Reply)
    ensures
        reply@ == book_by_id_reply(found_view(*outcome)),
{
    match outcome {
        Ok(Some(items)) => match pick_winner(items) {
            Some(at) => Reply { status: STATUS_OK, body: Body::Item(to_row(decode(&items[at]))) },
            None => error_marker("Item not found"),
        },
        Ok(None) => error_marker("Item not found"),
        Err(_) => error_marker("Failed to query items"),
    }
}

/// The reply that lists the records of a read.
fn list_books(outcome: &QueryOutcome) -> (reply: Reply)
    ensures
        reply@ == books_reply(found_view(*outcome)),
{
    match outcome {
        Ok(Some(items)) => {
            let decoded = decode_many(items);
            let ghost all = decoded@;
            let mut rows: Vec<Row> = Vec::new();
            for entry in it: decoded
                invariant
                    it.seq() == all,
                    rows@.len() == it.index(),
                    forall|k: int|
                        0 <= k < it.index() ==> (#[trigger] rows@[k])@ == row_from(row_view(all[k])),
            {
                rows.push(to_row(entry));
            }
            proof {
                let expected = record_views(items@).map_values(
                    |record: RecordView| row_of(record),
                );
                assert(row_views(rows@) =~= expected);
            }
            Reply { status: STATUS_OK, body: Body::Items(rows) }
        },
        Ok(None) => error_marker("No items found"),
        Err(_) => error_marker("Failed to query items"),
    }
}

/// The reply to the listing of every book, given the outcome of the read
/// planned for it. An empty partition gives an empty list, not an error.
pub fn get_all_books(outcome: &QueryOutcome) -> (reply: Reply)
    ensures
        reply@ == books_reply(found_view(*outcome)),
{
    list_books(outcome)
}

/// The reply to the listing of one category, given the outcome of the read
/// planned for it.
pub fn get_books_by_category(outcome: &QueryOutcome) -> (reply: Reply)
    ensures
        reply@ == books_reply(found_view(*outcome)),
{
    list_books(outcome)
}

/// The reply to the request to add a book, given the outcome of the write
/// planned for it.
pub fn add_new_book(outcome: &PutOutcome) -> (reply: Reply)
    ensures
        reply@ == added_reply(*outcome is Ok),
{
    match outcome {
        Ok(_) => Reply {
            status: STATUS_OK,
            body: Body::Message("Item added to DynamoDB".to_owned()),
        },
        Err(_) => Reply {
            status: STATUS_INTERNAL_SERVER_ERROR,
            body: Body::Text("Failed to add item to DynamoDB".to_owned()),
        },
    }
}

/// The reply for a service that is, or is not, in working order.
pub fn health_status(healthy: bool) -> (reply: Reply)
    ensures
        reply@ == health_reply(healthy),
{
    if healthy {
        Reply { status: STATUS_OK, body: Body::Text("Healthy!".to_owned()) }
    } else {
        Reply {
            status: STATUS_INTERNAL_SERVER_ERROR,
            body: Body::Text("Not healthy!".to_owned()),
        }
    }
}

/// The reply to a health check: the service answers, so it is healthy.
pub fn health_check() -> (reply: Reply)
    ensures
        reply@ == health_reply(true),
{
    health_status(true)
}

} // verus!
