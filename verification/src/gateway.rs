//! What the store gateway reports.
//!
//! The gateway runs a planned read or write against the store, once, with
//! no retry, and reports how it went: the items, or that the call failed.
//! It is the one part that performs I/O, so it stands outside this library;
//! these are the values in which it answers.

use vstd::prelude::*;
use crate::query::record_views;
use crate::record::{RecordView, StoredRecord};

verus! {

/// A failed call to the store: a transport fault, throttling, a refusal or
/// a fault of the service. The detail is for the log; no reply depends on
/// it.
#[derive(Debug, PartialEq, Eq)]
pub struct StoreError {
    pub detail: String,
}

impl Clone for StoreError {
    /// The same failure.
    fn clone(&self) -> (copy: StoreError)
        ensures
            copy.detail@ == self.detail@,
    {
        StoreError { detail: self.detail.clone() }
    }
}

/// What the gateway reports of a read: the items, where the store answered
/// with an item list; `None`, where it answered without one; or the failure.
pub type QueryOutcome = Result<Option<Vec<StoredRecord>>, StoreError>;

/// What the gateway reports of a write.
pub type PutOutcome = Result<(), StoreError>;

/// What a read came to, as the contracts speak of it: the records found,
/// none where the store gave no list, or that the call failed.
pub enum FoundView {
    Items(Seq<RecordView>),
    NoList,
    Failed,
}

/// The view of a read's outcome.
pub open spec fn found_view(outcome: QueryOutcome) -> FoundView {
    match outcome {
        Ok(Some(items)) => FoundView::Items(record_views(items@)),
        Ok(None) => FoundView::NoList,
        Err(_) => FoundView::Failed,
    }
}

} // verus!
