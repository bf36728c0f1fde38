//! Reads and writes as descriptions: what a planned read asks of the store,
//! which records it matches, and how it is put in the expression syntax of
//! the store.

use vstd::prelude::*;
use crate::attribute::{optional_text, Attribute, AttributeView};
use crate::codec::{partition_attribute, sort_attribute};
use crate::record::{RecordView, StoredRecord};
use crate::text::{begins_with, chars_of, contains, has_fragment, same_text, starts_with};

verus! {

/// A planned read: the items of one partition, narrowed by a condition on
/// the sort key, then by a filter on it.
///
/// The prefix is a key condition: the store seeks to the matching sort keys.
/// The fragment is a filter: the store reads the whole partition and drops
/// what does not match.
#[derive(Debug, PartialEq, Eq)]
pub struct QuerySpec {
    /// The table to read.
    pub table: String,
    /// The partition key that the items have.
    pub partition: String,
    /// What the sort key of the items begins with, if that is asked.
    pub sort_key_prefix: Option<String>,
    /// What the sort key of the items holds, if that is asked.
    pub sort_key_fragment: Option<String>,
}

/// A planned read as the contracts speak of it.
pub struct QueryView {
    pub table: Seq<char>,
    pub partition: Seq<char>,
    pub sort_key_prefix: Option<Seq<char>>,
    pub sort_key_fragment: Option<Seq<char>>,
}

impl View for QuerySpec {
    type V = QueryView;

    open spec fn view(&self) -> QueryView {
        QueryView {
            table: self.table@,
            partition: self.partition@,
            sort_key_prefix: match self.sort_key_prefix {
                Some(prefix) => Some(prefix@),
                None => None,
            },
            sort_key_fragment: match self.sort_key_fragment {
                Some(fragment) => Some(fragment@),
                None => None,
            },
        }
    }
}

impl Clone for QuerySpec {
    /// The same read.
    fn clone(&self) -> (copy: QuerySpec)
        ensures
            copy@ == self@,
    {
        QuerySpec {
            table: self.table.clone(),
            partition: self.partition.clone(),
            sort_key_prefix: self.sort_key_prefix.clone(),
            sort_key_fragment: self.sort_key_fragment.clone(),
        }
    }
}

/// A planned write: one record, put into one table in place of whatever the
/// table holds under the same keys.
#[derive(Debug)]
pub struct WriteSpec {
    /// The table to write to.
    pub table: String,
    /// The record to put.
    pub record: StoredRecord,
}

/// The record lies in the partition `partition`: its partition key is that
/// string.
pub open spec fn in_partition(record: RecordView, partition: Seq<char>) -> bool {
    record.contains_key(partition_attribute()) && record[partition_attribute()]
        == AttributeView::S(partition)
}

/// The sort key of a record, where it has one that is a string.
pub open spec fn sort_key_of(record: RecordView) -> Option<Seq<char>> {
    if record.contains_key(sort_attribute()) {
        match record[sort_attribute()] {
            AttributeView::S(sk) => Some(sk),
            _ => None,
        }
    } else {
        None
    }
}

/// The sort key of the record is a string that begins with `prefix`.
pub open spec fn sort_key_begins_with(record: RecordView, prefix: Seq<char>) -> bool {
    match sort_key_of(record) {
        Some(sk) => begins_with(sk, prefix),
        None => false,
    }
}

/// The sort key of the record is a string that holds `fragment`.
pub open spec fn sort_key_contains(record: RecordView, fragment: Seq<char>) -> bool {
    match sort_key_of(record) {
        Some(sk) => has_fragment(sk, fragment),
        None => false,
    }
}

impl QueryView {
    /// Whether the store returns `record` for this read.
    pub open spec fn matches(self, record: RecordView) -> bool {
        &&& in_partition(record, self.partition)
        &&& match self.sort_key_prefix {
            Some(prefix) => sort_key_begins_with(record, prefix),
            None => true,
        }
        &&& match self.sort_key_fragment {
            Some(fragment) => sort_key_contains(record, fragment),
            None => true,
        }
    }
}

/// What the store returns for a read over the records `stored`: those that
/// match, in the order in which the store holds them.
pub open spec fn selected(query: QueryView, stored: Seq<RecordView>) -> Seq<RecordView> {
    stored.filter(|record: RecordView| query.matches(record))
}

/// The views of a sequence of records.
pub open spec fn record_views(records: Seq<StoredRecord>) -> Seq<RecordView> {
    records.map_values(|record: StoredRecord| record@)
}

/// The key condition of a read, in the expression syntax of the store.
pub open spec fn key_condition_text(query: QueryView) -> Seq<char> {
    if query.sort_key_prefix is Some {
        "#pk = :pk AND begins_with(#sk, :sk_prefix)"@
    } else {
        "#pk = :pk"@
    }
}

/// The filter of a read, in the expression syntax of the store, where the
/// read has one.
pub open spec fn filter_text(query: QueryView) -> Option<Seq<char>> {
    if query.sort_key_fragment is Some {
        Some("contains(#sk, :category)"@)
    } else {
        None
    }
}

/// The attribute names behind the placeholders of the two expressions: the
/// partition key always, the sort key where an expression speaks of it.
pub open spec fn placeholder_names(query: QueryView) -> Seq<(Seq<char>, Seq<char>)> {
    if query.sort_key_prefix is Some || query.sort_key_fragment is Some {
        seq![("#pk"@, "PK"@), ("#sk"@, "SK"@)]
    } else {
        seq![("#pk"@, "PK"@)]
    }
}

/// The values behind the placeholders of the two expressions, as string
/// attributes: the partition, then the prefix and the fragment where the
/// read has them.
pub open spec fn placeholder_values(query: QueryView) -> Seq<(Seq<char>, AttributeView)> {
    seq![(":pk"@, AttributeView::S(query.partition))] + match query.sort_key_prefix {
        Some(prefix) => seq![(":sk_prefix"@, AttributeView::S(prefix))],
        None => seq![],
    } + match query.sort_key_fragment {
        Some(fragment) => seq![(":category"@, AttributeView::S(fragment))],
        None => seq![],
    }
}

/// The views of a list of placeholder names.
pub open spec fn name_views(names: Seq<(String, String)>) -> Seq<(Seq<char>, Seq<char>)> {
    names.map_values(|pair: (String, String)| (pair.0@, pair.1@))
}

/// The views of a list of placeholder values.
pub open spec fn value_views(values: Seq<(String, Attribute)>) -> Seq<(Seq<char>, AttributeView)> {
    values.map_values(|pair: (String, Attribute)| (pair.0@, pair.1@))
}

impl QuerySpec {
    /// Whether the store returns `record` for this read.
    pub fn matches(&self, record: &StoredRecord) -> (hit: bool)
        ensures
            hit == self@.matches(record@),
    {
        let in_partition = match record.get("PK") {
            Some(Attribute::S(pk)) => same_text(pk.as_str(), self.partition.as_str()),
            _ => false,
        };
        if !in_partition {
            return false;
        }
        if self.sort_key_prefix.is_none() && self.sort_key_fragment.is_none() {
            return true;
        }
        let sk: Vec<char> = match record.get("SK") {
            Some(Attribute::S(sk)) => chars_of(sk.as_str()),
            _ => {
                return false;
            },
        };
        let prefix_holds = match &self.sort_key_prefix {
            Some(prefix) => starts_with(&sk, &chars_of(prefix.as_str())),
            None => true,
        };
        let fragment_holds = match &self.sort_key_fragment {
            Some(fragment) => contains(&sk, &chars_of(fragment.as_str())),
            None => true,
        };
        prefix_holds && fragment_holds
    }

    /// The key condition, in the expression syntax of the store.
    pub fn key_condition_expression(&self) -> (expression: String)
        ensures
            expression@ == key_condition_text(self@),
    {
        if self.sort_key_prefix.is_some() {
            "#pk = :pk AND begins_with(#sk, :sk_prefix)".to_owned()
        } else {
            "#pk = :pk".to_owned()
        }
    }

    /// The filter, in the expression syntax of the store, if the read has
    /// one.
    pub fn filter_expression(&self) -> (expression: Option<String>)
        ensures
            optional_text(expression) == filter_text(self@),
    {
        if self.sort_key_fragment.is_some() {
            Some("contains(#sk, :category)".to_owned())
        } else {
            None
        }
    }

    /// Each placeholder for an attribute name that the expressions use,
    /// with the name it stands for.
    pub fn expression_attribute_names(&self) -> (names: Vec<(String, String)>)
        ensures
            name_views(names@) == placeholder_names(self@),
    {
        let mut names: Vec<(String, String)> = Vec::new();
        names.push(("#pk".to_owned(), "PK".to_owned()));
        if self.sort_key_prefix.is_some() || self.sort_key_fragment.is_some() {
            names.push(("#sk".to_owned(), "SK".to_owned()));
        }
        assert(name_views(names@) =~= placeholder_names(self@));
        names
    }

    /// Each placeholder for a value that the expressions use, with the
    /// string attribute it stands for.
    pub fn expression_attribute_values(&self) -> (values: Vec<(String, Attribute)>)
        ensures
            value_views(values@) == placeholder_values(self@),
    {
        let mut values: Vec<(String, Attribute)> = Vec::new();
        values.push((":pk".to_owned(), Attribute::S(self.partition.clone())));
        match &self.sort_key_prefix {
            Some(prefix) => {
                values.push((":sk_prefix".to_owned(), Attribute::S(prefix.clone())));
            },
            None => {},
        }
        match &self.sort_key_fragment {
            Some(fragment) => {
                values.push((":category".to_owned(), Attribute::S(fragment.clone())));
            },
            None => {},
        }
        assert(value_views(values@) =~= placeholder_values(self@));
        values
    }

    /// The records among `stored` that the store returns for this read, in
    /// the order of `stored`.
    pub fn select(&self, stored: &Vec<StoredRecord>) -> (found: Vec<StoredRecord>)
        ensures
            record_views(found@) == selected(self@, record_views(stored@)),
    {
        let ghost hit = |record: RecordView| self@.matches(record);
        let mut found: Vec<StoredRecord> = Vec::new();
        let mut i: usize = 0;
        while i < stored.len()
            invariant
                i <= stored.len(),
                hit == (|record: RecordView| self@.matches(record)),
                record_views(found@) == record_views(stored@).take(i as int).filter(hit),
            decreases stored.len() - i,
        {
            let ghost views = record_views(stored@);
            proof {
                assert(views.take(i + 1) =~= views.take(i as int).push(views[i as int]));
                views.take(i as int).lemma_filter_push(views[i as int], hit);
            }
            if self.matches(&stored[i]) {
                let copy = stored[i].clone();
                proof {
                    assert(record_views(found@.push(copy)) =~= record_views(found@).push(copy@));
                }
                found.push(copy);
            }
            i += 1;
        }
        proof {
            assert(record_views(stored@).take(stored@.len() as int) =~= record_views(stored@));
        }
        found
    }
}

} // verus!
