//! The query planner: the three reads and the one write that the table
//! supports, each as a description that a store gateway can execute.

use vstd::prelude::*;
use crate::codec::{encode, encode_spec, storable, Book};
use crate::keys::{
    category_suffix_text, id_prefix_text, partition_key, partition_key_text,
    sort_key_prefix_for_id, sort_key_suffix_for_category,
};
use crate::query::{
    in_partition, sort_key_begins_with, sort_key_contains, QuerySpec, QueryView, WriteSpec,
};
use crate::record::RecordView;

verus! {

/// The table that holds the books.
pub open spec fn table_name_text() -> Seq<char> {
    "booksTable"@
}

/// The read that finds a book by its id: every category of that id.
pub open spec fn get_by_id_plan(id: Seq<char>) -> QueryView {
    QueryView {
        table: table_name_text(),
        partition: partition_key_text(),
        sort_key_prefix: Some(id_prefix_text(id)),
        sort_key_fragment: None,
    }
}

/// The read that lists every book.
pub open spec fn list_all_plan() -> QueryView {
    QueryView {
        table: table_name_text(),
        partition: partition_key_text(),
        sort_key_prefix: None,
        sort_key_fragment: None,
    }
}

/// The read that lists the books of one category.
pub open spec fn list_by_category_plan(category: Seq<char>) -> QueryView {
    QueryView {
        table: table_name_text(),
        partition: partition_key_text(),
        sort_key_prefix: None,
        sort_key_fragment: Some(category_suffix_text(category)),
    }
}

/// The name of the table that holds the books.
pub fn table_name() -> (name: String)
    ensures
        name@ == table_name_text(),
{
    "booksTable".to_owned()
}

/// Plans the lookup of a book by id. The read matches the records of the
/// book partition whose sort key begins with the id and the separator, and
/// no others; there is one for each category that the id is stored under.
pub fn plan_get_by_id(id: &str) -> (query: QuerySpec)
    ensures
        query@ == get_by_id_plan(id@),
        forall|record: RecordView| #[trigger]
            query@.matches(record) <==> in_partition(record, partition_key_text())
                && sort_key_begins_with(record, id_prefix_text(id@)),
{
    QuerySpec {
        table: table_name(),
        partition: partition_key(),
        sort_key_prefix: Some(sort_key_prefix_for_id(id)),
        sort_key_fragment: None,
    }
}

/// Plans the listing of every book: the whole book partition, in whatever
/// order the store returns it.
pub fn plan_list_all() -> (query: QuerySpec)
    ensures
        query@ == list_all_plan(),
        forall|record: RecordView| #[trigger]
            query@.matches(record) <==> in_partition(record, partition_key_text()),
{
    QuerySpec {
        table: table_name(),
        partition: partition_key(),
        sort_key_prefix: None,
        sort_key_fragment: None,
    }
}

/// Plans the listing of one category. The read matches the records of the
/// book partition whose sort key holds the separator followed by the
/// category, anywhere: a category that another category begins with matches
/// the records of both.
pub fn plan_list_by_category(category: &str) -> (query: QuerySpec)
    ensures
        query@ == list_by_category_plan(category@),
        forall|record: RecordView| #[trigger]
            query@.matches(record) <==> in_partition(record, partition_key_text())
                && sort_key_contains(record, category_suffix_text(category@)),
{
    QuerySpec {
        table: table_name(),
        partition: partition_key(),
        sort_key_prefix: None,
        sort_key_fragment: Some(sort_key_suffix_for_category(category)),
    }
}

/// Plans the write of one book into `table`: its record, put without a
/// look at what the table holds.
pub fn add_item(item: &Book, table: &str) -> (write: WriteSpec)
    requires
        storable(item@),
    ensures
        write.table@ == table@,
        write.record@ == encode_spec(item@),
{
    WriteSpec { table: table.to_owned(), record: encode(item) }
}

/// Plans the write of one book into the books table.
pub fn plan_put(entity: &Book) -> (write: WriteSpec)
    requires
        storable(entity@),
    ensures
        write.table@ == table_name_text(),
        write.record@ == encode_spec(entity@),
{
    add_item(entity, table_name().as_str())
}

} // verus!
