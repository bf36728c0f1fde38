//! What holds of the codec, the planner and the handlers taken together.

use vstd::prelude::*;
use crate::attribute::AttributeView;
use crate::codec::{
    decode_spec, encode_spec, lemma_attribute_names_differ, partition_attribute, sort_attribute,
    storable, BookView,
};
use crate::gateway::FoundView;
use crate::handlers::{
    book_by_id_reply, books_reply, error_reply, row_of, BodyView, ReplyView, STATUS_OK,
};
use crate::keys::{
    lemma_fragment_of_category_start, lemma_prefix_tells_id, lemma_same_id_keeps_category_order,
    partition_key_text, sort_key_text, SEPARATOR,
};
use crate::listing::listed_before;
use crate::planner::{get_by_id_plan, list_all_plan, list_by_category_plan};
use crate::query::{in_partition, selected, sort_key_of, QueryView};
use crate::record::RecordView;
use crate::text::{begins_with, precedes};

verus! {

/// The value of one attribute of a record, where the record has it.
pub open spec fn attribute_at(record: RecordView, name: Seq<char>) -> Option<AttributeView> {
    if record.contains_key(name) {
        Some(record[name])
    } else {
        None
    }
}

/// Two records have the same keys: the same partition key and the same sort
/// key, or the same lack of them.
pub open spec fn same_keys(a: RecordView, b: RecordView) -> bool {
    &&& attribute_at(a, partition_attribute()) == attribute_at(b, partition_attribute())
    &&& attribute_at(a, sort_attribute()) == attribute_at(b, sort_attribute())
}

/// The records of a table after `record` was put into it: what had the same
/// keys has given way, and the record has joined the rest.
pub open spec fn after_put(stored: Seq<RecordView>, record: RecordView) -> Seq<RecordView> {
    stored.filter(|held: RecordView| !same_keys(held, record)).push(record)
}

/// The record of a storable book lies in the book partition and has the
/// book's sort key.
pub proof fn lemma_encoded_keys(book: BookView)
    requires
        storable(book),
    ensures
        in_partition(encode_spec(book), partition_key_text()),
        sort_key_of(encode_spec(book)) == Some(sort_key_text(book.id->0, book.category->0)),
{
    lemma_attribute_names_differ();
}

/// The lookup by id matches the record of a book exactly when the book has
/// that id, as long as neither id holds a separator. The id `42` does not
/// find the book `420`.
pub proof fn lemma_lookup_matches_its_id(id: Seq<char>, book: BookView)
    requires
        storable(book),
        !id.contains(SEPARATOR),
        !book.id->0.contains(SEPARATOR),
    ensures
        get_by_id_plan(id).matches(encode_spec(book)) <==> book.id == Some(id),
{
    lemma_encoded_keys(book);
    lemma_prefix_tells_id(id, book.id->0, book.category->0);
}

/// The listing of a category matches the record of every book whose
/// category begins with it: the books of that category, and with them the
/// books of each longer category that starts the same way.
pub proof fn lemma_listing_matches_category_start(category: Seq<char>, book: BookView)
    requires
        storable(book),
        begins_with(book.category->0, category),
    ensures
        list_by_category_plan(category).matches(encode_spec(book)),
{
    lemma_encoded_keys(book);
    lemma_fragment_of_category_start(book.id->0, book.category->0, category);
}

/// The listing of a category matches the record of every book of that
/// category.
pub proof fn lemma_listing_matches_its_category(book: BookView)
    requires
        storable(book),
    ensures
        list_by_category_plan(book.category->0).matches(encode_spec(book)),
{
    let category = book.category->0;
    assert(category.subrange(0, category.len() as int) =~= category);
    lemma_listing_matches_category_start(category, book);
}

/// A record that was put is among what a read returns right after, if the
/// read matches it.
pub proof fn lemma_put_is_selected(query: QueryView, stored: Seq<RecordView>, record: RecordView)
    requires
        query.matches(record),
    ensures
        selected(query, after_put(stored, record)).len() > 0,
        selected(query, after_put(stored, record)).last() == record,
{
    let kept = stored.filter(|held: RecordView| !same_keys(held, record));
    kept.lemma_filter_push(record, |candidate: RecordView| query.matches(candidate));
}

/// A book that was written is read back by the lookup of its id: the read
/// returns its record, and the record decodes to a book of the same name.
pub proof fn lemma_written_book_is_read_back(stored: Seq<RecordView>, book: BookView)
    requires
        storable(book),
    ensures
        selected(get_by_id_plan(book.id->0), after_put(stored, encode_spec(book))).contains(
            encode_spec(book),
        ),
        decode_spec(encode_spec(book)) matches Ok(read) && read.name == book.name,
{
    let id = book.id->0;
    let record = encode_spec(book);
    lemma_encoded_keys(book);
    lemma_attribute_names_differ();
    let sk = sort_key_text(id, book.category->0);
    assert(sk.subrange(0, id.len() as int + 1) =~= id + seq![SEPARATOR]);
    assert(get_by_id_plan(id).matches(record));
    lemma_put_is_selected(get_by_id_plan(id), stored, record);
    let found = selected(get_by_id_plan(id), after_put(stored, record));
    assert(found[found.len() - 1] == record);
    assert(sk[id.len() as int] == SEPARATOR);
    assert(sk.contains(SEPARATOR));
}

/// Of two books stored under one id, the one with the smaller category is
/// listed first: among the records of one id, the lookup answers with the
/// smallest category.
pub proof fn lemma_smaller_category_is_listed_first(a: BookView, b: BookView)
    requires
        storable(a),
        storable(b),
        a.id == b.id,
    ensures
        listed_before(encode_spec(a), encode_spec(b)) <==> precedes(a.category->0, b.category->0),
{
    lemma_encoded_keys(a);
    lemma_encoded_keys(b);
    lemma_same_id_keeps_category_order(a.id->0, a.category->0, b.category->0);
}

/// Listing an empty partition gives an empty list of books, not an error.
pub proof fn lemma_empty_partition_lists_nothing()
    ensures
        selected(list_all_plan(), Seq::<RecordView>::empty()) == Seq::<RecordView>::empty(),
        books_reply(FoundView::Items(Seq::<RecordView>::empty())) == (ReplyView {
            status: STATUS_OK,
            body: BodyView::Items(Seq::empty()),
        }),
{
    let none = Seq::<RecordView>::empty();
    none.lemma_filter_len(|record: RecordView| list_all_plan().matches(record));
    assert(selected(list_all_plan(), none) =~= none);
    assert(none.map_values(|record: RecordView| row_of(record)) =~= Seq::empty());
}

/// The lookup of an id that no stored record matches is answered with the
/// not-found marker.
pub proof fn lemma_unknown_id_is_not_found(id: Seq<char>, stored: Seq<RecordView>)
    requires
        forall|i: int| 0 <= i < stored.len() ==> !get_by_id_plan(id).matches(#[trigger] stored[i]),
    ensures
        book_by_id_reply(FoundView::Items(selected(get_by_id_plan(id), stored))) == error_reply(
            "Item not found"@,
        ),
{
    let hit = |record: RecordView| get_by_id_plan(id).matches(record);
    let found = stored.filter(hit);
    if found.len() > 0 {
        stored.lemma_filter_pred(hit, 0);
        stored.lemma_filter_contains_rev(hit, found[0]);
    }
}

} // verus!
