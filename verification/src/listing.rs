//! The order in which the store lists the records of a partition, and the
//! one record that stands for a listing where a single record is asked.

use vstd::prelude::*;
use crate::attribute::Attribute;
use crate::query::{record_views, sort_key_of};
use crate::record::{RecordView, StoredRecord};
use crate::text::{
    chars_of, comes_before, lemma_precedes_one_way, lemma_precedes_total,
    lemma_precedes_transitive, precedes,
};

verus! {

/// `a` is listed before `b`: its sort key comes before that of `b` in the
/// order of the dictionary, which is the order in which the store lists a
/// partition. A record without a string for a sort key, which no partition
/// of the store holds, is listed after every record that has one.
pub open spec fn listed_before(a: RecordView, b: RecordView) -> bool {
    match sort_key_of(a) {
        Some(key_a) => match sort_key_of(b) {
            Some(key_b) => precedes(key_a, key_b),
            None => true,
        },
        None => false,
    }
}

/// `at` is the place of the record that wins among `items`: none is listed
/// before it, and it is listed before all that stand before it.
pub open spec fn wins_at(items: Seq<RecordView>, at: int) -> bool {
    &&& 0 <= at < items.len()
    &&& forall|j: int| 0 <= j < items.len() ==> !listed_before(#[trigger] items[j], items[at])
    &&& forall|j: int| 0 <= j < at ==> listed_before(items[at], #[trigger] items[j])
}

/// The place of the record that wins among `items`, which are not empty.
pub open spec fn winner(items: Seq<RecordView>) -> int {
    choose|at: int| wins_at(items, at)
}

/// No record is listed before itself, and of two records at most one is
/// listed before the other.
pub proof fn lemma_listed_before_one_way(a: RecordView, b: RecordView)
    ensures
        !(listed_before(a, b) && listed_before(b, a)),
{
    if sort_key_of(a) is Some && sort_key_of(b) is Some {
        lemma_precedes_one_way(sort_key_of(a)->0, sort_key_of(b)->0);
    }
}

/// What is listed before a record is listed before all that the record is
/// listed before.
pub proof fn lemma_listed_before_transitive(a: RecordView, b: RecordView, c: RecordView)
    requires
        listed_before(a, b),
        listed_before(b, c),
    ensures
        listed_before(a, c),
{
    if sort_key_of(c) is Some {
        lemma_precedes_transitive(sort_key_of(a)->0, sort_key_of(b)->0, sort_key_of(c)->0);
    }
}

/// What is listed before a record is listed before all that is not listed
/// before that record.
pub proof fn lemma_listed_before_the_rest(a: RecordView, b: RecordView, c: RecordView)
    requires
        listed_before(a, b),
        !listed_before(c, b),
    ensures
        listed_before(a, c),
{
    if sort_key_of(c) is Some {
        let key_a = sort_key_of(a)->0;
        let key_b = sort_key_of(b)->0;
        let key_c = sort_key_of(c)->0;
        lemma_precedes_total(key_b, key_c);
        if precedes(key_b, key_c) {
            lemma_precedes_transitive(key_a, key_b, key_c);
        }
    }
}

/// Among given records at most one place wins.
pub proof fn lemma_winner_is_unique(items: Seq<RecordView>, a: int, b: int)
    requires
        wins_at(items, a),
        wins_at(items, b),
    ensures
        a == b,
{
    if a < b {
        assert(listed_before(items[b], items[a]));
        assert(!listed_before(items[b], items[a]));
    } else if b < a {
        assert(listed_before(items[a], items[b]));
        assert(!listed_before(items[a], items[b]));
    }
}

/// Where the records stand in the order in which the store lists them, the
/// first one wins.
pub proof fn lemma_first_wins_in_listing_order(items: Seq<RecordView>)
    requires
        items.len() > 0,
        forall|i: int, j: int|
            0 <= i < j < items.len() ==> !listed_before(#[trigger] items[j], #[trigger] items[i]),
    ensures
        winner(items) == 0,
{
    lemma_listed_before_one_way(items[0], items[0]);
    assert(wins_at(items, 0));
    lemma_winner_is_unique(items, winner(items), 0);
}

/// The characters of the sort key of a record, where it has one that is a
/// string.
fn sort_key_chars(record: &StoredRecord) -> (key: Option<Vec<char>>)
    ensures
        match key {
            Some(key) => sort_key_of(record@) == Some(key@),
            None => sort_key_of(record@) is None,
        },
{
    match record.get("SK") {
        Some(Attribute::S(sk)) => Some(chars_of(sk.as_str())),
        _ => None,
    }
}

/// Picks, among the records that a read returned, the one that stands for
/// them where one is asked: the one with the smallest sort key, and of
/// several such the first. For the lookup by id that is the smallest
/// category that the id is stored under. Returns its place, `None` where
/// there is no record.
pub fn pick_winner(items: &Vec<StoredRecord>) -> (place: Option<usize>)
    ensures
        match place {
            Some(at) => wins_at(record_views(items@), at as int) && at == winner(
                record_views(items@),
            ),
            None => items@.len() == 0,
        },
{
    if items.len() == 0 {
        return None;
    }
    let ghost views = record_views(items@);
    let mut best: usize = 0;
    let mut best_key: Option<Vec<char>> = sort_key_chars(&items[0]);
    let mut i: usize = 1;
    proof {
        lemma_listed_before_one_way(views[0], views[0]);
    }
    while i < items.len()
        invariant
            0 <= best < i <= items.len(),
            views == record_views(items@),
            match best_key {
                Some(key) => sort_key_of(views[best as int]) == Some(key@),
                None => sort_key_of(views[best as int]) is None,
            },
            forall|j: int| 0 <= j < i ==> !listed_before(#[trigger] views[j], views[best as int]),
            forall|j: int| 0 <= j < best ==> listed_before(views[best as int], #[trigger] views[j]),
        decreases items.len() - i,
    {
        let key = sort_key_chars(&items[i]);
        let below = match &key {
            Some(found) => match &best_key {
                Some(held) => comes_before(found, held),
                None => true,
            },
            None => false,
        };
        assert(below == listed_before(views[i as int], views[best as int]));
        if below {
            proof {
                let old_best = views[best as int];
                let new_best = views[i as int];
                lemma_listed_before_one_way(new_best, new_best);
                assert forall|j: int| 0 <= j < i implies !listed_before(
                    #[trigger] views[j],
                    new_best,
                ) && listed_before(new_best, views[j]) by {
                    if listed_before(views[j], new_best) {
                        lemma_listed_before_transitive(views[j], new_best, old_best);
                    }
                    lemma_listed_before_the_rest(new_best, old_best, views[j]);
                }
            }
            best = i;
            best_key = key;
        }
        i += 1;
    }
    proof {
        assert(wins_at(views, best as int));
        lemma_winner_is_unique(views, winner(views), best as int);
    }
    Some(best)
}

} // verus!
