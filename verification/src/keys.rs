//! The key scheme: how the identity of a book maps to the partition key and
//! the sort key of its stored record, and back.
//!
//! Every book lives in one partition. Its sort key is the id, the separator
//! `#` and the category, so that all categories of one id share a prefix and
//! all ids of one category share a fragment.

use vstd::prelude::*;
use crate::text::{
    begins_with, chars_of, first_at, has_fragment, occurs_at, parts_below_at, position_of,
    precedes,
};

verus! {

/// The character between the id and the category in a sort key.
pub const SEPARATOR: char = '#';

/// The partition key shared by every book.
pub open spec fn partition_key_text() -> Seq<char> {
    "book"@
}

/// The sort key of the book `(id, category)`.
pub open spec fn sort_key_text(id: Seq<char>, category: Seq<char>) -> Seq<char> {
    id + seq![SEPARATOR] + category
}

/// What every sort key of `id` starts with.
pub open spec fn id_prefix_text(id: Seq<char>) -> Seq<char> {
    id + seq![SEPARATOR]
}

/// What every sort key of `category` holds.
pub open spec fn category_suffix_text(category: Seq<char>) -> Seq<char> {
    seq![SEPARATOR] + category
}

/// The id and the category that a sort key reads as: what stands before its
/// first separator, and what stands after it. A text without a separator is
/// no sort key.
pub open spec fn sort_key_parts(sk: Seq<char>) -> Option<(Seq<char>, Seq<char>)> {
    if sk.contains(SEPARATOR) {
        let at = choose|at: int| first_at(sk, SEPARATOR, at);
        Some((sk.take(at), sk.skip(at + 1)))
    } else {
        None
    }
}

/// A character has at most one first position.
pub proof fn lemma_first_at_unique(s: Seq<char>, c: char, a: int, b: int)
    requires
        first_at(s, c, a),
        first_at(s, c, b),
    ensures
        a == b,
{
}

/// A sort key reads back as the id and category it was made of, as long as
/// the id holds no separator.
pub proof fn lemma_sort_key_reversible(id: Seq<char>, category: Seq<char>)
    requires
        !id.contains(SEPARATOR),
    ensures
        sort_key_parts(sort_key_text(id, category)) == Some((id, category)),
{
    let sk = sort_key_text(id, category);
    let n = id.len() as int;
    assert(sk[n] == SEPARATOR);
    assert forall|j: int| 0 <= j < n implies sk[j] != SEPARATOR by {
        assert(sk[j] == id[j]);
    }
    assert(first_at(sk, SEPARATOR, n));
    let at = choose|at: int| first_at(sk, SEPARATOR, at);
    lemma_first_at_unique(sk, SEPARATOR, at, n);
    assert(sk.take(n) =~= id);
    assert(sk.skip(n + 1) =~= category);
}

/// Two books whose ids hold no separator have the same sort key only if
/// they have the same id and the same category.
pub proof fn lemma_sort_key_injective(
    id_a: Seq<char>,
    category_a: Seq<char>,
    id_b: Seq<char>,
    category_b: Seq<char>,
)
    requires
        !id_a.contains(SEPARATOR),
        !id_b.contains(SEPARATOR),
        sort_key_text(id_a, category_a) == sort_key_text(id_b, category_b),
    ensures
        id_a == id_b,
        category_a == category_b,
{
    lemma_sort_key_reversible(id_a, category_a);
    lemma_sort_key_reversible(id_b, category_b);
}

/// A sort key begins with the prefix of an id exactly when it is a sort key
/// of that id, as long as neither id holds a separator.
pub proof fn lemma_prefix_tells_id(id: Seq<char>, other: Seq<char>, category: Seq<char>)
    requires
        !id.contains(SEPARATOR),
        !other.contains(SEPARATOR),
    ensures
        begins_with(sort_key_text(other, category), id_prefix_text(id)) <==> other == id,
{
    let sk = sort_key_text(other, category);
    let prefix = id_prefix_text(id);
    if other == id {
        assert(sk.subrange(0, prefix.len() as int) =~= prefix);
    }
    if begins_with(sk, prefix) {
        let cut = sk.subrange(0, prefix.len() as int);
        assert(cut == prefix);
        if id.len() < other.len() {
            assert(cut[id.len() as int] == other[id.len() as int]);
            assert(prefix[id.len() as int] == SEPARATOR);
            assert(other.contains(SEPARATOR));
        } else if id.len() > other.len() {
            assert(cut[other.len() as int] == SEPARATOR);
            assert(prefix[other.len() as int] == id[other.len() as int]);
            assert(id.contains(SEPARATOR));
        } else {
            assert forall|i: int| 0 <= i < id.len() implies other[i] == id[i] by {
                assert(cut[i] == other[i]);
                assert(prefix[i] == id[i]);
            }
            assert(other =~= id);
        }
    }
}

/// The sort key of a book holds the fragment of every category that the
/// book's own category begins with: of its own, and of each shorter one
/// that it extends.
pub proof fn lemma_fragment_of_category_start(
    id: Seq<char>,
    category: Seq<char>,
    start: Seq<char>,
)
    requires
        begins_with(category, start),
    ensures
        has_fragment(sort_key_text(id, category), category_suffix_text(start)),
{
    let sk = sort_key_text(id, category);
    let fragment = category_suffix_text(start);
    let at = id.len() as int;
    assert(category.subrange(0, start.len() as int) == start);
    assert forall|i: int| 0 <= i < fragment.len() implies sk.subrange(at, at + fragment.len())[i]
        == fragment[i] by {
        if i > 0 {
            assert(category.subrange(0, start.len() as int)[i - 1] == category[i - 1]);
        }
    }
    assert(sk.subrange(at, at + fragment.len()) =~= fragment);
    assert(occurs_at(sk, fragment, at));
}

/// The sort keys of one id stand in the order of their categories.
pub proof fn lemma_same_id_keeps_category_order(
    id: Seq<char>,
    category_a: Seq<char>,
    category_b: Seq<char>,
)
    ensures
        precedes(sort_key_text(id, category_a), sort_key_text(id, category_b)) <==> precedes(
            category_a,
            category_b,
        ),
{
    let a = sort_key_text(id, category_a);
    let b = sort_key_text(id, category_b);
    let n = id.len() as int + 1;
    if precedes(category_a, category_b) {
        let k = choose|k: int| parts_below_at(category_a, category_b, k);
        assert forall|i: int| 0 <= i < n + k implies a[i] == b[i] by {
            if i >= n {
                assert(category_a.subrange(0, k)[i - n] == category_b.subrange(0, k)[i - n]);
            }
        }
        assert(a.subrange(0, n + k) =~= b.subrange(0, n + k));
        assert(parts_below_at(a, b, n + k));
    }
    if precedes(a, b) {
        let k = choose|k: int| parts_below_at(a, b, k);
        if k < n {
            assert(a[k] == b[k]);
        } else {
            assert forall|i: int| 0 <= i < k - n implies category_a[i] == category_b[i] by {
                assert(a.subrange(0, k)[i + n] == b.subrange(0, k)[i + n]);
            }
            assert(category_a.subrange(0, k - n) =~= category_b.subrange(0, k - n));
            assert(parts_below_at(category_a, category_b, k - n));
        }
    }
}

/// The partition key: always `book`.
pub fn partition_key() -> (pk: String)
    ensures
        pk@ == partition_key_text(),
{
    "book".to_owned()
}

/// The sort key of the book `(id, category)`: the id, `#`, the category.
pub fn sort_key(id: &str, category: &str) -> (sk: String)
    ensures
        sk@ == sort_key_text(id@, category@),
{
    let mut sk = sort_key_prefix_for_id(id);
    sk.append(category);
    sk
}

/// The prefix shared by the sort keys of every category of `id`: the id
/// and `#`.
pub fn sort_key_prefix_for_id(id: &str) -> (prefix: String)
    ensures
        prefix@ == id_prefix_text(id@),
{
    let mut prefix = id.to_owned();
    prefix.append("#");
    proof {
        reveal_strlit("#");
        assert("#"@ =~= seq![SEPARATOR]);
    }
    prefix
}

/// The fragment held by the sort keys of every id of `category`: `#` and
/// the category.
pub fn sort_key_suffix_for_category(category: &str) -> (suffix: String)
    ensures
        suffix@ == category_suffix_text(category@),
{
    let mut suffix = "#".to_owned();
    suffix.append(category);
    proof {
        reveal_strlit("#");
        assert("#"@ =~= seq![SEPARATOR]);
    }
    suffix
}

/// Reads a sort key back into id and category, splitting at its first `#`.
/// Returns `None` exactly when the text holds no `#`.
pub fn split_sort_key(sk: &str) -> (parts: Option<(String, String)>)
    ensures
        match parts {
            Some((id, category)) => sort_key_parts(sk@) == Some((id@, category@)),
            None => sort_key_parts(sk@) is None,
        },
{
    let chars = chars_of(sk);
    match position_of(&chars, SEPARATOR) {
        None => None,
        Some(at) => {
            proof {
                assert(first_at(sk@, SEPARATOR, at as int));
                let chosen = choose|k: int| first_at(sk@, SEPARATOR, k);
                lemma_first_at_unique(sk@, SEPARATOR, chosen, at as int);
            }
            let end: usize = chars.len();
            assert(at < end);
            let id = sk.substring_char(0, at).to_owned();
            let category = sk.substring_char(at + 1, end).to_owned();
            Some((id, category))
        },
    }
}

} // verus!
