//! Text as sequences of characters: prefixes, fragments and positions.
//!
//! The store compares sort keys character by character, so the predicates
//! here are stated over `Seq<char>`, and the executable functions work on
//! the characters of a string taken out once with [`chars_of`].

use vstd::prelude::*;

verus! {

broadcast use vstd::string::group_string_axioms;

/// `needle` stands in `hay` at offset `at`.
pub open spec fn occurs_at(hay: Seq<char>, needle: Seq<char>, at: int) -> bool {
    &&& 0 <= at
    &&& at + needle.len() <= hay.len()
    &&& hay.subrange(at, at + needle.len()) == needle
}

/// `hay` starts with `prefix`.
pub open spec fn begins_with(hay: Seq<char>, prefix: Seq<char>) -> bool {
    occurs_at(hay, prefix, 0)
}

/// `needle` is a contiguous part of `hay`.
pub open spec fn has_fragment(hay: Seq<char>, needle: Seq<char>) -> bool {
    exists|at: int| occurs_at(hay, needle, at)
}

/// `at` is the first position of `c` in `s`.
pub open spec fn first_at(s: Seq<char>, c: char, at: int) -> bool {
    &&& 0 <= at < s.len()
    &&& s[at] == c
    &&& forall|j: int| 0 <= j < at ==> s[j] != c
}

/// `a` and `b` agree on their first `k` characters, and there `a` turns to
/// the smaller side: it ends while `b` goes on, or it has the smaller
/// character.
pub open spec fn parts_below_at(a: Seq<char>, b: Seq<char>, k: int) -> bool {
    &&& 0 <= k <= a.len()
    &&& k < b.len()
    &&& a.subrange(0, k) == b.subrange(0, k)
    &&& (k == a.len() || a[k] < b[k])
}

/// `a` comes before `b` in the order of the dictionary, character by
/// character, a text before each of its extensions. This is the order in
/// which the store lists the sort keys of a partition.
pub open spec fn precedes(a: Seq<char>, b: Seq<char>) -> bool {
    exists|k: int| parts_below_at(a, b, k)
}

/// No text comes before itself, and of two texts at most one comes before
/// the other.
pub proof fn lemma_precedes_one_way(a: Seq<char>, b: Seq<char>)
    ensures
        !(precedes(a, b) && precedes(b, a)),
{
    if precedes(a, b) && precedes(b, a) {
        let k = choose|k: int| parts_below_at(a, b, k);
        let m = choose|m: int| parts_below_at(b, a, m);
        if k < m {
            assert(b.subrange(0, m)[k] == a.subrange(0, m)[k]);
        } else if m < k {
            assert(a.subrange(0, k)[m] == b.subrange(0, k)[m]);
        }
    }
}

/// What comes before a text comes before all that the text comes before.
pub proof fn lemma_precedes_transitive(a: Seq<char>, b: Seq<char>, c: Seq<char>)
    requires
        precedes(a, b),
        precedes(b, c),
    ensures
        precedes(a, c),
{
    let k = choose|k: int| parts_below_at(a, b, k);
    let m = choose|m: int| parts_below_at(b, c, m);
    let cut = if k <= m {
        k
    } else {
        m
    };
    assert forall|i: int| 0 <= i < cut implies a[i] == c[i] by {
        assert(a.subrange(0, k)[i] == b.subrange(0, k)[i]);
        assert(b.subrange(0, m)[i] == c.subrange(0, m)[i]);
    }
    assert(a.subrange(0, cut) =~= c.subrange(0, cut));
    if k < m {
        assert(b.subrange(0, m)[k] == c.subrange(0, m)[k]);
    } else if m < k {
        assert(a.subrange(0, k)[m] == b.subrange(0, k)[m]);
    }
    assert(parts_below_at(a, c, cut));
}

/// Of two different texts one comes before the other.
pub proof fn lemma_precedes_total(a: Seq<char>, b: Seq<char>)
    ensures
        a == b || precedes(a, b) || precedes(b, a),
    decreases a.len(),
{
    if a.len() == 0 && b.len() == 0 {
        assert(a =~= b);
    } else if a.len() == 0 {
        assert(a.subrange(0, 0) =~= b.subrange(0, 0));
        assert(parts_below_at(a, b, 0));
    } else if b.len() == 0 {
        assert(b.subrange(0, 0) =~= a.subrange(0, 0));
        assert(parts_below_at(b, a, 0));
    } else if a[0] != b[0] {
        assert(a.subrange(0, 0) =~= b.subrange(0, 0));
        if a[0] < b[0] {
            assert(parts_below_at(a, b, 0));
        } else {
            assert(parts_below_at(b, a, 0));
        }
    } else {
        let x = a.drop_first();
        let y = b.drop_first();
        lemma_precedes_total(x, y);
        if x == y {
            assert(a =~= seq![a[0]] + x);
            assert(b =~= seq![b[0]] + y);
        } else if precedes(x, y) {
            let k = choose|k: int| parts_below_at(x, y, k);
            assert forall|i: int| 0 <= i < k + 1 implies a[i] == b[i] by {
                if i > 0 {
                    assert(x.subrange(0, k)[i - 1] == y.subrange(0, k)[i - 1]);
                }
            }
            assert(a.subrange(0, k + 1) =~= b.subrange(0, k + 1));
            assert(parts_below_at(a, b, k + 1));
        } else {
            let k = choose|k: int| parts_below_at(y, x, k);
            assert forall|i: int| 0 <= i < k + 1 implies b[i] == a[i] by {
                if i > 0 {
                    assert(y.subrange(0, k)[i - 1] == x.subrange(0, k)[i - 1]);
                }
            }
            assert(b.subrange(0, k + 1) =~= a.subrange(0, k + 1));
            assert(parts_below_at(b, a, k + 1));
        }
    }
}

/// The characters of `s`, in order.
pub fn chars_of(s: &str) -> (out: Vec<char>)
    ensures
        out@ == s@,
{
    let mut out: Vec<char> = Vec::new();
    for c in it: s.chars()
        invariant
            it.seq() == s@,
            out@ == s@.take(it.index()),
    {
        out.push(c);
    }
    out
}

/// Whether `needle` stands in `hay` at offset `at`.
pub fn occurs(hay: &Vec<char>, needle: &Vec<char>, at: usize) -> (found: bool)
    ensures
        found == occurs_at(hay@, needle@, at as int),
{
    if needle.len() > hay.len() || at > hay.len() - needle.len() {
        return false;
    }
    let mut i: usize = 0;
    while i < needle.len()
        invariant
            i <= needle.len(),
            at + needle.len() <= hay.len(),
            forall|j: int| 0 <= j < i ==> hay@[at + j] == needle@[j],
        decreases needle.len() - i,
    {
        if hay[at + i] != needle[i] {
            assert(hay@.subrange(at as int, at + needle.len())[i as int] != needle@[i as int]);
            return false;
        }
        i += 1;
    }
    assert(hay@.subrange(at as int, at + needle.len()) =~= needle@);
    true
}

/// Whether `hay` starts with `prefix`.
pub fn starts_with(hay: &Vec<char>, prefix: &Vec<char>) -> (found: bool)
    ensures
        found == begins_with(hay@, prefix@),
{
    occurs(hay, prefix, 0)
}

/// Whether `needle` is a contiguous part of `hay`.
pub fn contains(hay: &Vec<char>, needle: &Vec<char>) -> (found: bool)
    ensures
        found == has_fragment(hay@, needle@),
{
    if needle.len() > hay.len() {
        return false;
    }
    let mut at: usize = 0;
    while hay.len() - at >= needle.len()
        invariant
            at <= hay.len(),
            needle.len() <= hay.len(),
            forall|k: int| 0 <= k < at ==> !occurs_at(hay@, needle@, k),
        decreases hay.len() - at,
    {
        if occurs(hay, needle, at) {
            return true;
        }
        assert(needle.len() > 0) by {
            if needle.len() == 0 {
                assert(hay@.subrange(at as int, at as int) =~= needle@);
            }
        }
        at += 1;
    }
    false
}

/// The first position of `c` in `s`, if it occurs there.
pub fn position_of(s: &Vec<char>, c: char) -> (found: Option<usize>)
    ensures
        match found {
            Some(at) => first_at(s@, c, at as int),
            None => !s@.contains(c),
        },
{
    let mut i: usize = 0;
    while i < s.len()
        invariant
            i <= s.len(),
            forall|j: int| 0 <= j < i ==> s@[j] != c,
        decreases s.len() - i,
    {
        if s[i] == c {
            return Some(i);
        }
        i += 1;
    }
    None
}

/// Whether `a` comes before `b` in the order of the dictionary.
pub fn comes_before(a: &Vec<char>, b: &Vec<char>) -> (below: bool)
    ensures
        below == precedes(a@, b@),
{
    let mut i: usize = 0;
    while i < a.len() && i < b.len()
        invariant
            i <= a.len(),
            i <= b.len(),
            forall|j: int| 0 <= j < i ==> a@[j] == b@[j],
        decreases a.len() - i,
    {
        if a[i] != b[i] {
            let below = a[i] < b[i];
            proof {
                if below {
                    assert(a@.subrange(0, i as int) =~= b@.subrange(0, i as int));
                    assert(parts_below_at(a@, b@, i as int));
                } else {
                    assert forall|k: int| !parts_below_at(a@, b@, k) by {
                        if parts_below_at(a@, b@, k) && k > i {
                            assert(a@.subrange(0, k)[i as int] == b@.subrange(0, k)[i as int]);
                        }
                    }
                }
            }
            return below;
        }
        i += 1;
    }
    let below = i < b.len();
    proof {
        if below {
            assert(a@.subrange(0, i as int) =~= b@.subrange(0, i as int));
            assert(parts_below_at(a@, b@, i as int));
        } else {
            assert forall|k: int| !parts_below_at(a@, b@, k) by {}
        }
    }
    below
}

/// Whether two strings hold the same characters.
pub fn same_text(a: &str, b: &str) -> (same: bool)
    ensures
        same == (a@ == b@),
{
    let x = chars_of(a);
    let y = chars_of(b);
    if x.len() != y.len() {
        return false;
    }
    let same = occurs(&x, &y, 0);
    assert(x@.subrange(0, x@.len() as int) =~= x@);
    same
}

} // verus!
