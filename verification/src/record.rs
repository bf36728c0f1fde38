//! Stored records: the items of the table, as maps from attribute names to
//! attribute values.

use vstd::prelude::*;
use crate::attribute::{Attribute, AttributeView};
use crate::text::same_text;

verus! {

/// One item of the table: each attribute name with its value, every name
/// at most once.
#[derive(Debug)]
pub struct StoredRecord {
    attributes: Vec<(String, Attribute)>,
}

/// A stored record as the contracts speak of it.
pub type RecordView = Map<Seq<char>, AttributeView>;

/// `at` is a position in `entries` that holds the attribute `name`.
pub open spec fn holds_name(entries: Seq<(String, Attribute)>, name: Seq<char>, at: int) -> bool {
    0 <= at < entries.len() && entries[at].0@ == name
}

/// The position in `entries` of the attribute `name`, if it is there.
fn position(entries: &Vec<(String, Attribute)>, name: &str) -> (found: Option<usize>)
    ensures
        match found {
            Some(at) => holds_name(entries@, name@, at as int),
            None => forall|k: int| !holds_name(entries@, name@, k),
        },
{
    let mut i: usize = 0;
    while i < entries.len()
        invariant
            i <= entries.len(),
            forall|k: int| 0 <= k < i ==> !holds_name(entries@, name@, k),
        decreases entries.len() - i,
    {
        if same_text(entries[i].0.as_str(), name) {
            return Some(i);
        }
        i += 1;
    }
    None
}

impl StoredRecord {
    #[verifier::type_invariant]
    spec fn names_occur_once(&self) -> bool {
        forall|i: int, j: int|
            0 <= i < j < self.attributes@.len() ==> self.attributes@[i].0@ != self.attributes@[j].0@
    }

    /// A record with no attribute.
    pub fn new() -> (record: StoredRecord)
        ensures
            record@ == Map::<Seq<char>, AttributeView>::empty(),
    {
        let record = StoredRecord { attributes: Vec::new() };
        assert(record@ =~= Map::<Seq<char>, AttributeView>::empty());
        record
    }

    /// The value of the attribute `name`, if the record has it.
    pub fn get(&self, name: &str) -> (found: Option<&Attribute>)
        ensures
            match found {
                Some(value) => self@.contains_key(name@) && self@[name@] == value@,
                None => !self@.contains_key(name@),
            },
    {
        proof {
            use_type_invariant(self);
        }
        match position(&self.attributes, name) {
            Some(at) => {
                proof {
                    let chosen = choose|k: int| holds_name(self.attributes@, name@, k);
                    assert(chosen == at);
                }
                Some(&self.attributes[at].1)
            },
            None => None,
        }
    }

    /// Sets the attribute `name` to `value`, in place of the value it had,
    /// if it had one.
    pub fn insert(&mut self, name: String, value: Attribute)
        ensures
            final(self)@ == old(self)@.insert(name@, value@),
    {
        proof {
            use_type_invariant(&*self);
        }
        let ghost before = self.attributes@;
        let ghost name_text = name@;
        let ghost value_view = value@;
        let mut entries: Vec<(String, Attribute)> = Vec::new();
        std::mem::swap(&mut self.attributes, &mut entries);
        let ghost slot: int;
        match position(&entries, name.as_str()) {
            Some(at) => {
                proof {
                    slot = at as int;
                }
                entries.set(at, (name, value));
            },
            None => {
                proof {
                    slot = before.len() as int;
                }
                entries.push((name, value));
            },
        }
        let ghost after = entries@;
        proof {
            assert forall|i: int, j: int| 0 <= i < j < after.len() implies after[i].0@
                != after[j].0@ by {
                if i < before.len() && j < before.len() {
                    assert(before[i].0@ != before[j].0@);
                } else {
                    assert(!holds_name(before, name_text, i));
                }
            }
        }
        std::mem::swap(&mut self.attributes, &mut entries);
        proof {
            assert(self.attributes@ == after);
            assert(holds_name(after, name_text, slot));
            assert forall|key: Seq<char>| #[trigger]
                final(self)@.contains_key(key) == old(self)@.insert(name_text, value_view).contains_key(
                    key,
                ) by {
                if final(self)@.contains_key(key) {
                    let k = choose|k: int| holds_name(after, key, k);
                    if key != name_text {
                        assert(holds_name(before, key, k));
                    }
                } else if key != name_text {
                    if old(self)@.contains_key(key) {
                        let k = choose|k: int| holds_name(before, key, k);
                        assert(holds_name(after, key, k));
                    }
                }
            }
            assert forall|key: Seq<char>| #[trigger]
                final(self)@.contains_key(key) implies final(self)@[key] == old(self)@.insert(
                name_text,
                value_view,
            )[key] by {
                let k = choose|k: int| holds_name(after, key, k);
                if key != name_text {
                    let b = choose|b: int| holds_name(before, key, b);
                    assert(holds_name(before, key, k));
                    assert(b == k);
                } else {
                    assert(k == slot);
                }
            }
            assert(final(self)@ =~= old(self)@.insert(name_text, value_view));
        }
    }

    /// The attributes one by one, each name once, for handing the record to
    /// a store.
    pub fn attributes(&self) -> (listed: &Vec<(String, Attribute)>)
        ensures
            forall|i: int|
                0 <= i < listed@.len() ==> self@.contains_key(#[trigger] listed@[i].0@)
                    && self@[listed@[i].0@] == listed@[i].1@,
            forall|name: Seq<char>| #[trigger]
                self@.contains_key(name) ==> exists|i: int| holds_name(listed@, name, i),
            forall|i: int, j: int| 0 <= i < j < listed@.len() ==> listed@[i].0@ != listed@[j].0@,
    {
        proof {
            use_type_invariant(self);
            assert forall|i: int| 0 <= i < self.attributes@.len() implies self@.contains_key(
                #[trigger] self.attributes@[i].0@,
            ) && self@[self.attributes@[i].0@] == self.attributes@[i].1@ by {
                let name = self.attributes@[i].0@;
                assert(holds_name(self.attributes@, name, i));
                let chosen = choose|k: int| holds_name(self.attributes@, name, k);
                assert(chosen == i);
            }
        }
        &self.attributes
    }
}

impl Clone for StoredRecord {
    /// A record with the same attributes.
    fn clone(&self) -> (copy: StoredRecord)
        ensures
            copy@ == self@,
    {
        proof {
            use_type_invariant(self);
        }
        let mut attributes: Vec<(String, Attribute)> = Vec::new();
        let mut i: usize = 0;
        while i < self.attributes.len()
            invariant
                i <= self.attributes.len(),
                attributes@.len() == i,
                forall|k: int|
                    0 <= k < i ==> attributes@[k].0@ == self.attributes@[k].0@ && attributes@[k].1@
                        == self.attributes@[k].1@,
            decreases self.attributes.len() - i,
        {
            let name = self.attributes[i].0.clone();
            let value = self.attributes[i].1.clone();
            attributes.push((name, value));
            i += 1;
        }
        let copy = StoredRecord { attributes };
        proof {
            assert forall|name: Seq<char>| #[trigger]
                copy@.contains_key(name) == self@.contains_key(name) by {
                if copy@.contains_key(name) {
                    let a = choose|at: int| holds_name(copy.attributes@, name, at);
                    assert(holds_name(self.attributes@, name, a));
                }
                if self@.contains_key(name) {
                    let b = choose|at: int| holds_name(self.attributes@, name, at);
                    assert(holds_name(copy.attributes@, name, b));
                }
            }
            assert forall|name: Seq<char>| #[trigger] copy@.contains_key(name) implies copy@[name]
                == self@[name] by {
                let a = choose|at: int| holds_name(copy.attributes@, name, at);
                let b = choose|at: int| holds_name(self.attributes@, name, at);
                assert(holds_name(self.attributes@, name, a));
                assert(a == b);
            }
            assert(copy@ =~= self@);
        }
        copy
    }
}

impl View for StoredRecord {
    type V = RecordView;

    closed spec fn view(&self) -> RecordView {
        Map::new(
            |name: Seq<char>| exists|at: int| holds_name(self.attributes@, name, at),
            |name: Seq<char>|
                self.attributes@[choose|at: int| holds_name(self.attributes@, name, at)].1@,
        )
    }
}

} // verus!
