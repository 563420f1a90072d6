//! A small dictionary from text to text, kept as a list of entries in which
//! no key occurs twice.

use vstd::prelude::*;

verus! {

/// No two entries have the same key.
pub open spec fn keys_distinct(entries: Seq<(String, String)>) -> bool {
    forall|i: int, j: int|
        0 <= i < j < entries.len() ==> (#[trigger] entries[i]).0@ != (#[trigger] entries[j]).0@
}

/// Whether some entry has the key `key`.
pub open spec fn has_key(entries: Seq<(String, String)>, key: Seq<char>) -> bool {
    exists|i: int| 0 <= i < entries.len() && (#[trigger] entries[i]).0@ == key
}

/// The position of an entry with the key `key`.
pub open spec fn position_of(entries: Seq<(String, String)>, key: Seq<char>) -> int {
    choose|i: int| 0 <= i < entries.len() && (#[trigger] entries[i]).0@ == key
}

/// The mapping that a list of entries stands for.
pub open spec fn entries_map(entries: Seq<(String, String)>) -> Map<Seq<char>, Seq<char>> {
    Map::new(
        |key: Seq<char>| has_key(entries, key),
        |key: Seq<char>| entries[position_of(entries, key)].1@,
    )
}

/// The entry at position `i` is what the mapping holds under its key.
pub proof fn lemma_entry_at(entries: Seq<(String, String)>, i: int)
    requires
        keys_distinct(entries),
        0 <= i < entries.len(),
    ensures
        entries_map(entries).contains_key(entries[i].0@),
        entries_map(entries)[entries[i].0@] == entries[i].1@,
{
    let key = entries[i].0@;
    assert(has_key(entries, key));
    let j = position_of(entries, key);
    assert(0 <= j < entries.len() && entries[j].0@ == key);
    if j < i {
        assert(entries[j].0@ != entries[i].0@);
    }
    if i < j {
        assert(entries[i].0@ != entries[j].0@);
    }
}

/// A dictionary from text to text.
pub struct Dict {
    entries: Vec<(String, String)>,
}

impl View for Dict {
    type V = Map<Seq<char>, Seq<char>>;

    closed spec fn view(&self) -> Map<Seq<char>, Seq<char>> {
        entries_map(self.entries@)
    }
}

impl Dict {
    #[verifier::type_invariant]
    spec fn well_formed(self) -> bool {
        keys_distinct(self.entries@)
    }

    /// The entries, in the order in which their keys were first set.
    pub closed spec fn entries(self) -> Seq<(String, String)> {
        self.entries@
    }

    /// An empty dictionary.
    pub fn new() -> (r: Dict)
        ensures
            r@ == Map::<Seq<char>, Seq<char>>::empty(),
            r.entries().len() == 0,
    {
        let r = Dict { entries: Vec::new() };
        assert(r@ =~= Map::<Seq<char>, Seq<char>>::empty());
        r
    }

    /// A dictionary with the given entries.
    pub(crate) fn from_entries(entries: Vec<(String, String)>) -> (r: Dict)
        requires
            keys_distinct(entries@),
        ensures
            r@ == entries_map(entries@),
            r.entries() == entries@,
    {
        Dict { entries }
    }

    /// The entries as a list with distinct keys.
    pub fn as_entries(&self) -> (r: &Vec<(String, String)>)
        ensures
            r@ == self.entries(),
            keys_distinct(r@),
            entries_map(r@) == self@,
    {
        proof {
            use_type_invariant(self);
        }
        &self.entries
    }

    /// The position of `key` among the entries, if it is there.
    fn find(&self, key: &String) -> (r: Option<usize>)
        ensures
            r is Some <==> self@.contains_key(key@),
            r matches Some(i) ==> i < self.entries@.len() && self.entries@[i as int].0@ == key@
                && self@[key@] == self.entries@[i as int].1@,
    {
        proof {
            use_type_invariant(self);
        }
        let mut i: usize = 0;
        while i < self.entries.len()
            invariant
                i <= self.entries@.len(),
                keys_distinct(self.entries@),
                forall|j: int| 0 <= j < i ==> (#[trigger] self.entries@[j]).0@ != key@,
            decreases self.entries@.len() - i,
        {
            if self.entries[i].0 == *key {
                proof {
                    lemma_entry_at(self.entries@, i as int);
                }
                return Some(i);
            }
            i = i + 1;
        }
        assert(!has_key(self.entries@, key@));
        None
    }

    /// The value stored under `key`.
    pub fn get(&self, key: &str) -> (r: Option<&String>)
        ensures
            r is Some <==> self@.contains_key(key@),
            r matches Some(value) ==> value@ == self@[key@],
    {
        let owned = key.to_owned();
        match self.find(&owned) {
            Some(i) => Some(&self.entries[i].1),
            None => None,
        }
    }

    /// Stores `value` under `key`, in place of what was there.
    pub fn insert(&mut self, key: &str, value: String)
        ensures
            final(self)@ == old(self)@.insert(key@, value@),
    {
        proof {
            use_type_invariant(&*self);
        }
        let owned = key.to_owned();
        let ghost before = self.entries@;
        match self.find(&owned) {
            Some(i) => {
                let mut entries: Vec<(String, String)> = Vec::new();
                std::mem::swap(&mut entries, &mut self.entries);
                entries.set(i, (owned, value));
                self.entries = entries;
                proof {
                    let after = self.entries@;
                    assert(keys_distinct(after)) by {
                        assert forall|a: int, b: int| 0 <= a < b < after.len() implies (
                        #[trigger] after[a]).0@ != (#[trigger] after[b]).0@ by {
                            assert(before[a].0@ != before[b].0@);
                        }
                    }
                    assert(entries_map(after) =~= entries_map(before).insert(key@, value@)) by {
                        assert forall|k: Seq<char>| has_key(after, k) <==> has_key(before, k) by {
                            if has_key(after, k) {
                                let a = position_of(after, k);
                                assert(before[a].0@ == k);
                            }
                            if has_key(before, k) {
                                let a = position_of(before, k);
                                assert(after[a].0@ == k);
                            }
                        }
                        assert forall|k: Seq<char>| has_key(after, k) implies #[trigger] entries_map(
                            after,
                        )[k] == entries_map(before).insert(key@, value@)[k] by {
                            let a = position_of(after, k);
                            lemma_entry_at(after, a);
                            lemma_entry_at(before, a);
                        }
                    }
                }
            },
            None => {
                let mut entries: Vec<(String, String)> = Vec::new();
                std::mem::swap(&mut entries, &mut self.entries);
                entries.push((owned, value));
                self.entries = entries;
                proof {
                    let after = self.entries@;
                    let last = before.len() as int;
                    assert(keys_distinct(after)) by {
                        assert forall|a: int, b: int| 0 <= a < b < after.len() implies (
                        #[trigger] after[a]).0@ != (#[trigger] after[b]).0@ by {
                            if b < last {
                                assert(before[a].0@ != before[b].0@);
                            } else {
                                assert(before[a].0@ == after[a].0@);
                                if before[a].0@ == key@ {
                                    assert(has_key(before, key@));
                                }
                            }
                        }
                    }
                    assert(entries_map(after) =~= entries_map(before).insert(key@, value@)) by {
                        assert forall|k: Seq<char>| has_key(after, k) <==> (has_key(before, k) || k
                            == key@) by {
                            if has_key(after, k) {
                                let a = position_of(after, k);
                                if a < last {
                                    assert(before[a].0@ == k);
                                }
                            }
                            if has_key(before, k) {
                                let a = position_of(before, k);
                                assert(after[a].0@ == k);
                            }
                            if k == key@ {
                                assert(after[last].0@ == k);
                            }
                        }
                        assert forall|k: Seq<char>| has_key(after, k) implies #[trigger] entries_map(
                            after,
                        )[k] == entries_map(before).insert(key@, value@)[k] by {
                            let a = position_of(after, k);
                            lemma_entry_at(after, a);
                            if a < last {
                                lemma_entry_at(before, a);
                            }
                        }
                    }
                }
            },
        }
    }

    /// Removes what is stored under `key`, if anything.
    pub fn remove(&mut self, key: &str)
        ensures
            final(self)@ == old(self)@.remove(key@),
    {
        proof {
            use_type_invariant(&*self);
        }
        let owned = key.to_owned();
        let ghost before = self.entries@;
        match self.find(&owned) {
            Some(i) => {
                let mut entries: Vec<(String, String)> = Vec::new();
                std::mem::swap(&mut entries, &mut self.entries);
                let _ = entries.remove(i);
                self.entries = entries;
                proof {
                    let after = self.entries@;
                    let at = i as int;
                    assert(forall|a: int| 0 <= a < at ==> after[a] == before[a]);
                    assert(forall|a: int| at <= a < after.len() ==> after[a] == before[a + 1]);
                    assert(keys_distinct(after)) by {
                        assert forall|a: int, b: int| 0 <= a < b < after.len() implies (
                        #[trigger] after[a]).0@ != (#[trigger] after[b]).0@ by {
                            let a0 = if a < at { a } else { a + 1 };
                            let b0 = if b < at { b } else { b + 1 };
                            assert(before[a0].0@ != before[b0].0@);
                        }
                    }
                    assert(entries_map(after) =~= entries_map(before).remove(key@)) by {
                        assert forall|k: Seq<char>| has_key(after, k) <==> (has_key(before, k) && k
                            != key@) by {
                            if has_key(after, k) {
                                let a = position_of(after, k);
                                let a0 = if a < at { a } else { a + 1 };
                                assert(before[a0].0@ == k);
                                if k == key@ {
                                    if a0 < at {
                                        assert(before[a0].0@ != before[at].0@);
                                    } else {
                                        assert(before[at].0@ != before[a0].0@);
                                    }
                                }
                            }
                            if has_key(before, k) && k != key@ {
                                let a0 = position_of(before, k);
                                let a = if a0 < at { a0 } else { a0 - 1 };
                                assert(after[a].0@ == k);
                            }
                        }
                        assert forall|k: Seq<char>| has_key(after, k) implies #[trigger] entries_map(
                            after,
                        )[k] == entries_map(before).remove(key@)[k] by {
                            let a = position_of(after, k);
                            let a0 = if a < at { a } else { a + 1 };
                            lemma_entry_at(after, a);
                            lemma_entry_at(before, a0);
                        }
                    }
                }
            },
            None => {
                assert(self@ =~= self@.remove(key@));
            },
        }
    }
}

} // verus!
