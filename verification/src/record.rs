//! A map from text to text that holds each key once.

use vstd::prelude::*;

verus! {

/// The keys of `entries`, each by its view, in their order.
pub open spec fn keys_of(entries: Seq<(String, String)>) -> Seq<Seq<char>> {
    entries.map_values(|e: (String, String)| e.0@)
}

/// Whether `entries` lists `m`: every entry is a pair of `m`, every key of `m`
/// has an entry, and no key has two.
pub open spec fn lists(entries: Seq<(String, String)>, m: Map<Seq<char>, Seq<char>>) -> bool {
    &&& keys_of(entries).no_duplicates()
    &&& forall|i: int|
        0 <= i < entries.len() ==> m.contains_key(#[trigger] entries[i].0@) && m[entries[i].0@]
            == entries[i].1@
    &&& forall|k: Seq<char>| #[trigger]
        m.contains_key(k) ==> exists|i: int| 0 <= i < entries.len() && entries[i].0@ == k
}

/// An entry of `entries` whose key is `k`.
spec fn slot(entries: Seq<(String, String)>, k: Seq<char>) -> int {
    choose|i: int| 0 <= i < entries.len() && entries[i].0@ == k
}

/// The map that takes the key of each entry to its value.
spec fn map_of(entries: Seq<(String, String)>) -> Map<Seq<char>, Seq<char>> {
    Map::new(
        |k: Seq<char>| exists|i: int| 0 <= i < entries.len() && entries[i].0@ == k,
        |k: Seq<char>| entries[slot(entries, k)].1@,
    )
}

/// Entries with distinct keys list the map made of them.
proof fn lemma_map_of(entries: Seq<(String, String)>)
    requires
        keys_of(entries).no_duplicates(),
    ensures
        lists(entries, map_of(entries)),
{
    let m = map_of(entries);
    assert forall|i: int| 0 <= i < entries.len() implies m.contains_key(#[trigger] entries[i].0@)
        && m[entries[i].0@] == entries[i].1@ by {
        let j = slot(entries, entries[i].0@);
        assert(keys_of(entries)[i] == keys_of(entries)[j]);
    }
}

/// A map with a listing is finite and has as many keys as the listing has
/// entries.
proof fn lemma_listed_len(entries: Seq<(String, String)>, m: Map<Seq<char>, Seq<char>>)
    requires
        lists(entries, m),
    ensures
        m.dom().finite(),
        m.len() == entries.len(),
{
    let keys = keys_of(entries);
    assert(m.dom() =~= keys.to_set()) by {
        assert forall|k: Seq<char>| m.dom().contains(k) implies keys.to_set().contains(k) by {
            let i = choose|i: int| 0 <= i < entries.len() && entries[i].0@ == k;
            assert(keys[i] == k);
        }
        assert forall|k: Seq<char>| keys.to_set().contains(k) implies m.dom().contains(k) by {
            let i = choose|i: int| 0 <= i < keys.len() && keys[i] == k;
            assert(m.contains_key(entries[i].0@));
        }
    }
    vstd::seq_lib::seq_to_set_is_finite(keys);
    keys.unique_seq_to_set();
}

/// A map from text to text. Each key has one value; a later value for a key
/// takes the place of the earlier one.
#[derive(Debug)]
pub struct StringMap {
    entries: Vec<(String, String)>,
}

impl View for StringMap {
    type V = Map<Seq<char>, Seq<char>>;

    closed spec fn view(&self) -> Map<Seq<char>, Seq<char>> {
        map_of(self.entries@)
    }
}

impl StringMap {
    #[verifier::type_invariant]
    spec fn distinct_keys(self) -> bool {
        keys_of(self.entries@).no_duplicates()
    }

    /// The map without any key.
    pub fn new() -> (m: StringMap)
        ensures
            m@ == Map::<Seq<char>, Seq<char>>::empty(),
    {
        let m = StringMap { entries: Vec::new() };
        assert(m@ =~= Map::<Seq<char>, Seq<char>>::empty());
        m
    }

    /// The position of the entry with the key `key`, if there is one.
    fn position(&self, key: &String) -> (r: Option<usize>)
        ensures
            match r {
                Some(i) => i < self.entries@.len() && self.entries@[i as int].0@ == key@,
                None => forall|j: int| 0 <= j < self.entries@.len() ==> self.entries@[j].0@ != key@,
            },
    {
        let mut i: usize = 0;
        while i < self.entries.len()
            invariant
                i <= self.entries@.len(),
                forall|j: int| 0 <= j < i ==> self.entries@[j].0@ != key@,
            decreases self.entries@.len() - i,
        {
            if self.entries[i].0 == *key {
                return Some(i);
            }
            i += 1;
        }
        None
    }

    /// Gives `key` the value `value`, in place of the one that it had, if any.
    pub fn insert(&mut self, key: String, value: String)
        ensures
            final(self)@ == old(self)@.insert(key@, value@),
    {
        proof {
            use_type_invariant(&*self);
            lemma_map_of(self.entries@);
        }
        let ghost before = self.entries@;
        let found = self.position(&key);
        let mut taken = StringMap::new();
        core::mem::swap(self, &mut taken);
        let mut entries = taken.entries;
        match found {
            Some(i) => {
                entries[i] = (key, value);
                proof {
                    let after = entries@;
                    assert(keys_of(after) =~= keys_of(before));
                    lemma_map_of(after);
                    assert forall|k: Seq<char>| map_of(before).insert(key@, value@).contains_key(k)
                        implies map_of(after).contains_key(k) by {
                        if k != key@ {
                            let j = slot(before, k);
                            assert(after[j].0@ == k);
                        } else {
                            assert(after[i as int].0@ == k);
                        }
                    }
                    assert forall|k: Seq<char>| map_of(after).contains_key(k) implies map_of(
                        before,
                    ).insert(key@, value@).contains_key(k) && map_of(after)[k] == map_of(
                        before,
                    ).insert(key@, value@)[k] by {
                        let j = slot(after, k);
                        if j != i {
                            assert(before[j].0@ == k);
                            assert(keys_of(before)[j] != keys_of(before)[i as int]);
                        }
                    }
                    assert(map_of(after) =~= map_of(before).insert(key@, value@));
                }
            },
            None => {
                entries.push((key, value));
                proof {
                    let after = entries@;
                    let n = before.len() as int;
                    assert forall|i: int, j: int|
                        0 <= i < after.len() && 0 <= j < after.len() && i != j implies keys_of(
                        after,
                    )[i] != keys_of(after)[j] by {
                        if i < n && j < n {
                            assert(keys_of(before)[i] != keys_of(before)[j]);
                        }
                    }
                    lemma_map_of(after);
                    assert forall|k: Seq<char>| map_of(before).insert(key@, value@).contains_key(k)
                        implies map_of(after).contains_key(k) by {
                        if k != key@ {
                            let j = slot(before, k);
                            assert(after[j].0@ == k);
                        } else {
                            assert(after[n].0@ == k);
                        }
                    }
                    assert forall|k: Seq<char>| map_of(after).contains_key(k) implies map_of(
                        before,
                    ).insert(key@, value@).contains_key(k) && map_of(after)[k] == map_of(
                        before,
                    ).insert(key@, value@)[k] by {
                        let j = slot(after, k);
                        if j < n {
                            assert(before[j].0@ == k);
                        }
                    }
                    assert(map_of(after) =~= map_of(before).insert(key@, value@));
                }
            },
        }
        *self = StringMap { entries };
    }

    /// The value of `key`, if it has one.
    pub fn get(&self, key: &str) -> (r: Option<&String>)
        ensures
            match r {
                Some(v) => self@.contains_key(key@) && v@ == self@[key@],
                None => !self@.contains_key(key@),
            },
    {
        proof {
            use_type_invariant(self);
            lemma_map_of(self.entries@);
        }
        let owned = key.to_owned();
        match self.position(&owned) {
            Some(i) => Some(&self.entries[i].1),
            None => None,
        }
    }

    /// The number of keys.
    pub fn len(&self) -> (n: usize)
        ensures
            self@.dom().finite(),
            n == self@.len(),
    {
        proof {
            use_type_invariant(self);
            lemma_map_of(self.entries@);
            lemma_listed_len(self.entries@, self@);
        }
        self.entries.len()
    }

    /// The keys with their values, each key once. The order means nothing.
    pub fn entries(&self) -> (r: &Vec<(String, String)>)
        ensures
            lists(r@, self@),
    {
        proof {
            use_type_invariant(self);
            lemma_map_of(self.entries@);
        }
        &self.entries
    }
}

} // verus!
