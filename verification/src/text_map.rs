//! A small mapping from text to text that keeps its keys in the order in which
//! they first came.

use crate::text::text_eq;
use vstd::prelude::*;
use vstd::std_specs::cmp::PartialEqSpecImpl;
use vstd::std_specs::convert::FromSpecImpl;

verus! {

/// A key with its value.
pub type Entry = (Seq<char>, Seq<char>);

/// Whether no key occurs twice in `entries`.
pub open spec fn keys_distinct(entries: Seq<Entry>) -> bool {
    forall|i: int, j: int| 0 <= i < j < entries.len() ==> entries[i].0 != entries[j].0
}

/// Whether `key` is a key of `entries`.
pub open spec fn has_key(entries: Seq<Entry>, key: Seq<char>) -> bool {
    exists|i: int| 0 <= i < entries.len() && (#[trigger] entries[i]).0 == key
}

/// An index at which `key` stands in `entries`, where it is a key of it.
pub open spec fn index_of_key(entries: Seq<Entry>, key: Seq<char>) -> int {
    choose|i: int| 0 <= i < entries.len() && (#[trigger] entries[i]).0 == key
}

/// `entries` with `value` under `key`: in the place of the value that `key`
/// had, or at the end where it had none.
pub open spec fn put(entries: Seq<Entry>, key: Seq<char>, value: Seq<char>) -> Seq<Entry> {
    if has_key(entries, key) {
        entries.update(index_of_key(entries, key), (key, value))
    } else {
        entries.push((key, value))
    }
}

/// The mapping that `entries` stand for.
pub open spec fn to_map(entries: Seq<Entry>) -> Map<Seq<char>, Seq<char>> {
    Map::new(|key: Seq<char>| has_key(entries, key), |key: Seq<char>| entries[index_of_key(entries, key)].1)
}

/// Putting a value under a key keeps the keys distinct, and changes the
/// mapping at that key only.
pub proof fn lemma_put(entries: Seq<Entry>, key: Seq<char>, value: Seq<char>)
    requires
        keys_distinct(entries),
    ensures
        keys_distinct(put(entries, key, value)),
        to_map(put(entries, key, value)) == to_map(entries).insert(key, value),
        has_key(put(entries, key, value), key),
{
    let after = put(entries, key, value);
    let at = if has_key(entries, key) {
        index_of_key(entries, key)
    } else {
        entries.len() as int
    };
    assert(after[at] == (key, value));
    assert forall|k: Seq<char>| has_key(after, k) <==> (k == key || has_key(entries, k)) by {
        if has_key(after, k) {
            let i = index_of_key(after, k);
            if i != at {
                assert(entries[i].0 == k);
            }
        }
        if has_key(entries, k) && k != key {
            let i = index_of_key(entries, k);
            assert(after[i].0 == k);
        }
    }
    assert forall|k: Seq<char>| has_key(after, k) implies #[trigger] to_map(after)[k] == to_map(
        entries,
    ).insert(key, value)[k] by {
        let i = index_of_key(after, k);
        if k != key {
            let j = index_of_key(entries, k);
            assert(after[j].0 == k);
            assert(i == j);
        } else {
            assert(i == at);
        }
    }
    assert(to_map(after) =~= to_map(entries).insert(key, value));
}

/// The entries that come of putting each of `pairs` in turn, starting from none.
pub open spec fn collected(pairs: Seq<Entry>) -> Seq<Entry>
    decreases pairs.len(),
{
    if pairs.len() == 0 {
        Seq::empty()
    } else {
        put(collected(pairs.drop_last()), pairs.last().0, pairs.last().1)
    }
}

/// The text of each key and value in `pairs`.
pub open spec fn pair_texts(pairs: Seq<(String, String)>) -> Seq<Entry> {
    Seq::new(pairs.len(), |i: int| (pairs[i].0@, pairs[i].1@))
}

/// A mapping from text to text. Each key occurs once; the keys stay in the
/// order in which they were first inserted.
#[derive(Debug)]
pub struct TextMap {
    entries: Vec<(String, String)>,
}

impl View for TextMap {
    type V = Seq<Entry>;

    /// The entries, in the order in which their keys came.
    closed spec fn view(&self) -> Seq<Entry> {
        Seq::new(self.entries@.len(), |i: int| (self.entries@[i].0@, self.entries@[i].1@))
    }
}

impl TextMap {
    #[verifier::type_invariant]
    spec fn well_formed(&self) -> bool {
        keys_distinct(self@)
    }

    /// The mapping from each key to its value.
    pub open spec fn as_map(&self) -> Map<Seq<char>, Seq<char>> {
        to_map(self@)
    }

    /// The empty mapping.
    pub fn new() -> (map: TextMap)
        ensures
            map@ == Seq::<Entry>::empty(),
    {
        let map = TextMap { entries: Vec::new() };
        assert(map@ =~= Seq::<Entry>::empty());
        map
    }

    /// The number of keys.
    pub fn len(&self) -> (n: usize)
        ensures
            n == self@.len(),
            keys_distinct(self@),
    {
        proof {
            use_type_invariant(self);
        }
        self.entries.len()
    }

    /// Whether there is no key.
    pub fn is_empty(&self) -> (empty: bool)
        ensures
            empty == (self@.len() == 0),
    {
        self.entries.len() == 0
    }

    /// The key of the entry at `index`.
    pub fn key_at(&self, index: usize) -> (key: &str)
        requires
            index < self@.len(),
        ensures
            key@ == self@[index as int].0,
    {
        self.entries[index].0.as_str()
    }

    /// The value of the entry at `index`.
    pub fn value_at(&self, index: usize) -> (value: &str)
        requires
            index < self@.len(),
        ensures
            value@ == self@[index as int].1,
    {
        self.entries[index].1.as_str()
    }

    /// The index of the entry of `key`, if it has one.
    fn find(&self, key: &str) -> (found: Option<usize>)
        ensures
            match found {
                Some(i) => i < self@.len() && self@[i as int].0 == key@ && has_key(self@, key@)
                    && index_of_key(self@, key@) == i,
                None => !has_key(self@, key@),
            },
    {
        proof {
            use_type_invariant(self);
        }
        let mut i: usize = 0;
        while i < self.entries.len()
            invariant
                i <= self@.len(),
                self@.len() == self.entries@.len(),
                keys_distinct(self@),
                forall|j: int| 0 <= j < i ==> (#[trigger] self@[j]).0 != key@,
            decreases self@.len() - i,
        {
            if text_eq(self.entries[i].0.as_str(), key) {
                assert(self@[i as int].0 == key@);
                return Some(i);
            }
            i = i + 1;
        }
        None
    }

    /// Whether `key` has a value.
    pub fn contains_key(&self, key: &str) -> (found: bool)
        ensures
            found == has_key(self@, key@),
            found == self.as_map().dom().contains(key@),
    {
        self.find(key).is_some()
    }

    /// The value of `key`, if it has one.
    pub fn get(&self, key: &str) -> (value: Option<&str>)
        ensures
            match value {
                Some(v) => self.as_map().dom().contains(key@) && v@ == self.as_map()[key@],
                None => !self.as_map().dom().contains(key@),
            },
    {
        match self.find(key) {
            Some(i) => Some(self.entries[i].1.as_str()),
            None => None,
        }
    }

    /// Puts `value` under `key`. A key that is new comes last; one that is
    /// there keeps its place and gets the new value.
    pub fn insert(&mut self, key: String, value: String)
        ensures
            final(self)@ == put(old(self)@, key@, value@),
            final(self).as_map() == old(self).as_map().insert(key@, value@),
    {
        proof {
            use_type_invariant(&*self);
            lemma_put(self@, key@, value@);
        }
        let ghost before = self@;
        let found = self.find(key.as_str());
        let mut entries: Vec<(String, String)> = Vec::new();
        core::mem::swap(&mut self.entries, &mut entries);
        match found {
            Some(i) => {
                entries[i] = (key, value);
            },
            None => {
                entries.push((key, value));
            },
        }
        proof {
            let ghost after = Seq::new(entries@.len(), |i: int| (entries@[i].0@, entries@[i].1@));
            assert(after =~= put(before, key@, value@));
        }
        core::mem::swap(&mut self.entries, &mut entries);
    }

    /// Whether each key of `self` has the same value in `other`.
    fn within(&self, other: &TextMap) -> (within: bool)
        ensures
            within == self.as_map().submap_of(other.as_map()),
    {
        proof {
            use_type_invariant(self);
            use_type_invariant(other);
        }
        let mut i: usize = 0;
        while i < self.entries.len()
            invariant
                i <= self@.len(),
                self@.len() == self.entries@.len(),
                keys_distinct(self@),
                keys_distinct(other@),
                forall|j: int|
                    0 <= j < i ==> other.as_map().dom().contains((#[trigger] self@[j]).0)
                        && other.as_map()[self@[j].0] == self@[j].1,
            decreases self@.len() - i,
        {
            let ghost key = self@[i as int].0;
            assert(has_key(self@, key) && index_of_key(self@, key) == i);
            match other.get(self.entries[i].0.as_str()) {
                Some(value) => {
                    if !text_eq(value, self.entries[i].1.as_str()) {
                        assert(self.as_map().dom().contains(key));
                        assert(self.as_map()[key] == self@[i as int].1);
                        assert(self.as_map()[key] != other.as_map()[key]);
                        return false;
                    }
                },
                None => {
                    assert(self.as_map().dom().contains(key));
                    return false;
                },
            }
            i = i + 1;
        }
        assert forall|key: Seq<char>| #[trigger]
            self.as_map().dom().contains(key) implies other.as_map().dom().contains(key)
            && self.as_map()[key] == other.as_map()[key] by {
            let j = index_of_key(self@, key);
            assert(self@[j].0 == key);
        }
        true
    }
}

impl From<Vec<(String, String)>> for TextMap {
    /// The mapping that holds each of `pairs`; of two with the same key the
    /// later one stays.
    fn from(pairs: Vec<(String, String)>) -> (map: TextMap)
        ensures
            map@ == collected(pair_texts(pairs@)),
    {
        let ghost wanted = pair_texts(pairs@);
        let mut map = TextMap::new();
        assert(wanted.take(0) =~= Seq::empty());
        for pair in it: pairs
            invariant
                wanted == pair_texts(pairs@),
                it.seq() == pairs@,
                map@ == collected(wanted.take(it.index())),
        {
            assert(wanted.take(it.index() + 1).drop_last() =~= wanted.take(it.index()));
            let (key, value) = pair;
            map.insert(key, value);
        }
        assert(wanted.take(wanted.len() as int) =~= wanted);
        map
    }
}

impl FromSpecImpl<Vec<(String, String)>> for TextMap {
    open spec fn obeys_from_spec() -> bool {
        false
    }

    open spec fn from_spec(pairs: Vec<(String, String)>) -> TextMap {
        arbitrary()
    }
}

impl Default for TextMap {
    fn default() -> (map: TextMap)
        ensures
            map@ == Seq::<Entry>::empty(),
    {
        TextMap::new()
    }
}

impl Clone for TextMap {
    fn clone(&self) -> (copy: TextMap)
        ensures
            copy@ == self@,
    {
        proof {
            use_type_invariant(self);
        }
        let mut entries: Vec<(String, String)> = Vec::new();
        let mut i: usize = 0;
        while i < self.entries.len()
            invariant
                i <= self.entries@.len(),
                entries@.len() == i,
                forall|j: int|
                    0 <= j < i ==> (#[trigger] entries@[j]).0@ == self.entries@[j].0@ && entries@[j].1@
                        == self.entries@[j].1@,
            decreases self.entries@.len() - i,
        {
            entries.push((self.entries[i].0.clone(), self.entries[i].1.clone()));
            i = i + 1;
        }
        proof {
            let ghost copied = Seq::new(entries@.len(), |i: int| (entries@[i].0@, entries@[i].1@));
            assert(copied =~= self@);
        }
        TextMap { entries }
    }
}

impl PartialEq for TextMap {
    /// Two mappings are equal when they map the same keys to the same values,
    /// in whatever order the keys came.
    fn eq(&self, other: &TextMap) -> (equal: bool) {
        let equal = self.within(other) && other.within(self);
        assert(equal == (self.as_map() =~= other.as_map()));
        equal
    }
}

impl PartialEqSpecImpl for TextMap {
    open spec fn obeys_eq_spec() -> bool {
        true
    }

    open spec fn eq_spec(&self, other: &TextMap) -> bool {
        self.as_map() == other.as_map()
    }
}

} // verus!
