//! A map from text to text that remembers the order in which its keys first
//! arrived. It stands where a hash map keyed by strings would: no key occurs
//! twice, and writing an existing key replaces its value in place.

use crate::text::same_text;
use vstd::prelude::*;

verus! {

/// No key occurs at two positions.
pub open spec fn distinct_keys(entries: Seq<(Seq<char>, Seq<char>)>) -> bool {
    forall|i: int, j: int|
        0 <= i < j < entries.len() ==> (#[trigger] entries[i]).0 != (#[trigger] entries[j]).0
}

/// Whether some entry has the key.
pub open spec fn has_key(entries: Seq<(Seq<char>, Seq<char>)>, key: Seq<char>) -> bool {
    exists|i: int| 0 <= i < entries.len() && (#[trigger] entries[i]).0 == key
}

/// The position of the first entry with the key, or the length if none has it.
pub open spec fn position(entries: Seq<(Seq<char>, Seq<char>)>, key: Seq<char>) -> int
    decreases entries.len(),
{
    if entries.len() == 0 {
        0
    } else if entries[0].0 == key {
        0
    } else {
        1 + position(entries.drop_first(), key)
    }
}

/// The entries after `key` is written: replaced where it stands, or added at
/// the end.
pub open spec fn put(entries: Seq<(Seq<char>, Seq<char>)>, key: Seq<char>, value: Seq<char>) -> Seq<
    (Seq<char>, Seq<char>),
> {
    let at = position(entries, key);
    if at < entries.len() {
        entries.update(at, (key, value))
    } else {
        entries.push((key, value))
    }
}

/// The value under `key`, if any.
pub open spec fn find(entries: Seq<(Seq<char>, Seq<char>)>, key: Seq<char>) -> Option<Seq<char>> {
    let at = position(entries, key);
    if at < entries.len() {
        Some(entries[at].1)
    } else {
        None
    }
}

/// The entries as a mathematical map; a later entry wins over an earlier one
/// with the same key.
pub open spec fn as_map(entries: Seq<(Seq<char>, Seq<char>)>) -> Map<Seq<char>, Seq<char>>
    decreases entries.len(),
{
    if entries.len() == 0 {
        Map::empty()
    } else {
        as_map(entries.drop_last()).insert(entries.last().0, entries.last().1)
    }
}

/// `position` is the least index that holds the key.
pub proof fn lemma_position(entries: Seq<(Seq<char>, Seq<char>)>, key: Seq<char>)
    ensures
        0 <= position(entries, key) <= entries.len(),
        position(entries, key) < entries.len() ==> entries[position(entries, key)].0 == key,
        forall|i: int| 0 <= i < position(entries, key) ==> (#[trigger] entries[i]).0 != key,
        has_key(entries, key) <==> position(entries, key) < entries.len(),
    decreases entries.len(),
{
    if entries.len() == 0 {
    } else if entries[0].0 == key {
    } else {
        let rest = entries.drop_first();
        lemma_position(rest, key);
        assert forall|i: int| 0 <= i < position(entries, key) implies (#[trigger] entries[i]).0
            != key by {
            if i > 0 {
                assert(rest[i - 1] == entries[i]);
            }
        }
        if position(entries, key) < entries.len() {
            assert(rest[position(rest, key)] == entries[position(entries, key)]);
        }
        if has_key(entries, key) {
            let i = choose|i: int| 0 <= i < entries.len() && (#[trigger] entries[i]).0 == key;
            assert(rest[i - 1] == entries[i]);
        }
    }
}

/// The map holds exactly the keys of the entries, and with distinct keys
/// each entry's value.
pub proof fn lemma_as_map(entries: Seq<(Seq<char>, Seq<char>)>)
    requires
        distinct_keys(entries),
    ensures
        forall|key: Seq<char>| #[trigger] as_map(entries).contains_key(key) <==> has_key(entries, key),
        forall|i: int|
            0 <= i < entries.len() ==> as_map(entries)[(#[trigger] entries[i]).0] == entries[i].1,
    decreases entries.len(),
{
    if entries.len() > 0 {
        let front = entries.drop_last();
        let last = entries.last();
        assert forall|i: int, j: int| 0 <= i < j < front.len() implies (#[trigger] front[i]).0 != (
        #[trigger] front[j]).0 by {
            assert(front[i] == entries[i] && front[j] == entries[j]);
        }
        lemma_as_map(front);
        assert forall|key: Seq<char>| #[trigger]
            as_map(entries).contains_key(key) <==> has_key(entries, key) by {
            if has_key(entries, key) {
                let i = choose|i: int| 0 <= i < entries.len() && (#[trigger] entries[i]).0 == key;
                if i < front.len() {
                    assert(front[i] == entries[i]);
                    assert(has_key(front, key));
                }
            }
            if as_map(entries).contains_key(key) {
                if key == last.0 {
                    assert(entries[entries.len() - 1].0 == key);
                } else {
                    assert(as_map(front).contains_key(key));
                    assert(has_key(front, key));
                    let i = choose|i: int| 0 <= i < front.len() && (#[trigger] front[i]).0 == key;
                    assert(entries[i] == front[i]);
                }
            }
        }
        assert forall|i: int| 0 <= i < entries.len() implies as_map(entries)[(
        #[trigger] entries[i]).0] == entries[i].1 by {
            if i < front.len() {
                assert(front[i] == entries[i]);
                assert(entries[i].0 != entries[entries.len() - 1].0);
            }
        }
    }
}

/// Writing a key keeps the keys distinct and writes the same key of the map.
pub proof fn lemma_put(entries: Seq<(Seq<char>, Seq<char>)>, key: Seq<char>, value: Seq<char>)
    requires
        distinct_keys(entries),
    ensures
        distinct_keys(put(entries, key, value)),
        as_map(put(entries, key, value)) == as_map(entries).insert(key, value),
        find(put(entries, key, value), key) == Some(value),
{
    lemma_position(entries, key);
    let after = put(entries, key, value);
    let at = position(entries, key);
    assert(distinct_keys(after)) by {
        assert forall|i: int, j: int| 0 <= i < j < after.len() implies (#[trigger] after[i]).0 != (
        #[trigger] after[j]).0 by {
            if at < entries.len() {
                assert(after[i].0 == entries[i].0 && after[j].0 == entries[j].0);
            } else if j == entries.len() {
                assert(after[i] == entries[i]);
            } else {
                assert(after[i] == entries[i] && after[j] == entries[j]);
            }
        }
    }
    lemma_as_map(entries);
    lemma_as_map(after);
    assert(as_map(after) =~= as_map(entries).insert(key, value)) by {
        assert forall|k: Seq<char>| #[trigger]
            as_map(after).contains_key(k) <==> as_map(entries).insert(key, value).contains_key(
                k,
            ) by {
            if has_key(after, k) {
                let i = choose|i: int| 0 <= i < after.len() && (#[trigger] after[i]).0 == k;
                if k != key {
                    assert(after[i] == entries[i]);
                }
            }
            if has_key(entries, k) {
                let i = choose|i: int| 0 <= i < entries.len() && (#[trigger] entries[i]).0 == k;
                assert(after[i].0 == k);
            }
            if k == key {
                if at < entries.len() {
                    assert(after[at].0 == key);
                } else {
                    assert(after[entries.len() as int].0 == key);
                }
            }
        }
        assert forall|k: Seq<char>| #[trigger] as_map(after).contains_key(k) implies as_map(
            after,
        )[k] == as_map(entries).insert(key, value)[k] by {
            let i = choose|i: int| 0 <= i < after.len() && (#[trigger] after[i]).0 == k;
            if k != key {
                assert(after[i] == entries[i]);
            } else if at < entries.len() {
                assert(after[at].0 == key);
            } else {
                assert(after[entries.len() as int].0 == key);
            }
        }
    }
    lemma_position(after, key);
    if at < entries.len() {
        assert(after[at].0 == key);
    } else {
        assert(after[entries.len() as int].0 == key);
    }
    let found = position(after, key);
    assert(after[found].0 == key);
    if at < entries.len() {
        assert(found == at) by {
            if found != at {
                assert(after[found].0 != after[at].0);
            }
        }
    } else {
        assert(found == entries.len()) by {
            if found != entries.len() {
                assert(after[found].0 != after[entries.len() as int].0);
            }
        }
    }
}

/// What is found under a key is what the map holds there.
pub proof fn lemma_find(entries: Seq<(Seq<char>, Seq<char>)>, key: Seq<char>)
    requires
        distinct_keys(entries),
    ensures
        find(entries, key) == (if as_map(entries).contains_key(key) {
            Some(as_map(entries)[key])
        } else {
            None
        }),
{
    lemma_position(entries, key);
    lemma_as_map(entries);
    if position(entries, key) < entries.len() {
        assert(entries[position(entries, key)].0 == key);
    }
}

/// A map from text to text in which no key occurs twice.
#[derive(Debug, PartialEq, Eq)]
pub struct TextMap {
    entries: Vec<(String, String)>,
}

impl View for TextMap {
    type V = Map<Seq<char>, Seq<char>>;

    open spec fn view(&self) -> Map<Seq<char>, Seq<char>> {
        as_map(self.entries())
    }
}

impl TextMap {
    /// The entries in the order in which their keys first arrived.
    pub closed spec fn entries(&self) -> Seq<(Seq<char>, Seq<char>)> {
        self.entries@.map_values(|e: (String, String)| (e.0@, e.1@))
    }

    #[verifier::type_invariant]
    spec fn keys_distinct(&self) -> bool {
        distinct_keys(self.entries())
    }

    /// An empty map.
    pub fn new() -> (map: TextMap)
        ensures
            map.entries() == Seq::<(Seq<char>, Seq<char>)>::empty(),
            map@ == Map::<Seq<char>, Seq<char>>::empty(),
    {
        let map = TextMap { entries: Vec::new() };
        assert(map.entries() =~= Seq::<(Seq<char>, Seq<char>)>::empty());
        map
    }

    /// The number of entries.
    pub fn len(&self) -> (n: usize)
        ensures
            n == self.entries().len(),
    {
        self.entries.len()
    }

    /// The key at position `i`.
    pub fn key_at(&self, i: usize) -> (key: &String)
        requires
            i < self.entries().len(),
        ensures
            key@ == self.entries()[i as int].0,
    {
        &self.entries[i].0
    }

    /// The value at position `i`.
    pub fn value_at(&self, i: usize) -> (value: &String)
        requires
            i < self.entries().len(),
        ensures
            value@ == self.entries()[i as int].1,
    {
        &self.entries[i].1
    }

    fn locate(&self, key: &str) -> (at: usize)
        ensures
            at == position(self.entries(), key@),
    {
        let mut i: usize = 0;
        proof {
            lemma_position(self.entries(), key@);
        }
        while i < self.entries.len()
            invariant
                i <= self.entries.len(),
                forall|j: int| 0 <= j < i ==> (#[trigger] self.entries()[j]).0 != key@,
                0 <= position(self.entries(), key@) <= self.entries().len(),
                position(self.entries(), key@) < self.entries().len() ==> self.entries()[position(
                    self.entries(),
                    key@,
                )].0 == key@,
                forall|j: int|
                    0 <= j < position(self.entries(), key@) ==> (#[trigger] self.entries()[j]).0
                        != key@,
            decreases self.entries.len() - i,
        {
            if same_text(self.entries[i].0.as_str(), key) {
                assert(self.entries()[i as int].0 == key@);
                return i;
            }
            i += 1;
        }
        i
    }

    /// Writes `value` under `key`: last write wins.
    pub fn insert(&mut self, key: String, value: String)
        ensures
            final(self)@ == old(self)@.insert(key@, value@),
            final(self).entries() == put(old(self).entries(), key@, value@),
    {
        proof {
            use_type_invariant(&*self);
            lemma_put(self.entries(), key@, value@);
        }
        let ghost before = self.entries();
        let at = self.locate(key.as_str());
        let mut taken = TextMap::new();
        std::mem::swap(self, &mut taken);
        let mut entries = taken.entries;
        if at < entries.len() {
            entries.set(at, (key, value));
        } else {
            entries.push((key, value));
        }
        assert(entries@.map_values(|e: (String, String)| (e.0@, e.1@)) =~= put(
            before,
            key@,
            value@,
        ));
        *self = TextMap { entries };
    }

    /// The value under `key`, if there is one.
    pub fn get(&self, key: &str) -> (value: Option<String>)
        ensures
            match value {
                Some(v) => self@.contains_key(key@) && v@ == self@[key@],
                None => !self@.contains_key(key@),
            },
            crate::text::optional_text(value) == find(self.entries(), key@),
    {
        proof {
            use_type_invariant(self);
            lemma_find(self.entries(), key@);
        }
        let at = self.locate(key);
        if at < self.entries.len() {
            Some(self.entries[at].1.clone())
        } else {
            None
        }
    }

    /// Whether there is a value under `key`.
    pub fn contains_key(&self, key: &str) -> (found: bool)
        ensures
            found == self@.contains_key(key@),
    {
        proof {
            use_type_invariant(self);
            lemma_find(self.entries(), key@);
        }
        let at = self.locate(key);
        at < self.entries.len()
    }
}

} // verus!
