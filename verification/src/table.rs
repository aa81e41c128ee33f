//! A table keyed by text that remembers the order in which keys came in.
use vstd::prelude::*;

use crate::text::{same_text, texts};

verus! {

/// What a table holds: a value for each key, and the keys in the order in which
/// they came in.
#[verifier::ext_equal]
pub struct Entries<T> {
    pub map: Map<Seq<char>, T>,
    pub keys: Seq<Seq<char>>,
}

impl<T> Entries<T> {
    /// Nothing at all.
    pub open spec fn empty() -> Self {
        Entries { map: Map::empty(), keys: Seq::empty() }
    }

    /// Each key is listed once, and no other key is.
    pub open spec fn wf(self) -> bool {
        &&& self.keys.no_duplicates()
        &&& forall|key: Seq<char>| #[trigger] self.keys.contains(key) <==> self.map.contains_key(key)
    }

    /// Whether there is a value under a key.
    pub open spec fn contains(self, key: Seq<char>) -> bool {
        self.map.contains_key(key)
    }

    /// The value under a key.
    pub open spec fn at(self, key: Seq<char>) -> T {
        self.map[key]
    }

    /// With a value put under a key. A key that was there keeps its place.
    pub open spec fn insert(self, key: Seq<char>, value: T) -> Self {
        Entries {
            map: self.map.insert(key, value),
            keys: if self.map.contains_key(key) {
                self.keys
            } else {
                self.keys.push(key)
            },
        }
    }

    /// Without a key.
    pub open spec fn remove(self, key: Seq<char>) -> Self {
        Entries {
            map: self.map.remove(key),
            keys: if self.map.contains_key(key) {
                self.keys.remove(self.keys.index_of(key))
            } else {
                self.keys
            },
        }
    }
}

/// Putting a value under a key keeps each key listed once.
pub proof fn insert_keeps_keys_listed_once<T>(entries: Entries<T>, key: Seq<char>, value: T)
    requires
        entries.wf(),
    ensures
        entries.insert(key, value).wf(),
{
    let keys = entries.keys;
    let now = entries.insert(key, value);
    assert(keys.contains(key) == entries.map.contains_key(key));
    if !entries.map.contains_key(key) {
        assert(now.keys[keys.len() as int] == key);
        assert forall|other: Seq<char>| #[trigger] now.keys.contains(other)
            == now.map.contains_key(other) by {
            assert(keys.contains(other) == entries.map.contains_key(other));
            if keys.contains(other) {
                let i = keys.index_of(other);
                assert(now.keys[i] == other);
            }
            if now.keys.contains(other) && other != key {
                let i = now.keys.index_of(other);
                assert(keys[i] == other);
            }
        }
        assert forall|i: int, j: int|
            0 <= i < j < now.keys.len() implies now.keys[i] != now.keys[j] by {
            assert(keys.contains(keys[i]));
        }
    } else {
        assert forall|other: Seq<char>| #[trigger] now.keys.contains(other)
            == now.map.contains_key(other) by {
            assert(keys.contains(other) == entries.map.contains_key(other));
        }
    }
}

/// Taking a key out keeps each other key listed once.
pub proof fn remove_keeps_keys_listed_once<T>(entries: Entries<T>, key: Seq<char>)
    requires
        entries.wf(),
    ensures
        entries.remove(key).wf(),
{
    let keys = entries.keys;
    let now = entries.remove(key);
    assert(keys.contains(key) == entries.map.contains_key(key));
    if entries.map.contains_key(key) {
        let at = keys.index_of(key);
        assert forall|other: Seq<char>| #[trigger] now.keys.contains(other)
            == now.map.contains_key(other) by {
            assert(keys.contains(other) == entries.map.contains_key(other));
            if keys.contains(other) && other != key {
                let i = keys.index_of(other);
                assert(now.keys[if i < at {
                    i
                } else {
                    i - 1
                }] == other);
            }
            if now.keys.contains(other) {
                let i = now.keys.index_of(other);
                assert(keys[if i < at {
                    i
                } else {
                    i + 1
                }] == other);
            }
        }
    } else {
        assert forall|other: Seq<char>| #[trigger] now.keys.contains(other)
            == now.map.contains_key(other) by {
            assert(keys.contains(other) == entries.map.contains_key(other));
        }
    }
}

/// Keys stand in the order in which they came in: a key that is there keeps its
/// place, a new one comes last, and one that is taken out leaves the others in
/// their order.
pub proof fn keys_keep_their_order<T>(entries: Entries<T>, key: Seq<char>, value: T) -> (at: int)
    requires
        entries.wf(),
    ensures
        entries.contains(key) ==> {
            &&& entries.insert(key, value).keys == entries.keys
            &&& 0 <= at < entries.keys.len() && entries.keys[at] == key
            &&& entries.remove(key).keys == entries.keys.take(at) + entries.keys.skip(at + 1)
        },
        !entries.contains(key) ==> {
            &&& entries.insert(key, value).keys == entries.keys + seq![key]
            &&& entries.remove(key).keys == entries.keys
        },
{
    assert(entries.keys.contains(key) == entries.map.contains_key(key));
    let at = entries.keys.index_of(key);
    if entries.contains(key) {
        assert(entries.keys.remove(at) =~= entries.keys.take(at) + entries.keys.skip(at + 1));
    } else {
        assert(entries.keys.push(key) =~= entries.keys + seq![key]);
    }
    at
}

/// A value is found under the key that it was put under last, and under no other
/// one. What is taken out is not found.
pub proof fn values_are_found_under_their_keys<T>(
    entries: Entries<T>,
    key: Seq<char>,
    other: Seq<char>,
    value: T,
)
    requires
        other != key,
    ensures
        ({
            let more = entries.insert(key, value);
            let less = entries.remove(key);
            &&& more.contains(key) && more.at(key) == value
            &&& more.contains(other) == entries.contains(other)
            &&& more.at(other) == entries.at(other)
            &&& !less.contains(key)
            &&& less.contains(other) == entries.contains(other)
            &&& entries.contains(other) ==> less.at(other) == entries.at(other)
            &&& !Entries::<T>::empty().contains(key)
        }),
{
}

/// A table from texts to values.
pub struct Table<V> {
    entries: Vec<(String, V)>,
}

spec fn keys_of<V>(entries: Seq<(String, V)>) -> Seq<Seq<char>> {
    Seq::new(entries.len(), |i: int| entries[i].0@)
}

spec fn map_of<V: View>(entries: Seq<(String, V)>) -> Map<Seq<char>, V::V> {
    Map::new(
        |key: Seq<char>| keys_of(entries).contains(key),
        |key: Seq<char>| entries[keys_of(entries).index_of(key)].1@,
    )
}

impl<V: View> View for Table<V> {
    type V = Entries<V::V>;

    closed spec fn view(&self) -> Entries<V::V> {
        Entries { map: map_of(self.entries@), keys: keys_of(self.entries@) }
    }
}

proof fn lemma_index<V: View>(entries: Seq<(String, V)>, i: int)
    requires
        0 <= i < entries.len(),
        keys_of(entries).no_duplicates(),
    ensures
        keys_of(entries).contains(entries[i].0@),
        keys_of(entries).index_of(entries[i].0@) == i,
        map_of(entries).contains_key(entries[i].0@),
        map_of(entries)[entries[i].0@] == entries[i].1@,
{
    assert(keys_of(entries)[i] == entries[i].0@);
}

proof fn lemma_update<V: View>(before: Seq<(String, V)>, i: int, value: V)
    requires
        0 <= i < before.len(),
        keys_of(before).no_duplicates(),
    ensures
        keys_of(before.update(i, (before[i].0, value))) == keys_of(before),
        map_of(before.update(i, (before[i].0, value))) == map_of(before).insert(
            before[i].0@,
            value@,
        ),
{
    let now = before.update(i, (before[i].0, value));
    let key = before[i].0@;
    assert(keys_of(now) =~= keys_of(before));
    lemma_index(before, i);
    lemma_index(now, i);
    assert forall|other: Seq<char>| #[trigger]
        keys_of(before).contains(other) && other != key implies map_of(now)[other] == map_of(
        before,
    )[other] by {
        let j = keys_of(before).index_of(other);
        assert(now[j] == before[j]);
    }
    assert(map_of(now) =~= map_of(before).insert(key, value@));
}

impl<V: View> Table<V> {
    /// No key is there twice.
    pub closed spec fn wf(&self) -> bool {
        keys_of(self.entries@).no_duplicates()
    }

    /// Whether something holds of every value.
    pub closed spec fn all(&self, good: spec_fn(V) -> bool) -> bool {
        forall|i: int| 0 <= i < self.entries.len() ==> good((#[trigger] self.entries[i]).1)
    }

    /// What a well-formed table holds is well-formed.
    pub proof fn lemma_wf(&self)
        requires
            self.wf(),
        ensures
            self@.wf(),
    {
        assert forall|key: Seq<char>| #[trigger]
            self@.keys.contains(key) == self@.map.contains_key(key) by {}
    }

    /// An empty table.
    pub fn new() -> (table: Self)
        ensures
            table.wf(),
            table@ == Entries::<V::V>::empty(),
            forall|good: spec_fn(V) -> bool| #[trigger] table.all(good),
    {
        let table = Table { entries: Vec::new() };
        assert(table@ =~= Entries::<V::V>::empty());
        table
    }

    fn position(&self, key: &str) -> (r: Option<usize>)
        requires
            self.wf(),
        ensures
            match r {
                Some(i) => {
                    &&& i < self.entries.len()
                    &&& self.entries[i as int].0@ == key@
                    &&& self@.contains(key@)
                    &&& self@.at(key@) == self.entries[i as int].1@
                    &&& self@.keys.index_of(key@) == i
                },
                None => !self@.contains(key@),
            },
    {
        let mut i: usize = 0;
        while i < self.entries.len()
            invariant
                i <= self.entries.len(),
                self.wf(),
                forall|j: int| 0 <= j < i ==> (#[trigger] keys_of(self.entries@)[j]) != key@,
            decreases self.entries.len() - i,
        {
            if same_text(self.entries[i].0.as_str(), key) {
                proof {
                    lemma_index(self.entries@, i as int);
                }
                return Some(i);
            }
            i = i + 1;
        }
        None
    }

    /// Whether there is a value under a key.
    pub fn contains_key(&self, key: &str) -> (r: bool)
        requires
            self.wf(),
        ensures
            r == self@.contains(key@),
    {
        match self.position(key) {
            Some(_) => true,
            None => false,
        }
    }

    /// The value under a key.
    pub fn get(&self, key: &str) -> (r: Option<&V>)
        requires
            self.wf(),
        ensures
            match r {
                Some(value) => {
                    &&& self@.contains(key@)
                    &&& value@ == self@.at(key@)
                    &&& forall|good: spec_fn(V) -> bool| #[trigger] self.all(good) ==> good(*value)
                },
                None => !self@.contains(key@),
            },
    {
        match self.position(key) {
            Some(i) => Some(&self.entries[i].1),
            None => None,
        }
    }

    /// How many keys there are.
    pub fn len(&self) -> (n: usize)
        ensures
            n == self@.keys.len(),
    {
        self.entries.len()
    }

    /// Whether there is no key.
    pub fn is_empty(&self) -> (r: bool)
        ensures
            r == (self@.keys.len() == 0),
    {
        self.entries.len() == 0
    }

    /// The entry at a place in the order of the keys.
    pub fn entry_at(&self, i: usize) -> (r: (&String, &V))
        requires
            self.wf(),
            i < self@.keys.len(),
        ensures
            r.0@ == self@.keys[i as int],
            self@.contains(r.0@),
            r.1@ == self@.at(r.0@),
    {
        proof {
            lemma_index(self.entries@, i as int);
        }
        let entry = &self.entries[i];
        (&entry.0, &entry.1)
    }

    /// Puts a value under a key.
    pub fn insert(&mut self, key: String, value: V)
        requires
            old(self).wf(),
        ensures
            final(self).wf(),
            final(self)@ == old(self)@.insert(key@, value@),
            forall|good: spec_fn(V) -> bool|
                old(self).all(good) && good(value) ==> #[trigger] final(self).all(good),
    {
        let ghost before = self.entries@;
        match self.position(key.as_str()) {
            Some(i) => {
                let ghost k = key@;
                proof {
                    lemma_update(before, i as int, value);
                }
                self.entries.set(i, (key, value));
                proof {
                    let now = self.entries@;
                    let same = before.update(i as int, (before[i as int].0, value));
                    assert(keys_of(now) =~= keys_of(same));
                    assert forall|other: Seq<char>| #[trigger]
                        keys_of(now).contains(other) implies map_of(now)[other] == map_of(
                        same,
                    )[other] by {
                        let j = keys_of(now).index_of(other);
                        assert(now[j].1 == same[j].1);
                    }
                    assert(map_of(now) =~= map_of(same));
                }
            },
            None => {
                let ghost k = key@;
                self.entries.push((key, value));
                proof {
                    let now = self.entries@;
                    let n = before.len() as int;
                    assert(keys_of(now) =~= keys_of(before).push(k));
                    assert(forall|j: int|
                        0 <= j < n ==> (#[trigger] keys_of(before)[j]) != k) by {
                        assert forall|j: int| 0 <= j < n implies (#[trigger] keys_of(before)[j])
                            != k by {
                            if keys_of(before)[j] == k {
                                assert(keys_of(before).contains(k));
                            }
                        }
                    }
                    assert(keys_of(now).no_duplicates());
                    lemma_index(now, n);
                    assert forall|other: Seq<char>| #[trigger]
                        keys_of(now).contains(other) <==> keys_of(before).contains(other) || other
                        == k by {
                        if keys_of(before).contains(other) {
                            let j = keys_of(before).index_of(other);
                            assert(keys_of(now)[j] == other);
                        }
                        if keys_of(now).contains(other) && other != k {
                            let j = keys_of(now).index_of(other);
                            assert(keys_of(before)[j] == other);
                        }
                    }
                    assert forall|other: Seq<char>| #[trigger]
                        keys_of(before).contains(other) implies map_of(now)[other] == map_of(
                        before,
                    )[other] by {
                        let j = keys_of(before).index_of(other);
                        lemma_index(now, j);
                    }
                    assert(map_of(now) =~= map_of(before).insert(k, value@));
                }
            },
        }
    }

    /// The value under a key, to be changed in place.
    pub fn get_mut(&mut self, key: &str) -> (r: Option<&mut V>)
        requires
            old(self).wf(),
        ensures
            final(self).wf(),
            match r {
                Some(value) => {
                    &&& old(self)@.contains(key@)
                    &&& (*value)@ == old(self)@.at(key@)
                    &&& final(self)@ == old(self)@.insert(key@, (*final(value))@)
                    &&& forall|good: spec_fn(V) -> bool| #[trigger]
                        old(self).all(good) ==> good(*value)
                    &&& forall|good: spec_fn(V) -> bool|
                        old(self).all(good) && good(*final(value)) ==> #[trigger] final(self).all(
                            good,
                        )
                },
                None => !old(self)@.contains(key@) && *final(self) == *old(self),
            },
    {
        let ghost before = self.entries@;
        match self.position(key) {
            Some(i) => {
                proof {
                    lemma_index(before, i as int);
                    assert forall|value: V|
                        {
                            let now = #[trigger] before.update(i as int, (before[i as int].0, value));
                            &&& keys_of(now) == keys_of(before)
                            &&& map_of(now) == map_of(before).insert(key@, value@)
                        } by {
                        lemma_update(before, i as int, value);
                    }
                }
                let entry = &mut self.entries[i];
                Some(&mut entry.1)
            },
            None => None,
        }
    }

    /// Takes a key out and hands back its value.
    pub fn remove(&mut self, key: &str) -> (r: Option<V>)
        requires
            old(self).wf(),
        ensures
            final(self).wf(),
            final(self)@ == old(self)@.remove(key@),
            forall|good: spec_fn(V) -> bool|
                old(self).all(good) ==> #[trigger] final(self).all(good),
            match r {
                Some(value) => old(self)@.contains(key@) && value@ == old(self)@.at(key@),
                None => !old(self)@.contains(key@),
            },
    {
        let ghost before = self.entries@;
        match self.position(key) {
            Some(i) => {
                let entry = self.entries.remove(i);
                proof {
                    let now = self.entries@;
                    lemma_index(before, i as int);
                    assert(keys_of(now) =~= keys_of(before).remove(i as int));
                    assert(keys_of(now).no_duplicates());
                    assert forall|j: int| 0 <= j < now.len() implies #[trigger] now[j]
                        == before[if j < i {
                        j
                    } else {
                        j + 1
                    }] by {}
                    assert forall|other: Seq<char>| #[trigger]
                        keys_of(now).contains(other) <==> keys_of(before).contains(other) && other
                        != key@ by {
                        if keys_of(now).contains(other) {
                            let j = keys_of(now).index_of(other);
                            let b = if j < i {
                                j
                            } else {
                                j + 1
                            };
                            assert(now[j] == before[b]);
                            lemma_index(before, b);
                        }
                        if keys_of(before).contains(other) && other != key@ {
                            let b = keys_of(before).index_of(other);
                            let j = if b < i {
                                b
                            } else {
                                b - 1
                            };
                            assert(now[j] == before[b]);
                            assert(keys_of(now)[j] == other);
                        }
                    }
                    assert forall|other: Seq<char>| #[trigger]
                        keys_of(now).contains(other) implies map_of(now)[other] == map_of(
                        before,
                    )[other] by {
                        let j = keys_of(now).index_of(other);
                        let b = if j < i {
                            j
                        } else {
                            j + 1
                        };
                        assert(now[j] == before[b]);
                        lemma_index(now, j);
                        lemma_index(before, b);
                    }
                    assert(map_of(now) =~= map_of(before).remove(key@));
                }
                Some(entry.1)
            },
            None => {
                assert(map_of(before) =~= map_of(before).remove(key@));
                None
            },
        }
    }

    /// Takes everything out and hands back the keys.
    pub fn drain_keys(&mut self) -> (list: Vec<String>)
        ensures
            final(self).wf(),
            final(self)@ == Entries::<V::V>::empty(),
            texts(list@) == old(self)@.keys,
    {
        let mut entries: Vec<(String, V)> = Vec::new();
        std::mem::swap(&mut entries, &mut self.entries);
        assert(self@ =~= Entries::<V::V>::empty());
        let ghost all = entries@;
        let mut list: Vec<String> = Vec::new();
        let mut i: usize = 0;
        while i < entries.len()
            invariant
                i <= entries.len(),
                entries@ == all,
                texts(list@) == keys_of(all).take(i as int),
            decreases entries.len() - i,
        {
            let ghost before = texts(list@);
            list.push(entries[i].0.clone());
            i = i + 1;
            assert(texts(list@) =~= before.push(all[i - 1].0@));
            assert(keys_of(all).take(i as int) =~= keys_of(all).take(i - 1).push(all[i - 1].0@));
        }
        assert(keys_of(all).take(i as int) =~= keys_of(all));
        list
    }
}

} // verus!
