use vstd::prelude::*;

use super::thread::Thread;

verus! {

/// Whether position `i` of `entries` holds the key `key`.
pub open spec fn entry_at<V>(entries: Seq<(Thread, V)>, key: Thread, i: int) -> bool {
    0 <= i < entries.len() && entries[i].0 == key
}

/// Whether no key occurs twice in `entries`.
pub open spec fn keys_unique<V>(entries: Seq<(Thread, V)>) -> bool {
    forall|i: int, j: int|
        0 <= i < entries.len() && 0 <= j < entries.len() && i != j ==> #[trigger] entries[i].0
            != #[trigger] entries[j].0
}

/// The map that a list of entries stands for: each key to the value beside it.
pub open spec fn map_of<V>(entries: Seq<(Thread, V)>) -> Map<Thread, V> {
    Map::new(
        |key: Thread| exists|i: int| entry_at(entries, key, i),
        |key: Thread| entries[choose|i: int| entry_at(entries, key, i)].1,
    )
}

/// In a list without repeated keys, the map gives each key the value beside it.
pub proof fn lemma_map_of_at<V>(entries: Seq<(Thread, V)>, i: int)
    requires
        keys_unique(entries),
        0 <= i < entries.len(),
    ensures
        map_of(entries).contains_key(entries[i].0),
        map_of(entries)[entries[i].0] == entries[i].1,
{
    let key = entries[i].0;
    assert(entry_at(entries, key, i));
    let j = choose|j: int| entry_at(entries, key, j);
    if j != i {
        assert(entries[i].0 != entries[j].0);
    }
}

/// A map from conversations to values, kept as a list in which no
/// conversation occurs twice.
#[derive(Debug)]
pub struct ThreadMap<V> {
    entries: Vec<(Thread, V)>,
}

impl<V> View for ThreadMap<V> {
    type V = Map<Thread, V>;

    closed spec fn view(&self) -> Map<Thread, V> {
        map_of(self.entries@)
    }
}

impl<V> ThreadMap<V> {
    /// The entries of the map, in the order it keeps them.
    pub closed spec fn entries(&self) -> Seq<(Thread, V)> {
        self.entries@
    }

    /// No conversation occurs twice in the list: every map holds to this.
    #[verifier::type_invariant]
    spec fn unique_keys(self) -> bool {
        keys_unique(self.entries@)
    }

    /// The map is the one that its entries stand for.
    pub proof fn lemma_view(&self)
        ensures
            self@ == map_of(self.entries()),
    {
    }

    /// The empty map.
    pub fn new() -> (map: ThreadMap<V>)
        ensures
            map@ == Map::<Thread, V>::empty(),
    {
        let map = ThreadMap { entries: Vec::new() };
        assert(map@ =~= Map::<Thread, V>::empty());
        map
    }

    /// The position of `key` in the list, if it is there.
    fn find(&self, key: &Thread) -> (found: Option<usize>)
        ensures
            match found {
                Some(i) => entry_at(self.entries@, *key, i as int),
                None => !self@.contains_key(*key),
            },
    {
        let mut i: usize = 0;
        while i < self.entries.len()
            invariant
                i <= self.entries@.len(),
                forall|j: int| 0 <= j < i ==> self.entries@[j].0 != *key,
            decreases self.entries.len() - i,
        {
            if self.entries[i].0.same(key) {
                return Some(i);
            }
            i = i + 1;
        }
        None
    }

    /// Whether the map holds `key`.
    pub fn contains(&self, key: &Thread) -> (contains: bool)
        ensures
            contains == self@.contains_key(*key),
    {
        proof {
            use_type_invariant(self);
        }
        match self.find(key) {
            Some(i) => {
                proof {
                    lemma_map_of_at(self.entries@, i as int);
                }
                true
            },
            None => false,
        }
    }

    /// The value of `key`, if the map holds it.
    pub fn get(&self, key: &Thread) -> (value: Option<&V>)
        ensures
            match value {
                Some(v) => self@.contains_key(*key) && *v == self@[*key],
                None => !self@.contains_key(*key),
            },
    {
        proof {
            use_type_invariant(self);
        }
        match self.find(key) {
            Some(i) => {
                proof {
                    lemma_map_of_at(self.entries@, i as int);
                }
                Some(&self.entries[i].1)
            },
            None => None,
        }
    }

    /// Sets the value of `key` to `value`.
    pub fn insert(&mut self, key: Thread, value: V)
        ensures
            final(self)@ == old(self)@.insert(key, value),
    {
        proof {
            use_type_invariant(&*self);
        }
        let ghost before = self.entries@;
        let found = self.find(&key);
        let mut entries: Vec<(Thread, V)> = Vec::new();
        std::mem::swap(&mut entries, &mut self.entries);
        match found {
            Some(i) => {
                entries.set(i, (key, value));
                proof {
                    let after = entries@;
                    assert(keys_unique(after));
                    assert forall|k: Thread| #[trigger]
                        map_of(after).contains_key(k) == old(self)@.insert(key, value).contains_key(
                            k,
                        ) by {
                        if k == key {
                            assert(entry_at(after, k, i as int));
                        } else if map_of(after).contains_key(k) {
                            let j = choose|j: int| entry_at(after, k, j);
                            assert(entry_at(before, k, j));
                        } else if map_of(before).contains_key(k) {
                            let j = choose|j: int| entry_at(before, k, j);
                            assert(entry_at(after, k, j));
                        }
                    };
                    assert forall|k: Thread| #[trigger] map_of(after).contains_key(k) implies map_of(
                        after,
                    )[k] == old(self)@.insert(key, value)[k] by {
                        let j = choose|j: int| entry_at(after, k, j);
                        lemma_map_of_at(after, j);
                        if k != key {
                            assert(j != i);
                            lemma_map_of_at(before, j);
                        }
                    };
                    assert(map_of(after) =~= old(self)@.insert(key, value));
                }
            },
            None => {
                entries.push((key, value));
                proof {
                    let after = entries@;
                    let n = before.len() as int;
                    assert forall|a: int, b: int|
                        0 <= a < after.len() && 0 <= b < after.len() && a != b implies #[trigger] after[a].0
                        != #[trigger] after[b].0 by {
                        if a == n {
                            assert(!entry_at(before, key, b));
                        } else if b == n {
                            assert(!entry_at(before, key, a));
                        } else {
                            assert(before[a].0 != before[b].0);
                        }
                    };
                    assert forall|k: Thread| #[trigger]
                        map_of(after).contains_key(k) == old(self)@.insert(key, value).contains_key(
                            k,
                        ) by {
                        if k == key {
                            assert(entry_at(after, k, n));
                        } else if map_of(after).contains_key(k) {
                            let j = choose|j: int| entry_at(after, k, j);
                            assert(entry_at(before, k, j));
                        } else if map_of(before).contains_key(k) {
                            let j = choose|j: int| entry_at(before, k, j);
                            assert(entry_at(after, k, j));
                        }
                    };
                    assert forall|k: Thread| #[trigger] map_of(after).contains_key(k) implies map_of(
                        after,
                    )[k] == old(self)@.insert(key, value)[k] by {
                        let j = choose|j: int| entry_at(after, k, j);
                        lemma_map_of_at(after, j);
                        if k != key {
                            lemma_map_of_at(before, j);
                        } else {
                            lemma_map_of_at(after, n);
                        }
                    };
                    assert(map_of(after) =~= old(self)@.insert(key, value));
                }
            },
        }
        self.entries = entries;
    }

    /// Removes `key` from the map, giving back its value if it was there.
    pub fn remove(&mut self, key: &Thread) -> (removed: Option<V>)
        ensures
            final(self)@ == old(self)@.remove(*key),
            match removed {
                Some(v) => old(self)@.contains_key(*key) && v == old(self)@[*key],
                None => !old(self)@.contains_key(*key),
            },
    {
        proof {
            use_type_invariant(&*self);
        }
        let ghost before = self.entries@;
        match self.find(key) {
            Some(i) => {
                proof {
                    lemma_map_of_at(before, i as int);
                }
                let mut entries: Vec<(Thread, V)> = Vec::new();
                std::mem::swap(&mut entries, &mut self.entries);
                let (_, value) = entries.remove(i);
                proof {
                    let after = entries@;
                    assert(after =~= before.remove(i as int));
                    assert forall|a: int, b: int|
                        0 <= a < after.len() && 0 <= b < after.len() && a != b implies #[trigger] after[a].0
                        != #[trigger] after[b].0 by {
                        let a2 = if a < i { a } else { a + 1 };
                        let b2 = if b < i { b } else { b + 1 };
                        assert(before[a2].0 != before[b2].0);
                    };
                    assert forall|k: Thread| #[trigger]
                        map_of(after).contains_key(k) == old(self)@.remove(*key).contains_key(k) by {
                        if map_of(after).contains_key(k) {
                            let j = choose|j: int| entry_at(after, k, j);
                            let j2 = if j < i { j } else { j + 1 };
                            assert(entry_at(before, k, j2));
                            assert(before[j2].0 != before[i as int].0);
                        } else if map_of(before).contains_key(k) && k != *key {
                            let j = choose|j: int| entry_at(before, k, j);
                            assert(j != i);
                            let j2 = if j < i { j } else { j - 1 };
                            assert(entry_at(after, k, j2));
                        }
                    };
                    assert forall|k: Thread| #[trigger] map_of(after).contains_key(k) implies map_of(
                        after,
                    )[k] == old(self)@.remove(*key)[k] by {
                        let j = choose|j: int| entry_at(after, k, j);
                        lemma_map_of_at(after, j);
                        let j2 = if j < i { j } else { j + 1 };
                        lemma_map_of_at(before, j2);
                    };
                    assert(map_of(after) =~= old(self)@.remove(*key));
                }
                self.entries = entries;
                Some(value)
            },
            None => {
                assert(old(self)@.remove(*key) =~= old(self)@);
                None
            },
        }
    }

    /// The entries of the map, in the order it keeps them.
    pub fn into_entries(self) -> (entries: Vec<(Thread, V)>)
        ensures
            entries@ == self.entries(),
            keys_unique(entries@),
    {
        proof {
            use_type_invariant(&self);
        }
        self.entries
    }

    /// The map of a list of entries in which no conversation occurs twice.
    pub fn from_entries(entries: Vec<(Thread, V)>) -> (map: ThreadMap<V>)
        requires
            keys_unique(entries@),
        ensures
            map.entries() == entries@,
            map@ == map_of(entries@),
    {
        ThreadMap { entries }
    }
}

} // verus!
