//! A map on plain keys that keeps the order in which its keys were added.
use vstd::prelude::*;

verus! {

/// A type whose values can serve as keys of a `KeyedMap`: `model` says which value a key stands
/// for, and two keys are the same key when their models are equal.
pub trait MapKey: Sized {
    /// What a key stands for.
    type Model;

    /// The value that this key stands for.
    spec fn model(&self) -> Self::Model;

    /// Whether two keys stand for the same value.
    fn same_key(&self, other: &Self) -> (r: bool)
        ensures
            r == (self.model() == other.model()),
    ;
}

impl MapKey for String {
    type Model = Seq<char>;

    open spec fn model(&self) -> Seq<char> {
        self@
    }

    fn same_key(&self, other: &Self) -> (r: bool) {
        *self == *other
    }
}

/// A map from keys of type `K` to values of type `V`. Its view maps the keys' models to the
/// values; `order` lists the models in the order in which the keys were added.
pub struct KeyedMap<K: MapKey, V> {
    entries: Vec<(K, V)>,
}

/// A map whose keys are texts.
pub type StringMap<V> = KeyedMap<String, V>;

impl<K: MapKey, V> KeyedMap<K, V> {
    #[verifier::type_invariant]
    spec fn distinct(&self) -> bool {
        distinct_keys(self.entries@)
    }

    /// The keys, each once, in the order in which they were added.
    pub closed spec fn order(&self) -> Seq<K::Model> {
        keys_of(self.entries@)
    }

    /// The map that the entries make up.
    pub closed spec fn as_map(&self) -> Map<K::Model, V> {
        map_of(self.entries@)
    }
}

impl<K: MapKey, V> View for KeyedMap<K, V> {
    type V = Map<K::Model, V>;

    open spec fn view(&self) -> Map<K::Model, V> {
        self.as_map()
    }
}

spec fn keys_of<K: MapKey, V>(entries: Seq<(K, V)>) -> Seq<K::Model> {
    entries.map_values(|e: (K, V)| e.0.model())
}

spec fn distinct_keys<K: MapKey, V>(entries: Seq<(K, V)>) -> bool {
    forall|i: int, j: int|
        0 <= i < j < entries.len() ==> (#[trigger] entries[i]).0.model() != (#[trigger] entries[j]).0.model()
}

spec fn map_of<K: MapKey, V>(entries: Seq<(K, V)>) -> Map<K::Model, V>
    decreases entries.len(),
{
    if entries.len() == 0 {
        Map::empty()
    } else {
        map_of(entries.drop_last()).insert(entries.last().0.model(), entries.last().1)
    }
}

proof fn lemma_dom<K: MapKey, V>(entries: Seq<(K, V)>)
    ensures
        forall|k: K::Model| map_of(entries).contains_key(k) <==> keys_of(entries).contains(k),
        map_of(entries).dom() =~= keys_of(entries).to_set(),
    decreases entries.len(),
{
    if entries.len() > 0 {
        let init = entries.drop_last();
        lemma_dom(init);
        assert(keys_of(entries) =~= keys_of(init).push(entries.last().0.model()));
        assert forall|k: K::Model| map_of(entries).contains_key(k) implies keys_of(
            entries,
        ).contains(k) by {
            if k == entries.last().0.model() {
                assert(keys_of(entries)[entries.len() - 1] == k);
            } else {
                assert(keys_of(init).contains(k));
                let i = choose|i: int| 0 <= i < keys_of(init).len() && keys_of(init)[i] == k;
                assert(keys_of(entries)[i] == k);
            }
        }
        assert forall|k: K::Model| keys_of(entries).contains(k) implies map_of(
            entries,
        ).contains_key(k) by {
            let i = choose|i: int| 0 <= i < keys_of(entries).len() && keys_of(entries)[i] == k;
            if i < entries.len() - 1 {
                assert(keys_of(init)[i] == k);
            }
        }
    }
}

proof fn lemma_at<K: MapKey, V>(entries: Seq<(K, V)>, i: int)
    requires
        distinct_keys(entries),
        0 <= i < entries.len(),
    ensures
        map_of(entries).contains_key(entries[i].0.model()),
        map_of(entries)[entries[i].0.model()] == entries[i].1,
    decreases entries.len(),
{
    if i < entries.len() - 1 {
        let init = entries.drop_last();
        assert(init[i] == entries[i]);
        assert(entries[entries.len() - 1].0.model() != entries[i].0.model());
        assert(distinct_keys(init)) by {
            assert forall|a: int, b: int| 0 <= a < b < init.len() implies (#[trigger] init[a]).0.model() != (
            #[trigger] init[b]).0.model() by {
                assert(init[a] == entries[a] && init[b] == entries[b]);
            }
        }
        lemma_at(init, i);
    }
}

proof fn lemma_same_map<K: MapKey, V>(entries: Seq<(K, V)>, m: Map<K::Model, V>)
    requires
        distinct_keys(entries),
        forall|i: int| 0 <= i < entries.len() ==> m.contains_key((#[trigger] entries[i]).0.model())
            && m[entries[i].0.model()] == entries[i].1,
        forall|k: K::Model| m.contains_key(k) ==> keys_of(entries).contains(k),
    ensures
        map_of(entries) == m,
{
    lemma_dom(entries);
    let n = map_of(entries);
    assert forall|k: K::Model| n.contains_key(k) implies m.contains_key(k) && m[k] == n[k] by {
        let i = choose|i: int| 0 <= i < keys_of(entries).len() && keys_of(entries)[i] == k;
        assert(entries[i].0.model() == k);
        lemma_at(entries, i);
    }
    assert(n =~= m);
}

impl<K: MapKey, V> KeyedMap<K, V> {
    /// The empty map.
    pub fn new() -> (r: Self)
        ensures
            r@ == Map::<K::Model, V>::empty(),
            r.order() == Seq::<K::Model>::empty(),
    {
        KeyedMap { entries: Vec::new() }
    }

    /// How many keys the map holds.
    pub fn len(&self) -> (r: usize)
        ensures
            r == self.order().len(),
            self.order().no_duplicates(),
            forall|k: K::Model| self@.contains_key(k) <==> self.order().contains(k),
            self@.dom() == self.order().to_set(),
    {
        proof {
            use_type_invariant(self);
            lemma_dom(self.entries@);
            assert forall|i: int, j: int|
                0 <= i < self.order().len() && 0 <= j < self.order().len() && i
                    != j implies self.order()[i] != self.order()[j] by {
                assert(self.order()[i] == self.entries@[i].0.model());
                assert(self.order()[j] == self.entries@[j].0.model());
            }
        }
        self.entries.len()
    }

    fn position(&self, key: &K) -> (r: Option<usize>)
        ensures
            match r {
                Some(i) => i < self.entries@.len() && self.entries@[i as int].0.model() == key.model(),
                None => !self.order().contains(key.model()),
            },
    {
        let mut i: usize = 0;
        while i < self.entries.len()
            invariant
                i <= self.entries@.len(),
                forall|j: int| 0 <= j < i ==> self.entries@[j].0.model() != key.model(),
            decreases self.entries@.len() - i,
        {
            if self.entries[i].0.same_key(key) {
                return Some(i);
            }
            i += 1;
        }
        None
    }

    /// The value under `key`.
    pub fn get(&self, key: &K) -> (r: Option<&V>)
        ensures
            match r {
                Some(v) => self@.contains_key(key.model()) && *v == self@[key.model()],
                None => !self@.contains_key(key.model()),
            },
    {
        proof {
            use_type_invariant(self);
            lemma_dom(self.entries@);
        }
        match self.position(key) {
            Some(i) => {
                proof {
                    lemma_at(self.entries@, i as int);
                }
                Some(&self.entries[i].1)
            },
            None => None,
        }
    }

    /// Whether the map holds `key`.
    pub fn contains_key(&self, key: &K) -> (r: bool)
        ensures
            r == self@.contains_key(key.model()),
    {
        match self.get(key) {
            Some(_) => true,
            None => false,
        }
    }

    /// The `i`th key in order, with its value.
    pub fn entry(&self, i: usize) -> (r: (&K, &V))
        requires
            i < self.order().len(),
        ensures
            r.0.model() == self.order()[i as int],
            self@.contains_key(r.0.model()),
            *r.1 == self@[r.0.model()],
    {
        proof {
            use_type_invariant(self);
            lemma_at(self.entries@, i as int);
        }
        let e = &self.entries[i];
        (&e.0, &e.1)
    }

    /// Puts `value` under `key`: in the place of the key where the map has it, else at the end.
    pub fn insert(&mut self, key: K, value: V)
        ensures
            final(self)@ == old(self)@.insert(key.model(), value),
            final(self).order() == if old(self)@.contains_key(key.model()) {
                old(self).order()
            } else {
                old(self).order().push(key.model())
            },
    {
        proof {
            use_type_invariant(&*self);
        }
        let ghost before = self.entries@;
        let found = self.position(&key);
        let mut entries: Vec<(K, V)> = Vec::new();
        std::mem::swap(&mut entries, &mut self.entries);
        proof {
            lemma_dom(before);
        }
        let ghost target = map_of(before).insert(key.model(), value);
        match found {
            Some(i) => {
                proof {
                    lemma_at(before, i as int);
                }
                let ghost k = key.model();
                entries.set(i, (key, value));
                proof {
                    assert(keys_of(entries@) =~= keys_of(before));
                    assert(distinct_keys(entries@)) by {
                        assert forall|a: int, b: int| 0 <= a < b < entries@.len() implies (
                        #[trigger] entries@[a]).0.model() != (#[trigger] entries@[b]).0.model() by {
                            assert(before[a].0.model() != before[b].0.model());
                        }
                    }
                    assert forall|j: int| 0 <= j < entries@.len() implies target.contains_key(
                        (#[trigger] entries@[j]).0.model(),
                    ) && target[entries@[j].0.model()] == entries@[j].1 by {
                        if j != i {
                            lemma_at(before, j);
                            assert(before[j].0.model() != before[i as int].0.model());
                        }
                    }
                    lemma_same_map(entries@, target);
                }
            },
            None => {
                let ghost k = key.model();
                entries.push((key, value));
                proof {
                    assert(keys_of(entries@) =~= keys_of(before).push(k));
                    assert(entries@.drop_last() =~= before);
                    assert forall|a: int, b: int| 0 <= a < b < entries@.len() implies (
                    #[trigger] entries@[a]).0.model() != (#[trigger] entries@[b]).0.model() by {
                        assert(entries@[a] == before[a]);
                        if b < before.len() {
                            assert(entries@[b] == before[b]);
                        } else {
                            assert(keys_of(before)[a] == before[a].0.model());
                        }
                    }
                }
            },
        }
        self.entries = entries;
    }

    /// Takes `key` out of the map, and the value under it.
    pub fn remove(&mut self, key: &K) -> (r: Option<V>)
        ensures
            final(self)@ == old(self)@.remove(key.model()),
            match r {
                Some(v) => old(self)@.contains_key(key.model()) && v == old(self)@[key.model()],
                None => !old(self)@.contains_key(key.model()),
            },
            r is None ==> final(self).order() == old(self).order(),
    {
        proof {
            use_type_invariant(&*self);
            lemma_dom(self.entries@);
        }
        let ghost before = self.entries@;
        let found = self.position(key);
        match found {
            Some(i) => {
                let mut entries: Vec<(K, V)> = Vec::new();
                std::mem::swap(&mut entries, &mut self.entries);
                let taken = entries.remove(i);
                proof {
                    lemma_at(before, i as int);
                    let target = map_of(before).remove(key.model());
                    assert forall|a: int, b: int| 0 <= a < b < entries@.len() implies (
                    #[trigger] entries@[a]).0.model() != (#[trigger] entries@[b]).0.model() by {
                        let a1 = if a < i { a } else { a + 1 };
                        let b1 = if b < i { b } else { b + 1 };
                        assert(entries@[a] == before[a1] && entries@[b] == before[b1]);
                    }
                    assert forall|j: int| 0 <= j < entries@.len() implies target.contains_key(
                        (#[trigger] entries@[j]).0.model(),
                    ) && target[entries@[j].0.model()] == entries@[j].1 by {
                        let j1 = if j < i { j } else { j + 1 };
                        assert(entries@[j] == before[j1]);
                        lemma_at(before, j1);
                        assert(before[j1].0.model() != before[i as int].0.model());
                    }
                    assert forall|k: K::Model| target.contains_key(k) implies keys_of(
                        entries@,
                    ).contains(k) by {
                        let j1 = choose|j1: int|
                            0 <= j1 < keys_of(before).len() && keys_of(before)[j1] == k;
                        let j = if j1 < i { j1 } else { j1 - 1 };
                        assert(entries@[j] == before[j1]);
                        assert(keys_of(entries@)[j] == k);
                    }
                    lemma_same_map(entries@, target);
                }
                self.entries = entries;
                Some(taken.1)
            },
            None => {
                proof {
                    assert(map_of(before).remove(key.model()) =~= map_of(before));
                }
                None
            },
        }
    }

    /// Takes the last key in order out of the map, and the value under it.
    pub fn pop(&mut self) -> (r: Option<(K, V)>)
        ensures
            match r {
                Some(e) => {
                    &&& old(self)@.contains_key(e.0.model())
                    &&& old(self)@[e.0.model()] == e.1
                    &&& final(self)@ == old(self)@.remove(e.0.model())
                    &&& old(self).order() == final(self).order().push(e.0.model())
                },
                None => {
                    &&& old(self)@ == Map::<K::Model, V>::empty()
                    &&& final(self)@ == old(self)@
                    &&& final(self).order() == old(self).order()
                    &&& old(self).order().len() == 0
                },
            },
    {
        proof {
            use_type_invariant(&*self);
            lemma_dom(self.entries@);
        }
        let ghost before = self.entries@;
        let mut entries: Vec<(K, V)> = Vec::new();
        std::mem::swap(&mut entries, &mut self.entries);
        let r = entries.pop();
        proof {
            if before.len() > 0 {
                let last = before.last();
                assert(entries@ =~= before.drop_last());
                assert forall|a: int, b: int| 0 <= a < b < entries@.len() implies (
                #[trigger] entries@[a]).0.model() != (#[trigger] entries@[b]).0.model() by {
                    assert(entries@[a] == before[a] && entries@[b] == before[b]);
                }
                lemma_dom(entries@);
                assert(!map_of(entries@).contains_key(last.0.model())) by {
                    if keys_of(entries@).contains(last.0.model()) {
                        let j = choose|j: int|
                            0 <= j < keys_of(entries@).len() && keys_of(entries@)[j]
                                == last.0.model();
                        assert(before[j].0.model() != before[before.len() - 1].0.model());
                    }
                }
                assert(map_of(entries@) =~= map_of(before).remove(last.0.model()));
                assert(keys_of(before) =~= keys_of(entries@).push(last.0.model()));
            } else {
                assert(entries@ =~= before);
            }
        }
        self.entries = entries;
        r
    }

    /// Empties the map.
    pub fn clear(&mut self)
        ensures
            final(self)@ == Map::<K::Model, V>::empty(),
            final(self).order() == Seq::<K::Model>::empty(),
    {
        self.entries = Vec::new();
    }
}

} // verus!
