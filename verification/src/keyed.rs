//! A map from texts to values that remembers the order in which its keys came.
use vstd::prelude::*;
use vstd::string::*;
use crate::text;

verus! {

/// A map from texts to values. No key occurs twice.
#[derive(Debug)]
pub struct StringMap<V> {
    names: Vec<String>,
    values: Vec<V>,
}

/// `i` is the place of `key` among the names.
spec fn is_place(names: Seq<String>, key: Seq<char>, i: int) -> bool {
    0 <= i < names.len() && names[i]@ == key
}

/// No name occurs twice.
spec fn distinct(names: Seq<String>) -> bool {
    forall|i: int, j: int|
        0 <= i < j < names.len() ==> (#[trigger] names[i])@ != (#[trigger] names[j])@
}

impl<V> View for StringMap<V> {
    type V = Map<Seq<char>, V>;

    closed spec fn view(&self) -> Map<Seq<char>, V> {
        Map::new(
            |key: Seq<char>| exists|i: int| is_place(self.names@, key, i),
            |key: Seq<char>| self.values@[choose|i: int| is_place(self.names@, key, i)],
        )
    }
}

impl<V> StringMap<V> {
    #[verifier::type_invariant]
    spec fn inv(self) -> bool {
        distinct(self.names@) && self.names@.len() == self.values@.len()
    }

    /// The keys in the order in which they came.
    pub closed spec fn keys(self) -> Seq<Seq<char>> {
        self.names@.map_values(|s: String| s@)
    }

    /// A name is in the map.
    proof fn lemma_entry(self, i: int)
        requires
            self.inv(),
            0 <= i < self.names@.len(),
        ensures
            self@.contains_key(self.names@[i]@),
            self@[self.names@[i]@] == self.values@[i],
    {
        let key = self.names@[i]@;
        assert(is_place(self.names@, key, i));
        let j = choose|j: int| is_place(self.names@, key, j);
        assert(is_place(self.names@, key, j));
        if i < j {
            assert(self.names@[i]@ != self.names@[j]@);
        } else if j < i {
            assert(self.names@[j]@ != self.names@[i]@);
        }
    }

    /// A key that is in the map has a place.
    proof fn lemma_place(self, key: Seq<char>) -> (i: int)
        requires
            self.inv(),
            self@.contains_key(key),
        ensures
            is_place(self.names@, key, i),
            self@[key] == self.values@[i],
    {
        let i = choose|i: int| is_place(self.names@, key, i);
        assert(is_place(self.names@, key, i));
        self.lemma_entry(i);
        i
    }

    /// The keys in order are the keys of the map, none of them twice.
    proof fn lemma_keys(self)
        requires
            self.inv(),
        ensures
            self.keys().no_duplicates(),
            forall|k: Seq<char>| self.keys().contains(k) <==> self@.contains_key(k),
    {
        assert forall|k: Seq<char>| self.keys().contains(k) <==> self@.contains_key(k) by {
            if self.keys().contains(k) {
                let i = choose|i: int| 0 <= i < self.keys().len() && self.keys()[i] == k;
                self.lemma_entry(i);
            }
            if self@.contains_key(k) {
                let i = self.lemma_place(k);
                assert(self.keys()[i] == k);
            }
        }
        assert forall|i: int, j: int|
            0 <= i < self.keys().len() && 0 <= j < self.keys().len() && i != j implies self.keys()[i]
            != self.keys()[j] by {
            if i < j {
                assert(self.names@[i]@ != self.names@[j]@);
            } else {
                assert(self.names@[j]@ != self.names@[i]@);
            }
        }
    }

    /// An empty map.
    pub fn new() -> (r: Self)
        ensures
            r@ == Map::<Seq<char>, V>::empty(),
            r.keys() == Seq::<Seq<char>>::empty(),
    {
        let r = StringMap { names: Vec::new(), values: Vec::new() };
        assert(r@ =~= Map::<Seq<char>, V>::empty());
        assert(r.keys() =~= Seq::<Seq<char>>::empty());
        r
    }

    /// The place of `key`, or the number of keys if it has none.
    fn place_of(&self, key: &str) -> (r: usize)
        ensures
            r <= self.names@.len(),
            r < self.names@.len() ==> is_place(self.names@, key@, r as int),
            r == self.names@.len() <==> !self@.contains_key(key@),
    {
        proof {
            use_type_invariant(self);
        }
        let mut i: usize = 0;
        while i < self.names.len()
            invariant
                i <= self.names@.len(),
                self.inv(),
                forall|k: int| 0 <= k < i ==> !is_place(self.names@, key@, k),
            decreases self.names@.len() - i,
        {
            if text::same_text(self.names[i].as_str(), key) {
                proof {
                    self.lemma_entry(i as int);
                }
                return i;
            }
            i += 1;
        }
        proof {
            if self@.contains_key(key@) {
                let p = self.lemma_place(key@);
            }
        }
        i
    }

    /// How many keys there are.
    pub fn len(&self) -> (r: usize)
        ensures
            r == self.keys().len(),
    {
        self.names.len()
    }

    /// Whether there are no keys.
    pub fn is_empty(&self) -> (r: bool)
        ensures
            r == (self.keys().len() == 0),
    {
        self.names.len() == 0
    }

    /// Whether `key` is in the map.
    pub fn contains_key(&self, key: &str) -> (r: bool)
        ensures
            r == self@.contains_key(key@),
    {
        self.place_of(key) < self.names.len()
    }

    /// The value of `key`, if it is in the map.
    pub fn get(&self, key: &str) -> (r: Option<&V>)
        ensures
            match r {
                Some(v) => self@.contains_key(key@) && *v == self@[key@],
                None => !self@.contains_key(key@),
            },
    {
        let i = self.place_of(key);
        proof {
            use_type_invariant(self);
        }
        if i < self.names.len() {
            proof {
                self.lemma_entry(i as int);
            }
            Some(&self.values[i])
        } else {
            None
        }
    }

    /// Two maps with the same names agree wherever their values do.
    proof fn lemma_update(self, before: Self, key: Seq<char>, i: int)
        requires
            self.inv(),
            before.inv(),
            self.names@ == before.names@,
            is_place(before.names@, key, i),
            self.values@ == before.values@.update(i, self.values@[i]),
        ensures
            self@ == before@.insert(key, self.values@[i]),
            self.keys() == before.keys(),
            before@.contains_key(key),
            before@[key] == before.values@[i],
    {
        before.lemma_entry(i);
        assert forall|k: Seq<char>| #[trigger] self@.contains_key(k) == before@.insert(
            key,
            self.values@[i],
        ).contains_key(k) by {
            if self@.contains_key(k) {
                let p = self.lemma_place(k);
                before.lemma_entry(p);
            }
            if before@.contains_key(k) {
                let p = before.lemma_place(k);
                self.lemma_entry(p);
            }
        }
        assert forall|k: Seq<char>| self@.contains_key(k) implies #[trigger] self@[k]
            == before@.insert(key, self.values@[i])[k] by {
            let p = self.lemma_place(k);
            before.lemma_entry(p);
            if k == key {
                self.lemma_entry(i);
            }
        }
        assert(self@ =~= before@.insert(key, self.values@[i]));
    }

    /// The value of `key`, to be changed in place, if it is in the map.
    pub fn get_mut(&mut self, key: &str) -> (r: Option<&mut V>)
        ensures
            match r {
                Some(v) => {
                    &&& old(self)@.contains_key(key@)
                    &&& *v == old(self)@[key@]
                    &&& final(self)@ == old(self)@.insert(key@, *final(v))
                    &&& final(self).keys() == old(self).keys()
                },
                None => !old(self)@.contains_key(key@) && *final(self) == *old(self),
            },
    {
        let i = self.place_of(key);
        proof {
            use_type_invariant(&*self);
        }
        if i < self.names.len() {
            proof {
                let before = *self;
                assert forall|after: Self|
                    after.inv() && after.names@ == before.names@ && #[trigger] after.values@
                        == before.values@.update(i as int, after.values@[i as int]) implies after@
                    == before@.insert(key@, after.values@[i as int]) && after.keys()
                    == before.keys() by {
                    after.lemma_update(before, key@, i as int);
                }
                before.lemma_entry(i as int);
            }
            Some(&mut self.values[i])
        } else {
            None
        }
    }

    /// Maps `key` to `value`. A key that is there already keeps its place.
    pub fn insert(&mut self, key: String, value: V)
        ensures
            final(self)@ == old(self)@.insert(key@, value),
            final(self).keys() == if old(self)@.contains_key(key@) {
                old(self).keys()
            } else {
                old(self).keys().push(key@)
            },
    {
        proof {
            use_type_invariant(&*self);
        }
        let ghost before = *self;
        let ghost name = key@;
        let i = self.place_of(key.as_str());
        let mut names: Vec<String> = Vec::new();
        let mut values: Vec<V> = Vec::new();
        let mut taken = StringMap { names, values };
        std::mem::swap(&mut taken, self);
        names = taken.names;
        values = taken.values;
        if i < names.len() {
            values.set(i, value);
            *self = StringMap { names, values };
            proof {
                let after = *self;
                after.lemma_update(before, name, i as int);
            }
        } else {
            names.push(key);
            values.push(value);
            assert(distinct(names@)) by {
                assert forall|a: int, b: int| 0 <= a < b < names@.len() implies (
                #[trigger] names@[a])@ != (#[trigger] names@[b])@ by {
                    if b == before.names@.len() {
                        assert(!is_place(before.names@, name, a));
                    } else {
                        assert(before.names@[a]@ != before.names@[b]@);
                    }
                }
            }
            *self = StringMap { names, values };
            proof {
                let after = *self;
                assert(after.keys() =~= before.keys().push(name));
                assert forall|k: Seq<char>| #[trigger] after@.contains_key(k) == before@.insert(
                    name,
                    value,
                ).contains_key(k) by {
                    if after@.contains_key(k) {
                        let p = after.lemma_place(k);
                        if k != name {
                            assert(is_place(before.names@, k, p));
                        }
                    }
                    if before@.contains_key(k) {
                        let p = before.lemma_place(k);
                        assert(is_place(after.names@, k, p));
                    }
                    if k == name {
                        assert(is_place(after.names@, k, i as int));
                    }
                }
                assert forall|k: Seq<char>| after@.contains_key(k) implies #[trigger] after@[k]
                    == before@.insert(name, value)[k] by {
                    let p = after.lemma_place(k);
                    if k != name {
                        before.lemma_entry(p);
                    } else {
                        after.lemma_entry(i as int);
                    }
                }
                assert(after@ =~= before@.insert(name, value));
            }
        }
    }

    /// Takes `key` out of the map and returns its value, if it was there.
    pub fn remove(&mut self, key: &str) -> (r: Option<V>)
        ensures
            final(self)@ == old(self)@.remove(key@),
            match r {
                Some(v) => old(self)@.contains_key(key@) && v == old(self)@[key@],
                None => !old(self)@.contains_key(key@) && *final(self) == *old(self),
            },
            final(self).keys().len() == old(self).keys().len() - (if r is Some { 1int } else { 0 }),
    {
        proof {
            use_type_invariant(&*self);
        }
        let ghost before = *self;
        let i = self.place_of(key);
        if i >= self.names.len() {
            assert(before@.remove(key@) =~= before@);
            return None;
        }
        let mut names: Vec<String> = Vec::new();
        let mut values: Vec<V> = Vec::new();
        let mut taken = StringMap { names, values };
        std::mem::swap(&mut taken, self);
        names = taken.names;
        values = taken.values;
        let _ = names.remove(i);
        let value = values.remove(i);
        assert(distinct(names@)) by {
            assert forall|a: int, b: int| 0 <= a < b < names@.len() implies (#[trigger] names@[a])@
                != (#[trigger] names@[b])@ by {
                let p = if a < i { a } else { a + 1 };
                let q = if b < i { b } else { b + 1 };
                assert(before.names@[p]@ != before.names@[q]@);
            }
        }
        *self = StringMap { names, values };
        proof {
            let after = *self;
            before.lemma_entry(i as int);
            assert forall|k: Seq<char>| #[trigger] after@.contains_key(k) == before@.remove(
                key@,
            ).contains_key(k) by {
                if after@.contains_key(k) {
                    let p = after.lemma_place(k);
                    let q = if p < i { p } else { p + 1 };
                    assert(is_place(before.names@, k, q));
                    before.lemma_entry(q);
                    if k == key@ {
                        if q < i {
                            assert(before.names@[q]@ != before.names@[i as int]@);
                        } else {
                            assert(before.names@[i as int]@ != before.names@[q]@);
                        }
                    }
                }
                if before@.contains_key(k) && k != key@ {
                    let p = before.lemma_place(k);
                    let q = if p < i { p } else { p - 1 };
                    assert(is_place(after.names@, k, q));
                }
            }
            assert forall|k: Seq<char>| after@.contains_key(k) implies #[trigger] after@[k]
                == before@.remove(key@)[k] by {
                let p = after.lemma_place(k);
                let q = if p < i { p } else { p + 1 };
                before.lemma_entry(q);
            }
            assert(after@ =~= before@.remove(key@));
        }
        Some(value)
    }

    /// The keys in the order in which they came: each key of the map, once.
    pub fn ordered_keys(&self) -> (r: Vec<String>)
        ensures
            r@.map_values(|s: String| s@) == self.keys(),
            self.keys().no_duplicates(),
            forall|k: Seq<char>| self.keys().contains(k) <==> self@.contains_key(k),
    {
        proof {
            use_type_invariant(self);
            self.lemma_keys();
        }
        let mut out: Vec<String> = Vec::new();
        let mut i: usize = 0;
        while i < self.names.len()
            invariant
                i <= self.names.len(),
                out@.map_values(|s: String| s@) == self.keys().take(i as int),
            decreases self.names.len() - i,
        {
            let ghost so_far = out@;
            let key = self.names[i].clone();
            out.push(key);
            assert(out@.map_values(|s: String| s@) =~= so_far.map_values(|s: String| s@).push(
                key@,
            ));
            assert(self.keys().take(i + 1) =~= self.keys().take(i as int).push(
                self.keys()[i as int],
            ));
            i += 1;
        }
        assert(self.keys().take(i as int) =~= self.keys());
        out
    }
}

} // verus!
