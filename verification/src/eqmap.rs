//! A small map that asks of its keys only that they can be compared for
//! equality: keys and values side by side, in insertion order.

use vstd::prelude::*;
use vstd::std_specs::cmp::PartialEqSpec;

verus! {

/// A map from keys to values, searched by comparing keys one by one.
pub struct EqMap<K: Eq, V> {
    keys: Vec<K>,
    values: Vec<V>,
}

impl<K: Eq, V> EqMap<K, V> {
    /// The keys, in insertion order.
    pub closed spec fn keys(&self) -> Seq<K> {
        self.keys@
    }

    /// The values, each at the index of its key.
    pub closed spec fn values(&self) -> Seq<V> {
        self.values@
    }

    /// Every key has its value.
    pub open spec fn wf(&self) -> bool {
        self.keys().len() == self.values().len()
    }

    /// Whether `i` is the first index whose key equals `key`.
    pub open spec fn is_first_match(&self, key: K, i: int) -> bool {
        &&& 0 <= i < self.keys().len()
        &&& self.keys()[i].eq_spec(&key)
        &&& forall|j: int| 0 <= j < i ==> !(#[trigger] self.keys()[j]).eq_spec(&key)
    }

    /// Whether no key equals `key`.
    pub open spec fn has_no_match(&self, key: K) -> bool {
        forall|j: int| 0 <= j < self.keys().len() ==> !(#[trigger] self.keys()[j]).eq_spec(&key)
    }

    /// The empty map.
    pub fn new() -> (r: Self)
        ensures
            r.wf(),
            r.keys().len() == 0,
    {
        EqMap { keys: Vec::new(), values: Vec::new() }
    }

    /// The index of the first key equal to `key`, if there is one.
    fn find(&self, key: &K) -> (r: Option<usize>)
        requires
            K::obeys_eq_spec(),
        ensures
            match r {
                Some(i) => self.is_first_match(*key, i as int),
                None => self.has_no_match(*key),
            },
    {
        let mut i: usize = 0;
        while i < self.keys.len()
            invariant
                K::obeys_eq_spec(),
                i <= self.keys@.len(),
                forall|j: int| 0 <= j < i ==> !(#[trigger] self.keys@[j]).eq_spec(key),
            decreases self.keys@.len() - i,
        {
            if self.keys[i] == *key {
                return Some(i);
            }
            i += 1;
        }
        None
    }

    /// The value of the first key equal to `key`, or `None` where no key
    /// equals it.
    pub fn get(&self, key: &K) -> (r: Option<&V>)
        requires
            self.wf(),
            K::obeys_eq_spec(),
        ensures
            match r {
                Some(v) => exists|i: int|
                    self.is_first_match(*key, i) && *v == #[trigger] self.values()[i],
                None => self.has_no_match(*key),
            },
    {
        match self.find(key) {
            Some(i) => Some(&self.values[i]),
            None => None,
        }
    }

    /// The value of the first key equal to `key`, open to change, or `None`
    /// where no key equals it. Whatever the caller writes through the
    /// reference becomes the value of that key; nothing else changes.
    pub fn get_mut(&mut self, key: &K) -> (r: Option<&mut V>)
        requires
            old(self).wf(),
            K::obeys_eq_spec(),
        ensures
            final(self).wf(),
            final(self).keys() == old(self).keys(),
            match r {
                Some(v) => exists|i: int|
                    old(self).is_first_match(*key, i) && *v == #[trigger] old(self).values()[i]
                        && final(self).values() == old(self).values().update(i, *final(v)),
                None => old(self).has_no_match(*key) && final(self).values() == old(
                    self,
                ).values(),
            },
    {
        match self.find(key) {
            Some(i) => Some(&mut self.values[i]),
            None => None,
        }
    }

    /// Gives `key` the value `value`. Where a key equal to `key` is there,
    /// the first such key gets the value and its old value is returned;
    /// otherwise key and value are added at the end and `None` is returned.
    pub fn insert(&mut self, key: K, value: V) -> (r: Option<V>)
        requires
            old(self).wf(),
            K::obeys_eq_spec(),
        ensures
            final(self).wf(),
            match r {
                Some(v) => exists|i: int|
                    old(self).is_first_match(key, i) && v == #[trigger] old(self).values()[i]
                        && final(self).keys() == old(self).keys() && final(self).values() == old(
                        self,
                    ).values().update(i, value),
                None => old(self).has_no_match(key) && final(self).keys() == old(
                    self,
                ).keys().push(key) && final(self).values() == old(self).values().push(value),
            },
    {
        match self.find(&key) {
            Some(i) => {
                let mut value = value;
                let slot: &mut V = &mut self.values[i];
                core::mem::swap(slot, &mut value);
                Some(value)
            },
            None => {
                self.keys.push(key);
                self.values.push(value);
                None
            },
        }
    }
}

} // verus!
