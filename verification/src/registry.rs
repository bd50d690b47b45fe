//! A registry of values under text keys, no key twice, that keeps the order
//! in which its keys first came.

use vstd::prelude::*;

verus! {

/// Where `key` stands in `keys`, if it does. With no key twice there is at
/// most one such place.
pub open spec fn position(keys: Seq<Seq<char>>, key: Seq<char>) -> Option<int> {
    if exists|i: int| 0 <= i < keys.len() && keys[i] == key {
        Some(choose|i: int| 0 <= i < keys.len() && keys[i] == key)
    } else {
        None
    }
}

/// In a sequence without duplicates, a place that holds `key` is the place
/// that `position` names.
pub proof fn lemma_position_found(keys: Seq<Seq<char>>, key: Seq<char>, i: int)
    requires
        keys.no_duplicates(),
        0 <= i < keys.len(),
        keys[i] == key,
    ensures
        position(keys, key) == Some(i),
{
}

/// A key that stands nowhere in `keys` has no position.
pub proof fn lemma_position_absent(keys: Seq<Seq<char>>, key: Seq<char>)
    requires
        forall|i: int| 0 <= i < keys.len() ==> keys[i] != key,
    ensures
        position(keys, key) is None,
{
}

/// Values under text keys. Every key occurs once; keys and values stand in the
/// order in which the keys were first inserted.
#[derive(Debug)]
pub struct Registry<V> {
    names: Vec<String>,
    items: Vec<V>,
}

impl<V> Registry<V> {
    /// The keys, in order.
    pub closed spec fn keys(&self) -> Seq<Seq<char>> {
        Seq::new(self.names@.len(), |i: int| self.names@[i]@)
    }

    /// The values, each at the place of its key.
    pub closed spec fn values(&self) -> Seq<V> {
        self.items@
    }

    /// There are as many values as keys, and no key occurs twice.
    pub closed spec fn wf(&self) -> bool {
        &&& self.names@.len() == self.items@.len()
        &&& self.keys().no_duplicates()
    }

    /// What well-formedness says of the keys and values.
    pub proof fn lemma_wf(&self)
        requires
            self.wf(),
        ensures
            self.keys().len() == self.values().len(),
            self.keys().no_duplicates(),
    {
    }

    /// The value under `key`, if there is one.
    pub open spec fn lookup(&self, key: Seq<char>) -> Option<V> {
        match position(self.keys(), key) {
            Some(i) => Some(self.values()[i]),
            None => None,
        }
    }

    /// An empty registry.
    pub fn new() -> (r: Registry<V>)
        ensures
            r.wf(),
            r.keys() == Seq::<Seq<char>>::empty(),
            r.values() == Seq::<V>::empty(),
    {
        let r = Registry { names: Vec::new(), items: Vec::new() };
        assert(r.keys() =~= Seq::<Seq<char>>::empty());
        r
    }

    /// The number of entries.
    pub fn len(&self) -> (n: usize)
        requires
            self.wf(),
        ensures
            n == self.keys().len(),
            n == self.values().len(),
    {
        self.items.len()
    }

    /// The place of `key`, if it is present.
    pub fn find(&self, key: &str) -> (r: Option<usize>)
        requires
            self.wf(),
        ensures
            match r {
                Some(i) => position(self.keys(), key@) == Some(i as int) && i < self.keys().len(),
                None => position(self.keys(), key@) is None,
            },
    {
        let wanted = key.to_owned();
        let mut i: usize = 0;
        while i < self.names.len()
            invariant
                self.wf(),
                wanted@ == key@,
                i <= self.names@.len(),
                forall|j: int| 0 <= j < i ==> self.keys()[j] != key@,
            decreases self.names.len() - i,
        {
            if self.names[i] == wanted {
                proof {
                    lemma_position_found(self.keys(), key@, i as int);
                }
                return Some(i);
            }
            i = i + 1;
        }
        proof {
            lemma_position_absent(self.keys(), key@);
        }
        None
    }

    /// Whether `key` is present.
    pub fn contains_key(&self, key: &str) -> (b: bool)
        requires
            self.wf(),
        ensures
            b == (position(self.keys(), key@) is Some),
    {
        self.find(key).is_some()
    }

    /// The value under `key`, if there is one.
    pub fn get(&self, key: &str) -> (r: Option<&V>)
        requires
            self.wf(),
        ensures
            match r {
                Some(v) => self.lookup(key@) == Some(*v),
                None => self.lookup(key@) is None,
            },
    {
        match self.find(key) {
            Some(i) => Some(&self.items[i]),
            None => None,
        }
    }

    /// The key at place `i`.
    pub fn key_at(&self, i: usize) -> (k: &String)
        requires
            self.wf(),
            i < self.keys().len(),
        ensures
            k@ == self.keys()[i as int],
    {
        &self.names[i]
    }

    /// The value at place `i`.
    pub fn value_at(&self, i: usize) -> (v: &V)
        requires
            self.wf(),
            i < self.values().len(),
        ensures
            *v == self.values()[i as int],
    {
        &self.items[i]
    }

    /// Puts `value` at place `i`, under the key that stands there, and hands
    /// back the value that it replaces.
    pub fn replace_at(&mut self, i: usize, value: V) -> (previous: V)
        requires
            old(self).wf(),
            i < old(self).values().len(),
        ensures
            final(self).wf(),
            final(self).keys() == old(self).keys(),
            final(self).values() == old(self).values().update(i as int, value),
            previous == old(self).values()[i as int],
    {
        self.items.push(value);
        let previous = self.items.swap_remove(i);
        assert(self.keys() =~= old(self).keys());
        assert(self.items@ =~= old(self).items@.update(i as int, value));
        previous
    }

    /// Puts `value` under `key`. A key that is present keeps its place and has
    /// its value replaced, and the replaced value is handed back; a new key
    /// goes to the end.
    pub fn insert(&mut self, key: String, value: V) -> (previous: Option<V>)
        requires
            old(self).wf(),
        ensures
            final(self).wf(),
            match position(old(self).keys(), key@) {
                Some(i) => {
                    &&& final(self).keys() == old(self).keys()
                    &&& final(self).values() == old(self).values().update(i, value)
                    &&& previous == Some(old(self).values()[i])
                },
                None => {
                    &&& final(self).keys() == old(self).keys().push(key@)
                    &&& final(self).values() == old(self).values().push(value)
                    &&& previous is None
                },
            },
    {
        match self.find(key.as_str()) {
            Some(i) => {
                let previous = self.replace_at(i, value);
                Some(previous)
            },
            None => {
                self.names.push(key);
                self.items.push(value);
                assert(self.keys() =~= old(self).keys().push(key@));
                None
            },
        }
    }

    /// Takes out the entry under `key`, if there is one, and hands back its
    /// value; the other entries keep their order.
    pub fn remove(&mut self, key: &str) -> (removed: Option<V>)
        requires
            old(self).wf(),
        ensures
            final(self).wf(),
            match position(old(self).keys(), key@) {
                Some(i) => {
                    &&& final(self).keys() == old(self).keys().remove(i)
                    &&& final(self).values() == old(self).values().remove(i)
                    &&& removed == Some(old(self).values()[i])
                },
                None => {
                    &&& final(self).keys() == old(self).keys()
                    &&& final(self).values() == old(self).values()
                    &&& removed is None
                },
            },
    {
        match self.find(key) {
            Some(i) => {
                self.names.remove(i);
                let value = self.items.remove(i);
                assert(self.keys() =~= old(self).keys().remove(i as int));
                Some(value)
            },
            None => None,
        }
    }

    /// The values, in order.
    pub fn all(&self) -> (out: Vec<&V>)
        requires
            self.wf(),
        ensures
            out@.len() == self.values().len(),
            forall|i: int| 0 <= i < out@.len() ==> *#[trigger] out@[i] == self.values()[i],
    {
        let mut out: Vec<&V> = Vec::new();
        let mut i: usize = 0;
        while i < self.items.len()
            invariant
                i <= self.items@.len(),
                out@.len() == i,
                forall|j: int| 0 <= j < i ==> *#[trigger] out@[j] == self.items@[j],
            decreases self.items.len() - i,
        {
            out.push(&self.items[i]);
            i = i + 1;
        }
        out
    }
}

} // verus!
