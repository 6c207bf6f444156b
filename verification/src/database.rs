//! Expression database interfaces, for users to implement.

use vstd::prelude::*;

verus! {

/// Database key which generates a default value.
pub trait DatabaseKey<V>: Sized {
    /// The key that a value generates.
    spec fn key_of(value: V) -> Self;

    /// Generate a key from the value.
    fn from_value(value: &V) -> (k: Self)
        ensures
            k == Self::key_of(*value),
    ;
}

/// Database entry which represents a key value pair with possibly generated keys.
pub trait DatabaseEntry<K: DatabaseKey<V>, V>: Sized {
    /// The key of the entry.
    spec fn key_spec(&self) -> K;

    /// The value of the entry.
    spec fn value_spec(&self) -> V;

    /// Get the database key.
    fn key(&self) -> (k: &K)
        ensures
            *k == self.key_spec(),
    ;

    /// Get the database value.
    fn value(&self) -> (v: &V)
        ensures
            *v == self.value_spec(),
    ;

    /// Generate a new entry from a key and a value.
    fn new(key: K, value: V) -> (e: Self)
        ensures
            e.key_spec() == key,
            e.value_spec() == value,
    ;

    /// Generate a new entry from a value using the generated key.
    fn from_value(value: V) -> (e: Self)
        ensures
            e.key_spec() == K::key_of(value),
            e.value_spec() == value,
    {
        Self::new(K::from_value(&value), value)
    }
}

/// Database Trait
pub trait Database<K: DatabaseKey<V>, V> {
    /// The contents of the database: each key with its value.
    spec fn contents(&self) -> Map<K, V>;

    /// Returns a reference to the value corresponding to the key.
    fn get(&self, k: &K) -> (r: Option<&V>)
        ensures
            r == (if self.contents().dom().contains(*k) {
                Some(&self.contents()[*k])
            } else {
                None
            }),
    ;

    /// Returns a mutable reference to the value corresponding to the key.
    fn get_mut(&mut self, k: &K) -> (r: Option<&mut V>)
        ensures
            r is Some <==> old(self).contents().dom().contains(*k),
            r matches Some(v) ==> {
                &&& *v == old(self).contents()[*k]
                &&& final(self).contents() == old(self).contents().insert(*k, *final(v))
            },
            r is None ==> final(self).contents() == old(self).contents(),
    ;

    /// Returns `true` if the database contains a value for the specified key.
    fn contains_key(&self, k: &K) -> (b: bool)
        ensures
            b == self.contents().dom().contains(*k),
    ;

    /// Returns `true` if the database contains the value: if it holds a
    /// value under the key that the value generates.
    fn contains_value(&self, v: &V) -> (b: bool)
        ensures
            b == self.contents().dom().contains(K::key_of(*v)),
    {
        self.contains_key(&K::from_value(v))
    }

    /// Inserts a key-value pair into the database.
    fn insert(&mut self, k: K, v: V) -> (r: Option<K>)
        ensures
            final(self).contents() == old(self).contents().insert(k, v),
    ;

    /// Inserts a value into the database using the generated key.
    fn insert_value(&mut self, v: V) -> (r: Option<K>)
        ensures
            final(self).contents() == old(self).contents().insert(K::key_of(v), v),
    ;

    /// Removes a key from the database, returning the value at the key if the
    /// key was previously in the map.
    fn remove(&mut self, k: &K) -> (r: Option<V>)
        ensures
            final(self).contents() == old(self).contents().remove(*k),
            r == (if old(self).contents().dom().contains(*k) {
                Some(old(self).contents()[*k])
            } else {
                None
            }),
    ;

    /// Removes a value from the database using the generated key, returning
    /// the value if the value was previously in the database.
    fn remove_value(&mut self, v: &V) -> (r: Option<V>)
        ensures
            final(self).contents() == old(self).contents().remove(K::key_of(*v)),
            r == (if old(self).contents().dom().contains(K::key_of(*v)) {
                Some(old(self).contents()[K::key_of(*v)])
            } else {
                None
            }),
    {
        self.remove(&K::from_value(v))
    }

    /// Retains only the elements specified by the predicate: the predicate is
    /// called on each entry's key and value, the entry stays exactly when it
    /// answered `true`, and a kept entry holds its value as the predicate left
    /// it.
    fn retain<F: FnMut(&K, &mut V) -> bool>(&mut self, f: F)
        ensures
            final(self).contents().dom().subset_of(old(self).contents().dom()),
            forall|k: K| #[trigger] old(self).contents().dom().contains(k) ==> exists|v: &mut V|
                {
                    &&& *v == old(self).contents()[k]
                    &&& call_ensures(f, (&k, v), final(self).contents().dom().contains(k))
                    &&& final(self).contents().dom().contains(k) ==> final(self).contents()[k]
                        == *final(v)
                },
    ;

    /// Get the length of the database.
    fn len(&self) -> (n: usize)
        ensures
            n == self.contents().len(),
    ;

    /// Check if the database is empty.
    fn is_empty(&self) -> (b: bool)
        ensures
            b == (self.contents().len() == 0),
    {
        self.len() == 0
    }

    /// Clears the database.
    fn clear(&mut self)
        ensures
            final(self).contents() == Map::<K, V>::empty(),
    ;
}

} // verus!
