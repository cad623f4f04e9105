use std::collections::HashMap;
use std::hash::{BuildHasher, Hash};
use vstd::prelude::*;
use vstd::std_specs::hash::{builds_valid_hashers, obeys_key_model};

verus! {

broadcast use vstd::std_specs::hash::group_hash_axioms;

/// What the hash-table model asks of the key type `K` and the hash builder
/// `S`: key hashing and equality are deterministic, the builder hands out
/// hashers that agree with each other, and cloning a key yields an equal key.
///
/// These are exactly the hypotheses under which vstd's specification of
/// `std::collections::HashMap` is meaningful. vstd's axioms discharge them
/// for `bool` and the integer key types together with std's `RandomState`;
/// for any other key type the caller must supply them, so a `String`-keyed
/// store can be run but not reasoned about inside Verus.
pub open spec fn key_model_holds<K: Clone, S>() -> bool {
    &&& obeys_key_model::<K>()
    &&& builds_valid_hashers::<S>()
    &&& forall|a: K, b: K| #[trigger] call_ensures(K::clone, (&a,), b) ==> b == a
}

/// The map after the atomic insert-if-absent step of `get_or_create_with`:
/// a value already stored for the key is kept, and `v` is stored otherwise.
pub open spec fn committed_map<K, V>(m: Map<K, V>, k: K, v: V) -> Map<K, V> {
    if m.contains_key(k) {
        m
    } else {
        m.insert(k, v)
    }
}

/// The value the same step leaves associated with the key: the one already
/// stored if there is one, and `v` otherwise.
pub open spec fn committed_value<K, V>(m: Map<K, V>, k: K, v: V) -> V {
    if m.contains_key(k) {
        m[k]
    } else {
        v
    }
}

/// The key-to-value mapping, owned exclusively: the sequential core that the
/// concurrent store protects with its lock. Every operation's contract pins
/// the new contents and the result exactly, over the view `self@` of type
/// `Map<K, V>`.
#[verifier::reject_recursive_types(S)]
pub struct Table<K, V, S> {
    map: HashMap<K, V, S>,
}

impl<K, V, S> View for Table<K, V, S> {
    type V = Map<K, V>;

    closed spec fn view(&self) -> Map<K, V> {
        self.map@
    }
}

/// Relies on std's `HashMap::with_hasher`: it returns an empty map that will
/// use the given hash builder, mirroring the specification vstd gives to
/// `HashMap::new` and `HashMap::with_capacity`.
#[verifier::external_body]
fn new_hash_map<K, V, S>(hash_builder: S) -> (m: HashMap<K, V, S>)
    ensures
        forall|k: K| !(#[trigger] m@.contains_key(k)),
{
    HashMap::with_hasher(hash_builder)
}

impl<K: Clone + Eq + Hash, V, S: BuildHasher> Table<K, V, S> {
    /// An empty table that hashes keys with `hash_builder`.
    pub fn with_hasher(hash_builder: S) -> (t: Self)
        requires
            key_model_holds::<K, S>(),
        ensures
            t@ == Map::<K, V>::empty(),
    {
        let map = new_hash_map(hash_builder);
        proof {
            assert(map@ =~= Map::<K, V>::empty());
        }
        Table { map }
    }

    /// Whether a value is stored for `key`.
    pub fn contains(&self, key: &K) -> (r: bool)
        requires
            key_model_holds::<K, S>(),
        ensures
            r == self@.contains_key(*key),
    {
        self.map.contains_key(key)
    }

    /// The value stored for `key`, if any.
    pub fn get<'a>(&'a self, key: &K) -> (r: Option<&'a V>)
        requires
            key_model_holds::<K, S>(),
        ensures
            match r {
                Some(v) => self@.contains_key(*key) && *v == self@[*key],
                None => !self@.contains_key(*key),
            },
    {
        self.map.get(key)
    }

    /// The number of keys stored.
    pub fn len(&self) -> (n: usize)
        requires
            key_model_holds::<K, S>(),
        ensures
            n == self@.len(),
    {
        self.map.len()
    }

    /// The atomic insert-if-absent step of `get_or_create_with`: keep the
    /// value already stored for `key` if there is one, discarding `value`;
    /// store `value` otherwise. Entries for other keys are untouched.
    pub fn commit(&mut self, key: &K, value: V)
        requires
            key_model_holds::<K, S>(),
        ensures
            final(self)@ == committed_map(old(self)@, *key, value),
            final(self)@.contains_key(*key),
            final(self)@[*key] == committed_value(old(self)@, *key, value),
    {
        if !self.map.contains_key(key) {
            self.map.insert(key.clone(), value);
        }
    }

    /// The commit step of `prepare_maybe`: store `value` for `key`
    /// unconditionally. Unlike `commit`, a value already stored for `key` is
    /// overwritten — the documented last-writer-wins behaviour of the
    /// conditional insertion.
    pub fn store(&mut self, key: &K, value: V)
        requires
            key_model_holds::<K, S>(),
        ensures
            final(self)@ == old(self)@.insert(*key, value),
    {
        self.map.insert(key.clone(), value);
    }
}

} // verus!
