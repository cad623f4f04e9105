use crate::outcome::PrepareResult;
use crate::table::{committed_map, key_model_holds, Table};
use core::marker::PhantomData;
use std::hash::{BuildHasher, Hash};
use vstd::prelude::*;
use vstd::rwlock::{ReadHandle, RwLock, RwLockPredicate, WriteHandle};

verus! {

/// The invariant the store's lock maintains over the table it protects. The
/// table itself may hold any mapping; what every holder of the lock learns on
/// acquisition is that the key type and hash builder satisfy the hash-table
/// model, which was required once, at construction.
pub struct KeyModelPred<K, S> {
    key_marker: PhantomData<K>,
    hasher_marker: PhantomData<S>,
}

impl<K: Clone, V, S> RwLockPredicate<Table<K, V, S>> for KeyModelPred<K, S> {
    open spec fn inv(self, t: Table<K, V, S>) -> bool {
        key_model_holds::<K, S>()
    }
}

/// What one `prepare_maybe` call observed of the mapping, returned as ghost
/// evidence beside its outcome: `checked` is the mapping at the shared-lock
/// existence test, `committed` the mapping at the exclusive acquisition just
/// before this call's insert (equal to `checked` when the call never wrote),
/// and `stored` the mapping as the call left it. `committed` can differ from
/// `checked` only by what other threads did in the unlocked window.
#[verifier::reject_recursive_types(K)]
pub struct PrepareObservation<K, V> {
    pub checked: Map<K, V>,
    pub committed: Map<K, V>,
    pub stored: Map<K, V>,
}

/// A thread-safe "create-once" map from `K` to `V`, hashing with `S`.
///
/// Values are computed lazily by caller-supplied factories and stored at most
/// once per key; reads of existing entries take only a shared lock and so
/// proceed concurrently. The factory passed to `get_or_create_with` is always
/// run with no lock held, so a slow factory never blocks readers of other
/// keys.
#[verifier::reject_recursive_types(S)]
pub struct StorageMap<K: Clone, V, S> {
    lock: RwLock<Table<K, V, S>, KeyModelPred<K, S>>,
}

#[verifier::reject_recursive_types(S)]
enum GuardInner<'a, K: Clone, V, S> {
    Shared { read_handle: ReadHandle<'a, Table<K, V, S>, KeyModelPred<K, S>>, key: K },
    Exclusive {
        table: Table<K, V, S>,
        write_handle: WriteHandle<'a, Table<K, V, S>, KeyModelPred<K, S>>,
        key: K,
    },
}

/// A scoped handle to one stored value, returned by `get_or_create_with`.
///
/// While the guard is alive it holds the store's lock — in shared mode when
/// the value was found on the fast path, in exclusive mode when this call had
/// to commit — and `value` reads the entry the call settled on. Call
/// `release` to give the lock back; each guard releases exactly the mode it
/// holds, exactly once.
///
/// In contracts, `self@` is the whole mapping the guard observes, `self.key()`
/// the key it was obtained for, `self.checked()` the mapping seen at the
/// initial shared-lock lookup, and `self.pre()` / `self.found()` record the
/// mapping found when this call committed and whether it already contained
/// the key.
#[verifier::reject_recursive_types(K)]
#[verifier::reject_recursive_types(S)]
pub struct StorageMapGuard<'a, K: Clone, V, S> {
    inner: GuardInner<'a, K, V, S>,
    found: Ghost<bool>,
    checked: Ghost<Map<K, V>>,
    pre: Ghost<Map<K, V>>,
}

impl<'a, K: Clone, V, S> View for StorageMapGuard<'a, K, V, S> {
    type V = Map<K, V>;

    closed spec fn view(&self) -> Map<K, V> {
        match self.inner {
            GuardInner::Shared { read_handle, .. } => read_handle.view()@,
            GuardInner::Exclusive { table, .. } => table@,
        }
    }
}

impl<'a, K: Clone, V, S> StorageMapGuard<'a, K, V, S> {
    /// The key this guard was obtained for.
    pub closed spec fn key(self) -> K {
        match self.inner {
            GuardInner::Shared { key, .. } => key,
            GuardInner::Exclusive { key, .. } => key,
        }
    }

    /// Whether the guard holds the lock in exclusive mode.
    pub closed spec fn exclusive(self) -> bool {
        self.inner is Exclusive
    }

    /// Whether the key already had a value when the call that produced this
    /// guard looked the mapping up for the last time.
    pub closed spec fn found(self) -> bool {
        self.found@
    }

    /// The mapping as the call's initial shared-lock lookup saw it. When it
    /// already contained the key, that lookup decided the call: the guard is
    /// shared and nothing further was observed or changed.
    pub closed spec fn checked(self) -> Map<K, V> {
        self.checked@
    }

    /// The mapping as that last lookup saw it, before any commit of this call.
    pub closed spec fn pre(self) -> Map<K, V> {
        self.pre@
    }

    #[verifier::type_invariant]
    spec fn type_inv(self) -> bool {
        &&& key_model_holds::<K, S>()
        &&& self@.contains_key(self.key())
    }
}

impl<'a, K: Clone + Eq + Hash, V, S: BuildHasher> StorageMapGuard<'a, K, V, S> {
    /// Read access to the value stored for `self.key()`.
    pub fn value(&self) -> (v: &V)
        ensures
            *v == self@[self.key()],
    {
        proof {
            use_type_invariant(self);
        }
        match &self.inner {
            GuardInner::Shared { read_handle, key } => {
                let table = read_handle.borrow();
                match table.get(key) {
                    Some(v) => v,
                    None => unreached(),
                }
            },
            GuardInner::Exclusive { table, key, .. } => {
                match table.get(key) {
                    Some(v) => v,
                    None => unreached(),
                }
            },
        }
    }

    /// Which lock mode the guard holds.
    pub fn is_exclusive(&self) -> (b: bool)
        ensures
            b == self.exclusive(),
    {
        match &self.inner {
            GuardInner::Shared { .. } => false,
            GuardInner::Exclusive { .. } => true,
        }
    }

    /// Give the lock back, in exactly the mode this guard holds.
    pub fn release(self) {
        proof {
            use_type_invariant(&self);
        }
        let StorageMapGuard { inner, found: _, checked: _, pre: _ } = self;
        match inner {
            GuardInner::Shared { read_handle, .. } => read_handle.release_read(),
            GuardInner::Exclusive { table, write_handle, .. } => write_handle.release_write(table),
        }
    }
}

impl<K: Clone + Eq + Hash, V, S: BuildHasher> StorageMap<K, V, S> {
    /// An empty store that hashes keys with `hash_builder`.
    ///
    /// The precondition is the hash-table model. vstd's axioms discharge it
    /// for `bool` and the integer key types together with std's
    /// `RandomState`; for any other key type the caller must supply it, so a
    /// `String`-keyed store can be run but not reasoned about inside Verus.
    pub fn with_hasher(hash_builder: S) -> Self
        requires
            key_model_holds::<K, S>(),
    {
        let table = Table::with_hasher(hash_builder);
        let ghost pred = KeyModelPred { key_marker: PhantomData, hasher_marker: PhantomData };
        StorageMap { lock: RwLock::new(table, Ghost(pred)) }
    }

    /// An empty store with the hash builder's default value. This stands
    /// where an implementation of `Default` would: a trait method cannot
    /// carry the hash-table-model precondition, an inherent one can.
    pub fn new() -> Self where S: Default
        requires
            key_model_holds::<K, S>(),
    {
        Self::with_hasher(S::default())
    }

    /// Fetch the value stored for `key`, creating it if there is none.
    ///
    /// The fast path takes only the shared lock: if the key is present, the
    /// guard wraps that lock and the stored value, and the factory is never
    /// invoked. Otherwise the shared lock is released, the factory runs with
    /// no lock held, and the result is committed under the exclusive lock —
    /// unless some other thread stored a value for `key` in the window, in
    /// which case the freshly computed value is discarded in favour of the
    /// stored one. The factory is expected to be deterministic per key: a
    /// racing caller's value may be the one every caller ends up reading.
    ///
    /// The guard's ghost `checked()` is the mapping the initial lookup saw —
    /// the key's presence there decides the lock mode — and `pre()` the
    /// mapping this call last observed; relative to `pre()`, the call created
    /// nothing (`found()`) or exactly the entry for `key`, with a value the
    /// factory produced.
    pub fn get_or_create_with<'a, F: FnOnce() -> V>(&'a self, key: &K, create_fn: F) -> (g:
        StorageMapGuard<'a, K, V, S>)
        requires
            call_requires(create_fn, ()),
        ensures
            g.key() == *key,
            g@.contains_key(*key),
            g.found() == g.pre().contains_key(*key),
            g@ == committed_map(g.pre(), *key, g@[*key]),
            g.found() ==> g@ == g.pre(),
            !g.found() ==> g@ == g.pre().insert(*key, g@[*key]) && call_ensures(
                create_fn,
                (),
                g@[*key],
            ),
            g.checked().contains_key(*key) <==> !g.exclusive(),
            !g.exclusive() ==> g.found() && g.pre() == g.checked(),
    {
        let read_handle = self.lock.acquire_read();
        let present = read_handle.borrow().contains(key);
        let ghost checked_map = read_handle.view()@;
        if present {
            return StorageMapGuard {
                inner: GuardInner::Shared { read_handle, key: key.clone() },
                found: Ghost(true),
                checked: Ghost(checked_map),
                pre: Ghost(checked_map),
            };
        }
        read_handle.release_read();
        // The map may gain an entry for `key` between here and the exclusive
        // acquisition below; `commit` resolves that race in favour of the
        // value already stored.
        let value = create_fn();
        let (mut table, write_handle) = self.lock.acquire_write();
        let ghost pre_map = table@;
        let ghost had = table@.contains_key(*key);
        table.commit(key, value);
        StorageMapGuard {
            inner: GuardInner::Exclusive { table, write_handle, key: key.clone() },
            found: Ghost(had),
            checked: Ghost(checked_map),
            pre: Ghost(pre_map),
        }
    }

    /// Insert a value for `key` only if the key is absent and the factory
    /// produces one; never overwrite a value found before the factory runs.
    ///
    /// The existence test takes the shared lock briefly; if the key is
    /// present the factory is never invoked and the result is
    /// `AlreadyExists`. Otherwise the factory runs with no lock held:
    /// `None` leaves the mapping unchanged (`UnableToCreate`, the key stays
    /// retriably absent), and `Some` value is stored under the exclusive lock
    /// (`Created`). Unlike `get_or_create_with`, the commit does not re-check
    /// existence: two callers racing on the same absent key may both observe
    /// `Created`, and the commit that runs last wins — visible below in the
    /// `Created` clause, whose insert overwrites whatever the window left in
    /// `committed`. See `crate::laws::lemma_create_if_absent_race_last_writer_wins`.
    ///
    /// Beside the outcome, the call returns ghost `PrepareObservation`
    /// evidence relating the outcome to the mapping it observed: a key found
    /// at the existence test is reported `AlreadyExists` and nothing is
    /// written; on an absent key a declining factory leaves the mapping as
    /// observed, and a producing factory's value is stored for exactly this
    /// key.
    pub fn prepare_maybe<F: FnOnce() -> Option<V>>(&self, key: &K, create_fn: F) -> (r: (
        PrepareResult,
        Ghost<PrepareObservation<K, V>>,
    ))
        requires
            call_requires(create_fn, ()),
        ensures
            r.0 is AlreadyExists <==> r.1@.checked.contains_key(*key),
            r.0 is AlreadyExists ==> r.1@.committed == r.1@.checked && r.1@.stored
                == r.1@.checked,
            r.0 is UnableToCreate ==> !r.1@.checked.contains_key(*key) && call_ensures(
                create_fn,
                (),
                None::<V>,
            ) && r.1@.committed == r.1@.checked && r.1@.stored == r.1@.checked,
            r.0 is Created ==> !r.1@.checked.contains_key(*key) && exists|v: V|
                {
                    &&& #[trigger] call_ensures(create_fn, (), Some(v))
                    &&& r.1@.stored == r.1@.committed.insert(*key, v)
                    &&& r.1@.stored[*key] == v
                },
    {
        let read_handle = self.lock.acquire_read();
        let has = read_handle.borrow().contains(key);
        let ghost checked_map = read_handle.view()@;
        read_handle.release_read();
        if has {
            let ghost ob = PrepareObservation {
                checked: checked_map,
                committed: checked_map,
                stored: checked_map,
            };
            return (PrepareResult::AlreadyExists, Ghost(ob));
        }
        let value = match create_fn() {
            Some(value) => value,
            None => {
                let ghost ob = PrepareObservation {
                    checked: checked_map,
                    committed: checked_map,
                    stored: checked_map,
                };
                return (PrepareResult::UnableToCreate, Ghost(ob));
            },
        };
        let (mut table, write_handle) = self.lock.acquire_write();
        let ghost committed_map_seen = table@;
        table.store(key, value);
        let ghost ob = PrepareObservation {
            checked: checked_map,
            committed: committed_map_seen,
            stored: table@,
        };
        write_handle.release_write(table);
        (PrepareResult::Created, Ghost(ob))
    }

    /// The number of keys stored at the moment the shared lock was held,
    /// beside the ghost mapping observed under it. Another thread may insert
    /// as soon as the lock is released, so no more than the momentary
    /// observation can be promised.
    pub fn len(&self) -> (r: (usize, Ghost<Map<K, V>>))
        ensures
            r.0 == r.1@.len(),
    {
        let read_handle = self.lock.acquire_read();
        let n = read_handle.borrow().len();
        let ghost observed = read_handle.view()@;
        read_handle.release_read();
        (n, Ghost(observed))
    }
}

} // verus!
