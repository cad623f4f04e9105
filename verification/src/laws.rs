use crate::outcome::PrepareResult;
use crate::table::{committed_map, committed_value};
use vstd::prelude::*;

verus! {

/// The mapping after a whole sequence of insert-if-absent commits for one
/// key: the order in which racing `get_or_create_with` callers reach the
/// exclusive lock, applied one commit at a time.
pub open spec fn committed_fold<K, V>(m: Map<K, V>, k: K, vs: Seq<V>) -> Map<K, V>
    decreases vs.len(),
{
    if vs.len() == 0 {
        m
    } else {
        committed_fold(committed_map(m, k, vs[0]), k, vs.drop_first())
    }
}

/// The outcome `prepare_maybe` reports when no other thread intervenes
/// between its existence test and its commit; `produced` is what the factory
/// returns when it is consulted.
pub open spec fn prepare_outcome<K, V>(m: Map<K, V>, k: K, produced: Option<V>) -> PrepareResult {
    if m.contains_key(k) {
        PrepareResult::AlreadyExists
    } else {
        match produced {
            None => PrepareResult::UnableToCreate,
            Some(_) => PrepareResult::Created,
        }
    }
}

/// The mapping `prepare_maybe` leaves behind in the same uninterleaved runs.
pub open spec fn prepared_map<K, V>(m: Map<K, V>, k: K, produced: Option<V>) -> Map<K, V> {
    if m.contains_key(k) {
        m
    } else {
        match produced {
            None => m,
            Some(v) => m.insert(k, v),
        }
    }
}

/// Idempotence of the unconditional operation: after a commit for `k`, a
/// later commit for `k` returns the value stored by the earlier one, whatever
/// value `v2` its own factory computed, and leaves the mapping unchanged —
/// the later factory's output is never reflected in storage.
pub proof fn lemma_get_or_create_idempotent<K, V>(m: Map<K, V>, k: K, v1: V, v2: V)
    ensures
        committed_value(committed_map(m, k, v1), k, v2) == committed_value(m, k, v1),
        committed_map(committed_map(m, k, v1), k, v2) == committed_map(m, k, v1),
{
}

/// Once a key is present, any further run of insert-if-absent commits for it
/// changes nothing at all.
pub proof fn lemma_committed_fold_noop<K, V>(m: Map<K, V>, k: K, vs: Seq<V>)
    requires
        m.contains_key(k),
    ensures
        committed_fold(m, k, vs) == m,
    decreases vs.len(),
{
    if vs.len() > 0 {
        lemma_committed_fold_noop(m, k, vs.drop_first());
    }
}

/// Convergence under racing writers: however many callers commit values for
/// one absent key, in whatever order they reach the exclusive lock, exactly
/// one value — the first to commit — survives, and the mapping ends as a
/// single insertion of it.
pub proof fn lemma_single_writer_convergence<K, V>(m: Map<K, V>, k: K, vs: Seq<V>)
    requires
        !m.contains_key(k),
        vs.len() > 0,
    ensures
        committed_fold(m, k, vs) == m.insert(k, vs[0]),
        committed_fold(m, k, vs)[k] == vs[0],
{
    let m1 = committed_map(m, k, vs[0]);
    lemma_committed_fold_noop(m1, k, vs.drop_first());
}

/// Entries under other keys are untouched by either insertion step: whatever
/// one call commits for `k1`, the presence and the value of any other key
/// `k2` are exactly what they were.
pub proof fn lemma_other_keys_untouched<K, V>(m: Map<K, V>, k1: K, k2: K, v: V)
    requires
        k1 != k2,
    ensures
        committed_map(m, k1, v).contains_key(k2) == m.contains_key(k2),
        m.contains_key(k2) ==> committed_map(m, k1, v)[k2] == m[k2],
        m.insert(k1, v).contains_key(k2) == m.contains_key(k2),
        m.contains_key(k2) ==> m.insert(k1, v)[k2] == m[k2],
{
}

/// The tri-state contract of the conditional insertion on an uninterleaved
/// store: a present key reports `AlreadyExists` and nothing changes; on an
/// absent key a declining factory reports `UnableToCreate` and the key stays
/// absent, a producing factory reports `Created` and the key now maps to the
/// produced value; and after a `Created`, any further attempt reports
/// `AlreadyExists`.
pub proof fn lemma_create_if_absent_outcomes<K, V>(m: Map<K, V>, k: K, v: V, p: Option<V>)
    ensures
        m.contains_key(k) ==> prepare_outcome(m, k, p) is AlreadyExists && prepared_map(m, k, p)
            == m,
        !m.contains_key(k) ==> prepare_outcome(m, k, None::<V>) is UnableToCreate && prepared_map(
            m,
            k,
            None::<V>,
        ) == m && !prepared_map(m, k, None::<V>).contains_key(k),
        !m.contains_key(k) ==> prepare_outcome(m, k, Some(v)) is Created && prepared_map(
            m,
            k,
            Some(v),
        ) == m.insert(k, v) && prepared_map(m, k, Some(v))[k] == v,
        !m.contains_key(k) ==> prepare_outcome(prepared_map(m, k, Some(v)), k, p) is AlreadyExists,
{
}

/// The documented race of the conditional insertion: two callers race on an
/// absent key, both see it absent and both factories produce, so both commit
/// and both observe `Created`; the commit that runs last wins and exactly its
/// value is stored. The last clause shows the contrast with the unconditional
/// operation, whose atomic insert-if-absent commit keeps the first value.
pub proof fn lemma_create_if_absent_race_last_writer_wins<K, V>(m: Map<K, V>, k: K, v1: V, v2: V)
    requires
        !m.contains_key(k),
    ensures
        prepare_outcome(m, k, Some(v1)) is Created,
        prepare_outcome(m, k, Some(v2)) is Created,
        m.insert(k, v1).insert(k, v2) == m.insert(k, v2),
        m.insert(k, v1).insert(k, v2)[k] == v2,
        committed_map(committed_map(m, k, v1), k, v2)[k] == v1,
{
    assert(m.insert(k, v1).insert(k, v2) =~= m.insert(k, v2));
}

} // verus!
