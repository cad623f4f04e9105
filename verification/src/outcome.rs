use vstd::prelude::*;

verus! {

/// Tri-state result of the conditional insertion, `StorageMap::prepare_maybe`.
///
/// - `AlreadyExists`: the key was found under the shared lock; the factory was
///   never invoked and the map is unchanged.
/// - `UnableToCreate`: the key was absent but the factory declined to produce
///   a value; the map is unchanged and the key remains retriably absent.
/// - `Created`: the factory produced a value and it was committed under the
///   exclusive lock.
#[derive(Clone, Copy, Debug, PartialEq, Eq, Structural)]
pub enum PrepareResult {
    AlreadyExists,
    UnableToCreate,
    Created,
}

} // verus!
