use vstd::prelude::*;

verus! {

/// Which capacity limit an operation would have breached.
#[derive(Clone, Copy, Debug, PartialEq, Eq, Structural)]
pub enum CapacityKind {
    /// The limit on the number of live assets in the whole registry.
    Global,
    /// The limit on the number of live assets a single account may hold.
    PerOwner,
}

/// Why a mutating registry operation was refused. A refused operation leaves
/// the registry unchanged.
#[derive(Clone, Copy, Debug, PartialEq, Eq, Structural)]
pub enum RegistryError {
    /// No live asset carries the given identifier.
    AssetNotFound,
    /// The identifier belongs to a live asset or to one that was burned.
    DuplicateAsset,
    /// The operation would breach one of the two capacity limits.
    CapacityExceeded(CapacityKind),
    /// The caller is not allowed to perform the operation.
    NotAuthorized,
}

} // verus!
