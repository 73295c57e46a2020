use vstd::prelude::*;

verus! {

/// Identifier of a widget or surface entity in the entity graph.
pub type EntityId = u64;

/// Identifier of an asset resource, possibly still loading.
pub type HandleId = u64;

/// The null handle: denotes "no asset", the resolution of an empty path.
pub const DEFAULT_HANDLE: HandleId = 0;

} // verus!
