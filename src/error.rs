use vstd::prelude::*;

verus! {

/// Failures of cache operations.
#[derive(Debug, Clone, Copy, PartialEq, Eq, Structural)]
pub enum Error {
    /// A direct (non-optional) lookup found nothing.
    NotFound,
    /// An insertion needed room that no eviction could free.
    NoCapacity,
    /// The storage backend failed to read or write.
    Io,
    /// Bytes read back do not form the expected artifact.
    Invalid,
}

} // verus!
