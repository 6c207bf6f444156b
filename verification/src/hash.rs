//! Hashes with the source that computed them.

use vstd::prelude::*;

verus! {

/// Hash with traced source
#[derive(Clone, Copy, Debug, Default, Eq, Hash, Ord, PartialEq, PartialOrd)]
pub struct NamedHash<H, S> {
    /// Hash value
    pub hash: H,
    /// Hash source
    pub source: S,
}

/// Source of hash which results from a process.
#[derive(Clone, Copy, Debug, Default, Eq, Hash, Ord, PartialEq, PartialOrd)]
pub struct HashProcessSource<'s> {
    /// Hash command
    pub command: &'s str,
    /// Command arguments
    pub args: &'s [&'s str],
}

} // verus!
