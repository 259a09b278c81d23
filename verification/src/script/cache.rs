//! The cache objects that scripts see. What they promise is not kept yet.
use vstd::prelude::*;

verus! {

/// How a promise stands when it is handed to the script.
#[derive(Clone, Copy, Debug, PartialEq, Eq, Structural)]
pub enum Promised {
    /// Open.
    Pending,
    /// Kept, with no value.
    Nothing,
}

/// What a script asks of a cache.
#[derive(Clone, Copy, Debug, PartialEq, Eq, Structural)]
pub enum CacheOperation {
    Match,
    MatchAll,
    Add,
    AddAll,
    Put,
    Delete,
    Keys,
}

/// A cache.
pub struct Cache {
    name: String,
}

impl Cache {
    /// The name of the cache.
    pub closed spec fn spec_name(&self) -> Seq<char> {
        self.name@
    }

    /// A cache with a name.
    pub fn new(name: String) -> (r: Self)
        ensures
            r.spec_name() == name@,
    {
        Cache { name }
    }

    /// The name of the cache.
    pub fn name(&self) -> (r: &str)
        ensures
            r@ == self.spec_name(),
    {
        self.name.as_str()
    }

    /// The promise that a script gets: nothing is done about it.
    pub fn request(&self, operation: CacheOperation) -> (r: Promised)
        ensures
            r == Promised::Pending,
    {
        match operation {
            CacheOperation::Match => Promised::Pending,
            CacheOperation::MatchAll => Promised::Pending,
            CacheOperation::Add => Promised::Pending,
            CacheOperation::AddAll => Promised::Pending,
            CacheOperation::Put => Promised::Pending,
            CacheOperation::Delete => Promised::Pending,
            CacheOperation::Keys => Promised::Pending,
        }
    }
}

/// What a script asks of the caches of its origin.
#[derive(Clone, Copy, Debug, PartialEq, Eq, Structural)]
pub enum CacheStorageOperation {
    Match,
    Has,
    Open,
    Delete,
    Keys,
}

/// The caches of an origin.
pub struct CacheStorage {}

impl CacheStorage {
    /// The caches of an origin.
    pub fn new() -> (r: Self) {
        CacheStorage {}
    }

    /// The promise that a script gets: a match finds nothing, and nothing is done about the rest.
    pub fn request(&self, operation: CacheStorageOperation) -> (r: Promised)
        ensures
            r == if operation == CacheStorageOperation::Match {
                Promised::Nothing
            } else {
                Promised::Pending
            },
    {
        match operation {
            CacheStorageOperation::Match => Promised::Nothing,
            _ => Promised::Pending,
        }
    }
}

} // verus!
