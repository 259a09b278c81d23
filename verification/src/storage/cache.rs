//! The manager of the caches that scripts keep.
use crate::indexeddb::description::ImmutableOrigin;
use crate::text::owned_text;
use vstd::prelude::*;

verus! {

/// Makes the handle of a running cache manager. Its files go below `config_dir`.
pub trait CacheThreadFactory: Sized {
    fn new(config_dir: Option<String>) -> Self;
}

/// A request to the cache manager. The channel that a reply would go to is the caller's business.
pub enum CacheThreadMsg {
    /// Whether an origin has a cache with a name.
    HasStore(ImmutableOrigin, String),
    /// Delete a cache of an origin.
    DeleteStore(ImmutableOrigin, String),
    /// The names of the caches of an origin.
    StoreKeys(ImmutableOrigin),
}

/// What becomes of the channel that a reply would go to.
#[derive(Clone, Copy, Debug, PartialEq, Eq, Structural)]
pub enum CacheReply {
    /// It is dropped, with nothing sent.
    Dropped,
}

/// What a `CacheManager` stands for.
pub struct CacheManagerModel {
    pub config_dir: Option<Seq<char>>,
}

/// The cache manager.
pub struct CacheManager {
    config_dir: Option<String>,
}

impl View for CacheManager {
    type V = CacheManagerModel;

    closed spec fn view(&self) -> CacheManagerModel {
        CacheManagerModel { config_dir: owned_text(self.config_dir) }
    }
}

impl CacheManager {
    /// A manager whose files go below `config_dir`.
    pub fn new(config_dir: Option<String>) -> (r: Self)
        ensures
            r@ == (CacheManagerModel { config_dir: owned_text(config_dir) }),
    {
        CacheManager { config_dir }
    }

    /// Takes a request. None is answered yet, and none changes anything.
    pub fn handle(&mut self, message: CacheThreadMsg) -> (r: CacheReply)
        ensures
            final(self)@ == old(self)@,
            r == CacheReply::Dropped,
    {
        match message {
            CacheThreadMsg::HasStore(_, _) => CacheReply::Dropped,
            CacheThreadMsg::DeleteStore(_, _) => CacheReply::Dropped,
            CacheThreadMsg::StoreKeys(_) => CacheReply::Dropped,
        }
    }

    /// Where the files of the manager go.
    pub fn config_dir(&self) -> (r: Option<&str>)
        ensures
            match r {
                Some(dir) => self@.config_dir == Some(dir@),
                None => self@.config_dir is None,
            },
    {
        match &self.config_dir {
            Some(dir) => Some(dir.as_str()),
            None => None,
        }
    }
}

} // verus!
