//! The embedded key-value backend, held behind trusted wrappers. The
//! store's logical contents are a map from string keys to byte values,
//! named by `kv_contents`; each wrapper states what the backend's own
//! source shows of the call it makes.

use vstd::prelude::*;
use crate::errors::Error;

verus! {

/// A handle to one on-disk key-value tree.
#[verifier::external_body]
pub struct KvStore {
    db: sled::Db,
}

/// What the tree holds, keyed by the UTF-8 string whose bytes are the
/// sled key. Every wrapper below speaks of this map.
pub uninterp spec fn kv_contents(s: KvStore) -> Map<Seq<char>, Seq<u8>>;

impl KvStore {
    /// Relies on `sled::open`: opens the tree at `path`, creating it if
    /// missing. What it holds depends on the disk, so nothing is said of
    /// the contents.
    #[verifier::external_body]
    pub(crate) fn open(path: &str) -> (r: Result<KvStore, Error>)
        ensures
            match r {
                Ok(_) => true,
                Err(e) => e == Error::StoreIOError,
            },
    {
        match sled::open(path) {
            Ok(db) => Ok(KvStore { db }),
            Err(_) => Err(Error::StoreIOError),
        }
    }

    /// Relies on `sled::Tree::get`: returns the value at the key when
    /// one is present, and nothing when none is.
    #[verifier::external_body]
    pub(crate) fn get(&self, key: &str) -> (r: Result<Option<Vec<u8>>, Error>)
        ensures
            match r {
                Ok(Some(v)) => kv_contents(*self).dom().contains(key@) && v@ == kv_contents(
                    *self,
                )[key@],
                Ok(None) => !kv_contents(*self).dom().contains(key@),
                Err(e) => e == Error::StoreIOError,
            },
    {
        match self.db.get(key.as_bytes()) {
            Ok(Some(v)) => Ok(Some(v.to_vec())),
            Ok(None) => Ok(None),
            Err(_) => Err(Error::StoreIOError),
        }
    }

    /// Relies on `sled::Tree::insert`: on success the tree maps the key
    /// to the value and is otherwise unchanged. On failure nothing is
    /// said of the contents.
    #[verifier::external_body]
    pub(crate) fn insert(&mut self, key: &str, value: &[u8]) -> (r: Result<(), Error>)
        ensures
            match r {
                Ok(_) => kv_contents(*final(self)) == kv_contents(*old(self)).insert(key@, value@),
                Err(e) => e == Error::StoreIOError,
            },
    {
        match self.db.insert(key.as_bytes(), value) {
            Ok(_) => Ok(()),
            Err(_) => Err(Error::StoreIOError),
        }
    }

    /// Relies on `sled::Tree::flush`: blocks until previous writes are
    /// durable; the tree's contents are not changed by flushing.
    #[verifier::external_body]
    pub(crate) fn flush(&mut self) -> (r: Result<(), Error>)
        ensures
            kv_contents(*final(self)) == kv_contents(*old(self)),
            match r {
                Ok(_) => true,
                Err(e) => e == Error::StoreIOError,
            },
    {
        match self.db.flush() {
            Ok(_) => Ok(()),
            Err(_) => Err(Error::StoreIOError),
        }
    }
}

} // verus!
