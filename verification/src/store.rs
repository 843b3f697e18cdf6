//! The byte store: a sparse mapping from slot keys to byte blobs.
//!
//! The store is the sole source of truth for persisted bytes.  It is
//! modelled as a finite map from slot keys to byte sequences; persistence
//! operations read, write and clear single slots through it.  One logical
//! owner mutates the store per call sequence, so a write followed by a
//! read at the same key observes the just-written bytes.

use vstd::prelude::*;

use crate::key::KEY_SPACE;

verus! {

/// A sparse, byte-addressed key-value store.
///
/// Its view is a map from slot keys (as mathematical integers in
/// `[0, KEY_SPACE)`) to the byte sequences stored at them.
pub struct Store {
    slots: std::collections::HashMap<u32, Vec<u8>>,
}

impl View for Store {
    type V = Map<int, Seq<u8>>;

    closed spec fn view(&self) -> Map<int, Seq<u8>> {
        Map::new(
            |k: int| 0 <= k < KEY_SPACE && self.slots@.contains_key(k as u32),
            |k: int| self.slots@[k as u32]@,
        )
    }
}

impl Store {
    /// Creates an empty store.
    pub fn new() -> (s: Store)
        ensures
            s@ == Map::<int, Seq<u8>>::empty(),
    {
        let s = Store { slots: std::collections::HashMap::new() };
        proof {
            assert(s@ =~= Map::<int, Seq<u8>>::empty());
        }
        s
    }

    /// Reads the blob stored at `key`, if any.
    pub fn get(&self, key: u32) -> (r: Option<&Vec<u8>>)
        ensures
            match r {
                Some(bytes) => self@.contains_key(key as int) && bytes@ == self@[key as int],
                None => !self@.contains_key(key as int),
            },
    {
        self.slots.get(&key)
    }

    /// Returns whether `key` holds a blob.
    pub fn contains(&self, key: u32) -> (r: bool)
        ensures
            r == self@.contains_key(key as int),
    {
        self.slots.contains_key(&key)
    }

    /// Writes `bytes` to the slot at `key`, replacing any previous blob.
    pub fn set(&mut self, key: u32, bytes: Vec<u8>)
        ensures
            final(self)@ == old(self)@.insert(key as int, bytes@),
    {
        self.slots.insert(key, bytes);
        proof {
            assert(self@ =~= old(self)@.insert(key as int, bytes@));
        }
    }

    /// Removes the blob at `key`, if any.
    pub fn clear(&mut self, key: u32)
        ensures
            final(self)@ == old(self)@.remove(key as int),
    {
        self.slots.remove(&key);
        proof {
            assert(self@ =~= old(self)@.remove(key as int));
        }
    }
}

} // verus!
