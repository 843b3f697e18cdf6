//! Storage keys and the cursor that lays values out across consecutive keys.
//!
//! A storage key identifies one slot of the key-value store and is a plain
//! `u32`, rendered for metadata as a fixed-width lowercase hexadecimal
//! string.  A [`Cursor`] wraps a running key position: persistence
//! operations take the current key and then advance the cursor by the
//! number of slots the value occupies.  The cursor position is kept as a
//! `u64` so that advancing just past the last representable slot key is
//! still well-defined.

use vstd::prelude::*;

verus! {

/// Number of distinct storage keys; slot keys are `u32` values.
pub const KEY_SPACE: u64 = 0x1_0000_0000;

/// A cursor over a contiguous run of storage keys.
///
/// One cursor is created per root persistence operation and is exclusively
/// owned by that operation's recursive descent.
pub struct Cursor {
    key: u64,
}

impl View for Cursor {
    type V = int;

    closed spec fn view(&self) -> int {
        self.key as int
    }
}

/// A cursor position is never negative.
pub broadcast proof fn lemma_cursor_nonneg(c: &Cursor)
    ensures
        #[trigger] c@ >= 0,
{
}

impl Cursor {
    /// Creates a cursor positioned at the given root key.
    pub fn new(root: u32) -> (c: Cursor)
        ensures
            c@ == root as int,
    {
        Cursor { key: root as u64 }
    }

    /// The key the cursor currently points at.
    pub fn key(&self) -> (k: u64)
        ensures
            k as int == self@,
    {
        self.key
    }

    /// The current key as a slot key, defined while the cursor is still
    /// inside the key space.
    pub fn slot(&self) -> (k: u32)
        requires
            self@ < KEY_SPACE,
        ensures
            k as int == self@,
    {
        self.key as u32
    }

    /// Takes the current key, then advances the cursor by `n` slots.
    pub fn advance_by(&mut self, n: u64) -> (k: u64)
        requires
            old(self)@ + n <= u64::MAX,
        ensures
            k as int == old(self)@,
            final(self)@ == old(self)@ + n,
    {
        let k = self.key;
        self.key = self.key + n;
        k
    }
}

} // verus!
