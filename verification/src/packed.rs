//! Packed persistence: one value, one slot.
//!
//! A packed value lives in a single slot as one opaque byte blob; the
//! packed contract never advances a cursor — slot addressing is entirely
//! the caller's responsibility.  Reading a slot distinguishes an absent
//! entry from one whose bytes do not decode as a packed leaf.

use vstd::prelude::*;

use crate::codec::leaf_bytes;
use crate::codec::leaf_value;
use crate::codec::encode_leaf;
use crate::codec::decode_leaf;
use crate::error::Error;
use crate::store::Store;

verus! {

/// What reading the slot at `k` yields: the decoded leaf scalar, or why
/// it cannot be decoded.
pub open spec fn read_slot(s: Map<int, Seq<u8>>, k: int) -> Result<u32, Error> {
    if !s.contains_key(k) {
        Err(Error::NotFound)
    } else if s[k].len() != 4 {
        Err(Error::DecodeFailure)
    } else {
        Ok(leaf_value(s[k]))
    }
}

/// Encodes `n` and writes the blob to the slot at `key` (full overwrite).
pub fn push_packed(n: u32, store: &mut Store, key: u32)
    ensures
        final(store)@ == old(store)@.insert(key as int, leaf_bytes(n)),
{
    store.set(key, encode_leaf(n));
}

/// Reads the slot at `key` and decodes the blob back to a leaf scalar.
///
/// Returns the stored scalar exactly when the slot holds a well-formed
/// blob; [`Error::NotFound`] when the slot is absent; and
/// [`Error::DecodeFailure`] when bytes are present but malformed.
pub fn pull_packed(store: &Store, key: u32) -> (r: Result<u32, Error>)
    ensures
        r == read_slot(store@, key as int),
{
    match store.get(key) {
        None => Err(Error::NotFound),
        Some(bytes) => {
            if bytes.len() != 4 {
                Err(Error::DecodeFailure)
            } else {
                Ok(decode_leaf(bytes.as_slice()))
            }
        },
    }
}

/// Removes the slot at `key`.
pub fn clear_packed(store: &mut Store, key: u32)
    ensures
        final(store)@ == old(store)@.remove(key as int),
{
    store.clear(key);
}

/// A round trip through one slot: pulling what push wrote yields the
/// pushed value again.
pub proof fn lemma_packed_roundtrip(s: Map<int, Seq<u8>>, n: u32, k: int)
    ensures
        read_slot(s.insert(k, leaf_bytes(n)), k) == Ok::<u32, Error>(n),
{
    crate::codec::lemma_leaf_roundtrip(n);
}

} // verus!
