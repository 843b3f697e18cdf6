//! The packed wire encoding of leaf values.
//!
//! A packed leaf holds one scalar, encoded canonically as exactly four
//! little-endian bytes.  The encoding is total over all values a leaf can
//! hold, and the same value always encodes to the same bytes.

use vstd::prelude::*;

verus! {

/// Number of bytes a packed leaf encodes to.
pub const LEAF_ENCODING_LEN: usize = 4;

/// The canonical little-endian encoding of a leaf scalar.
pub open spec fn leaf_bytes(n: u32) -> Seq<u8> {
    seq![
        (n & 0xff) as u8,
        ((n >> 8) & 0xff) as u8,
        ((n >> 16) & 0xff) as u8,
        ((n >> 24) & 0xff) as u8,
    ]
}

/// The scalar a four-byte little-endian blob decodes to.
pub open spec fn leaf_value(s: Seq<u8>) -> u32
    recommends
        s.len() == 4,
{
    (s[0] as u32) | ((s[1] as u32) << 8) | ((s[2] as u32) << 16) | ((s[3] as u32) << 24)
}

/// Decoding inverts encoding: the wire format loses nothing.
pub proof fn lemma_leaf_roundtrip(n: u32)
    ensures
        leaf_bytes(n).len() == 4,
        leaf_value(leaf_bytes(n)) == n,
{
    assert((((n & 0xff) as u8 as u32) | ((((n >> 8) & 0xff) as u8 as u32) << 8) | ((((n >> 16)
        & 0xff) as u8 as u32) << 16) | ((((n >> 24) & 0xff) as u8 as u32) << 24)) == n)
        by (bit_vector);
}

/// Encodes a leaf scalar to its four-byte blob.
pub fn encode_leaf(n: u32) -> (r: Vec<u8>)
    ensures
        r@ == leaf_bytes(n),
{
    let mut r: Vec<u8> = Vec::new();
    r.push((n & 0xff) as u8);
    r.push(((n >> 8) & 0xff) as u8);
    r.push(((n >> 16) & 0xff) as u8);
    r.push(((n >> 24) & 0xff) as u8);
    proof {
        assert(r@ =~= leaf_bytes(n));
    }
    r
}

/// Decodes a four-byte blob back to the leaf scalar.
pub fn decode_leaf(bytes: &[u8]) -> (r: u32)
    requires
        bytes@.len() == 4,
    ensures
        r == leaf_value(bytes@),
{
    let b0 = bytes[0] as u32;
    let b1 = bytes[1] as u32;
    let b2 = bytes[2] as u32;
    let b3 = bytes[3] as u32;
    b0 | (b1 << 8) | (b2 << 16) | (b3 << 24)
}

} // verus!
