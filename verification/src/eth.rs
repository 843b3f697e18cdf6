//! Ethereum-compatible views of ECDSA public keys.
//!
//! A compressed secp256k1 public key can be rendered as the Ethereum
//! address derived from the Keccak-256 hash of its uncompressed form, or
//! as the default 32-byte account identifier derived by hashing the
//! compressed key with Blake2b-256.

use vstd::prelude::*;

verus! {

broadcast use vstd::array::lemma_array_index;

/// The ECDSA compressed public key.
#[derive(Debug, Copy, Clone)]
pub struct ECDSAPublicKey(pub [u8; 33]);

impl View for ECDSAPublicKey {
    type V = Seq<u8>;

    open spec fn view(&self) -> Seq<u8> {
        self.0@
    }
}

impl Default for ECDSAPublicKey {
    fn default() -> (r: Self)
        ensures
            r@.len() == 33,
            forall|i: int| 0 <= i < 33 ==> r@[i] == 0,
    {
        ECDSAPublicKey([0; 33])
    }
}

/// The address of an Ethereum account.
#[derive(Debug, Copy, Clone)]
pub struct EthereumAddress(pub [u8; 20]);

impl View for EthereumAddress {
    type V = Seq<u8>;

    open spec fn view(&self) -> Seq<u8> {
        self.0@
    }
}

impl Default for EthereumAddress {
    fn default() -> (r: Self)
        ensures
            r@.len() == 20,
            forall|i: int| 0 <= i < 20 ==> r@[i] == 0,
    {
        EthereumAddress([0; 20])
    }
}

/// The default 32-byte account identifier.
#[derive(Debug, Copy, Clone)]
pub struct AccountId(pub [u8; 32]);

impl View for AccountId {
    type V = Seq<u8>;

    open spec fn view(&self) -> Seq<u8> {
        self.0@
    }
}

/// The uncompressed secp256k1 encoding of a compressed public key, when
/// the 33 bytes are a valid compressed point.
pub uninterp spec fn uncompressed_of(pk: Seq<u8>) -> Option<Seq<u8>>;

/// The Keccak-256 digest of a byte string.
pub uninterp spec fn keccak256_of(data: Seq<u8>) -> Seq<u8>;

/// The Blake2b-256 digest of a byte string.
pub uninterp spec fn blake2b256_of(data: Seq<u8>) -> Seq<u8>;

/// Relies on libsecp256k1's PublicKey::parse_compressed and its
/// serialize: parsing succeeds exactly on valid compressed points,
/// depends on the bytes alone, and the serialized uncompressed form is
/// 65 bytes led by the tag byte 4.
#[verifier::external_body]
fn uncompress(pk: &[u8; 33]) -> (r: Option<[u8; 65]>)
    ensures
        match r {
            Some(b) => uncompressed_of(pk@) == Some(b@) && b@.len() == 65 && b@[0] == 4,
            None => uncompressed_of(pk@) is None,
        },
{
    match libsecp256k1::PublicKey::parse_compressed(pk) {
        Ok(p) => Some(p.serialize()),
        Err(_) => None,
    }
}

/// Relies on sha3::Keccak256: the 32-byte digest depends on the input
/// bytes alone.
#[verifier::external_body]
fn keccak256(data: &[u8]) -> (r: [u8; 32])
    ensures
        r@ == keccak256_of(data@),
{
    <sha3::Keccak256 as sha3::Digest>::digest(data).into()
}

/// Relies on blake2::Blake2b with a 32-byte output: the digest depends
/// on the input bytes alone.
#[verifier::external_body]
fn blake2b256(data: &[u8]) -> (r: [u8; 32])
    ensures
        r@ == blake2b256_of(data@),
{
    <blake2::Blake2b<blake2::digest::consts::U32> as blake2::Digest>::digest(data).into()
}

/// The Ethereum address a compressed public key determines: the last 20
/// bytes of the Keccak-256 hash of the uncompressed point without its
/// tag byte.
pub open spec fn eth_address_of(pk: Seq<u8>) -> Seq<u8> {
    match uncompressed_of(pk) {
        Some(u) => keccak256_of(u.skip(1)).skip(12),
        None => Seq::empty(),
    }
}

impl ECDSAPublicKey {
    /// Returns the Ethereum address of this public key.
    ///
    /// The key must be a valid compressed point; [`Self::try_to_eth_address`]
    /// checks that first and never demands it.
    pub fn to_eth_address(&self) -> (r: EthereumAddress)
        requires
            uncompressed_of(self@) is Some,
        ensures
            r@ == eth_address_of(self@),
    {
        match uncompress(&self.0) {
            Some(unc) => {
                let hash = keccak256(vstd::slice::slice_subrange(unc.as_slice(), 1, 65));
                let mut out: [u8; 20] = [0; 20];
                let mut i: usize = 0;
                while i < 20
                    invariant
                        i <= 20,
                        hash@.len() == 32,
                        out@.len() == 20,
                        forall|j: int| 0 <= j < i ==> out@[j] == hash@[12 + j],
                    decreases 20 - i,
                {
                    out.set(i, hash[12 + i]);
                    i = i + 1;
                }
                proof {
                    assert(unc@.subrange(1, 65) =~= unc@.skip(1));
                    assert(out@ =~= keccak256_of(unc@.skip(1)).skip(12));
                }
                EthereumAddress(out)
            },
            None => {
                proof {
                    assert(false);
                }
                EthereumAddress([0; 20])
            },
        }
    }

    /// Returns the Ethereum address of this public key, or `None` when
    /// the 33 bytes are not a valid compressed point.
    pub fn try_to_eth_address(&self) -> (r: Option<EthereumAddress>)
        ensures
            match r {
                Some(a) => uncompressed_of(self@) is Some && a@ == eth_address_of(self@),
                None => uncompressed_of(self@) is None,
            },
    {
        match uncompress(&self.0) {
            Some(_) => Some(self.to_eth_address()),
            None => None,
        }
    }

    /// Returns the default account identifier of this public key: the
    /// Blake2b-256 hash of the compressed key.
    pub fn to_default_account_id(&self) -> (r: AccountId)
        ensures
            r@ == blake2b256_of(self@),
    {
        AccountId(blake2b256(self.0.as_slice()))
    }
}

} // verus!
