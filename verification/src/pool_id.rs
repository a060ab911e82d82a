//! Pool identity: one asset id for every unordered pair of assets.

use crate::types::{AssetId, AssetIdHash};
use vstd::prelude::*;

verus! {

/// The two ids with the smaller one first.
pub open spec fn ordered(a: AssetId, b: AssetId) -> (AssetId, AssetId) {
    if a <= b {
        (a, b)
    } else {
        (b, a)
    }
}

/// The Blake2 256-bit digest of the SCALE encoding of the tuple `(x, y)`.
pub uninterp spec fn blake2_256_of_pair(x: u32, y: u32) -> Seq<u8>;

/// The Keccak 256-bit digest of the SCALE encoding of the tuple `(x, y)`.
pub uninterp spec fn keccak_256_of_pair(x: u32, y: u32) -> Seq<u8>;

/// The digest of the tuple `(x, y)` under the chosen hash.
pub open spec fn pair_digest(hash: AssetIdHash, x: AssetId, y: AssetId) -> Seq<u8> {
    match hash {
        AssetIdHash::BlakeTwo256 => blake2_256_of_pair(x, y),
        AssetIdHash::Keccak256 => keccak_256_of_pair(x, y),
    }
}

/// The asset id that the first four bytes of a digest spell, low byte first.
pub open spec fn id_of_digest(digest: Seq<u8>) -> AssetId {
    (digest[0] + 256 * digest[1] + 65536 * digest[2] + 16777216 * digest[3]) as AssetId
}

/// The id of the pool over `a` and `b`, in whichever order they are given.
pub open spec fn pool_id(hash: AssetIdHash, a: AssetId, b: AssetId) -> AssetId {
    let (x, y) = ordered(a, b);
    id_of_digest(pair_digest(hash, x, y))
}

/// `sp_runtime::traits::Hash::hash_of` of `BlakeTwo256` on the tuple `(x, y)`:
/// the Blake2 256-bit digest of the tuple's SCALE encoding, handed back as
/// its 32 bytes. That the digest is a function of the two ids alone is taken
/// on trust; nothing else is claimed of it.
#[verifier::external_body]
fn blake2_256_hash_of(x: AssetId, y: AssetId) -> (digest: Vec<u8>)
    ensures
        digest@ == blake2_256_of_pair(x, y),
        digest@.len() == 32,
{
    let hash = <sp_runtime::traits::BlakeTwo256 as sp_runtime::traits::Hash>::hash_of(&(x, y));
    hash.0.to_vec()
}

/// `sp_runtime::traits::Hash::hash_of` of `Keccak256` on the tuple `(x, y)`:
/// the Keccak 256-bit digest of the tuple's SCALE encoding, handed back as
/// its 32 bytes. That the digest is a function of the two ids alone is taken
/// on trust; nothing else is claimed of it.
#[verifier::external_body]
fn keccak_256_hash_of(x: AssetId, y: AssetId) -> (digest: Vec<u8>)
    ensures
        digest@ == keccak_256_of_pair(x, y),
        digest@.len() == 32,
{
    let hash = <sp_runtime::traits::Keccak256 as sp_runtime::traits::Hash>::hash_of(&(x, y));
    hash.0.to_vec()
}

/// `parity_scale_codec::Decode::decode` for `u32` on a byte slice: it reads
/// the first four bytes as a little-endian number and fails on fewer.
#[verifier::external_body]
fn decode_asset_id(bytes: &Vec<u8>) -> (id: Option<AssetId>)
    ensures
        bytes@.len() >= 4 ==> id == Some(id_of_digest(bytes@)),
        bytes@.len() < 4 ==> id is None,
{
    <AssetId as parity_scale_codec::Decode>::decode(&mut bytes.as_slice()).ok()
}

/// Reads a digest as an asset id.
pub fn id_from_digest(digest: &Vec<u8>) -> (id: AssetId)
    requires
        digest@.len() >= 4,
    ensures
        id == id_of_digest(digest@),
{
    match decode_asset_id(digest) {
        Some(id) => id,
        None => vstd::pervasive::unreached(),
    }
}

/// Derives the id of the pool over `x` and `y` under the chosen hash.
pub(crate) fn pool_id_of(hash: AssetIdHash, x: AssetId, y: AssetId) -> (id: AssetId)
    ensures
        id == pool_id(hash, x, y),
        id == pool_id(hash, y, x),
{
    let (lo, hi) = if x > y {
        (y, x)
    } else {
        (x, y)
    };
    let digest = match hash {
        AssetIdHash::BlakeTwo256 => blake2_256_hash_of(lo, hi),
        AssetIdHash::Keccak256 => keccak_256_hash_of(lo, hi),
    };
    id_from_digest(&digest)
}

} // verus!
