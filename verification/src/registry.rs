//! The pool registry: one reserve record for every pool id.

use crate::pool_id::{pool_id, pool_id_of};
use crate::types::{AssetId, AssetIdHash, Pair};
use std::collections::HashMap;
use vstd::prelude::*;

verus! {

broadcast use vstd::std_specs::hash::group_hash_axioms;

/// Whether every record of `pools` is well formed and sits under the id
/// that `hash` derives from its two assets.
pub open spec fn registry_wf(hash: AssetIdHash, pools: Map<AssetId, Pair>) -> bool {
    forall|id: AssetId| #[trigger]
        pools.contains_key(id) ==> pools[id].wf() && id == pool_id(
            hash,
            pools[id].x_id,
            pools[id].y_id,
        )
}

/// The registered pools, by pool id.
pub struct LPPairs {
    pairs: HashMap<AssetId, Pair>,
}

impl View for LPPairs {
    type V = Map<AssetId, Pair>;

    closed spec fn view(&self) -> Map<AssetId, Pair> {
        self.pairs@
    }
}

impl LPPairs {
    /// Every record is well formed and filed under the id that `hash`
    /// derives from its two assets.
    pub open spec fn wf(&self, hash: AssetIdHash) -> bool {
        registry_wf(hash, self@)
    }

    /// A registry without pools, fit for whichever hash.
    pub fn new() -> (pools: LPPairs)
        ensures
            pools@ == Map::<AssetId, Pair>::empty(),
            forall|hash: AssetIdHash| pools.wf(hash),
    {
        LPPairs { pairs: HashMap::new() }
    }

    /// Whether a pool is registered under `id`.
    pub fn contains_key(&self, id: AssetId) -> (found: bool)
        ensures
            found == self@.contains_key(id),
    {
        self.pairs.contains_key(&id)
    }

    /// The record registered under `id`.
    pub fn get(&self, id: AssetId) -> (pair: Option<Pair>)
        ensures
            pair == (if self@.contains_key(id) {
                Some(self@[id])
            } else {
                None
            }),
    {
        match self.pairs.get(&id) {
            Some(pair) => Some(*pair),
            None => None,
        }
    }

    /// The number of registered pools.
    pub fn len(&self) -> (n: usize)
        ensures
            n == self@.len(),
    {
        self.pairs.len()
    }

    /// Files `pair` under the id that `hash` derives from its two assets, in
    /// place of the record that was there, and returns that id.
    pub fn insert(&mut self, hash: AssetIdHash, pair: Pair) -> (id: AssetId)
        requires
            old(self).wf(hash),
            pair.wf(),
        ensures
            id == pool_id(hash, pair.x_id, pair.y_id),
            final(self)@ == old(self)@.insert(id, pair),
            final(self).wf(hash),
    {
        let id = pool_id_of(hash, pair.x_id, pair.y_id);
        self.put(Ghost(hash), id, pair);
        id
    }

    /// Files `pair` under `id`, in place of the record that was there.
    pub(crate) fn put(&mut self, Ghost(hash): Ghost<AssetIdHash>, id: AssetId, pair: Pair)
        requires
            old(self).wf(hash),
            pair.wf(),
            id == pool_id(hash, pair.x_id, pair.y_id),
        ensures
            final(self)@ == old(self)@.insert(id, pair),
            final(self).wf(hash),
    {
        self.pairs.insert(id, pair);
    }
}

} // verus!
