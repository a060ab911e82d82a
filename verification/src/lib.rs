//! Constant-product liquidity pools: the rules by which pools over two assets
//! are created, traded against, funded and redeemed.
//!
//! The library keeps the books and decides; it never touches an asset ledger.
//! Every operation of [`Pallet`] reads the pool registry and hands back a
//! [`Staged`] plan: the ledger calls to run inside one atomic scope and the
//! registry write that goes with them. [`Staged::settle`] takes the ledger's
//! answer and either applies the write or leaves the registry as it was.

pub mod laws;
pub mod math;
pub mod pallet;
pub mod pool_id;
pub mod registry;
pub mod staged;
pub mod types;

pub use pallet::{Config, Pallet};
pub use pool_id::{id_from_digest, pool_id};
pub use registry::LPPairs;
pub use staged::{Commit, Outcome, Plan, Staged};
pub use types::{AccountId, AssetId, AssetIdHash, Balance, Error, Event, LedgerCall, Pair};
