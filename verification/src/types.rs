//! The plain values that the pool rules speak of.

use vstd::prelude::*;

verus! {

/// Identifier of a fungible asset. Pools are identified by asset ids too:
/// the id of a pool is the id of its share token.
pub type AssetId = u32;

/// An amount of an asset.
pub type Balance = u64;

/// Identifier of an account of the asset ledger.
pub type AccountId = u64;

/// The hash by which the ids of pools are derived from pairs of assets. A
/// deployment chooses one and keeps to it: that two pairs never get the same
/// id rests on the hash being strong, and is not proved.
#[derive(Clone, Copy, Debug, PartialEq, Eq, Structural)]
pub enum AssetIdHash {
    /// Blake2, 256 bits.
    BlakeTwo256,
    /// Keccak, 256 bits.
    Keccak256,
}

/// Why an operation was turned down.
#[derive(Clone, Copy, Debug, PartialEq, Eq, Structural)]
pub enum Error {
    /// No pool holds liquidity for the request.
    NoLiquidity,
    /// The caller's balance does not cover what the operation takes in.
    NotEnoughTokens,
    /// A pool is already registered under the pair's id.
    LiquidityAlreadyExists,
    /// An amount that the operation would have to book exceeds [`Balance::MAX`].
    Overflow,
    /// The ledger refused a step that the pool's books say must go through.
    LedgerFault,
}

/// The reserves of one pool.
#[derive(Clone, Copy, Debug, PartialEq, Eq, Structural)]
pub struct Pair {
    pub x_id: AssetId,
    pub x_balance: Balance,
    pub y_id: AssetId,
    pub y_balance: Balance,
}

impl Pair {
    /// The two assets differ and the smaller id is stored first.
    pub open spec fn wf(self) -> bool {
        self.x_id < self.y_id
    }

    /// Whether this is a pool over exactly the assets `a` and `b`.
    pub open spec fn holds(self, a: AssetId, b: AssetId) -> bool {
        (self.x_id == a && self.y_id == b) || (self.x_id == b && self.y_id == a)
    }

    /// The reserve of `asset`; zero for an asset that the pool does not hold.
    pub open spec fn reserve(self, asset: AssetId) -> Balance {
        if asset == self.x_id {
            self.x_balance
        } else if asset == self.y_id {
            self.y_balance
        } else {
            0
        }
    }

    /// This pool with the reserve of `asset` set to `amount`.
    pub open spec fn with_reserve(self, asset: AssetId, amount: Balance) -> Pair {
        if asset == self.x_id {
            Pair { x_balance: amount, ..self }
        } else if asset == self.y_id {
            Pair { y_balance: amount, ..self }
        } else {
            self
        }
    }

    /// The record of a pool that holds `a_amount` of `a` and `b_amount` of `b`.
    pub open spec fn of(a: AssetId, a_amount: Balance, b: AssetId, b_amount: Balance) -> Pair {
        if a <= b {
            Pair { x_id: a, x_balance: a_amount, y_id: b, y_balance: b_amount }
        } else {
            Pair { x_id: b, x_balance: b_amount, y_id: a, y_balance: a_amount }
        }
    }

    /// Builds the record of a pool over two assets, whichever comes first.
    pub fn new(a: AssetId, a_amount: Balance, b: AssetId, b_amount: Balance) -> (pair: Pair)
        ensures
            pair == Pair::of(a, a_amount, b, b_amount),
            a != b ==> pair.wf() && pair.holds(a, b),
            a != b ==> pair.reserve(a) == a_amount && pair.reserve(b) == b_amount,
    {
        if a <= b {
            Pair { x_id: a, x_balance: a_amount, y_id: b, y_balance: b_amount }
        } else {
            Pair { x_id: b, x_balance: b_amount, y_id: a, y_balance: a_amount }
        }
    }

    /// Whether this is a pool over exactly the assets `a` and `b`.
    pub fn is_over(&self, a: AssetId, b: AssetId) -> (yes: bool)
        ensures
            yes == self.holds(a, b),
    {
        (self.x_id == a && self.y_id == b) || (self.x_id == b && self.y_id == a)
    }

    /// The reserve of `asset`; zero for an asset that the pool does not hold.
    pub fn reserve_of(&self, asset: AssetId) -> (amount: Balance)
        ensures
            amount == self.reserve(asset),
    {
        if asset == self.x_id {
            self.x_balance
        } else if asset == self.y_id {
            self.y_balance
        } else {
            0
        }
    }

    /// This pool with the reserve of `asset` set to `amount`.
    pub fn set_reserve(&self, asset: AssetId, amount: Balance) -> (pair: Pair)
        ensures
            pair == self.with_reserve(asset, amount),
    {
        if asset == self.x_id {
            Pair { x_id: self.x_id, x_balance: amount, y_id: self.y_id, y_balance: self.y_balance }
        } else if asset == self.y_id {
            Pair { x_id: self.x_id, x_balance: self.x_balance, y_id: self.y_id, y_balance: amount }
        } else {
            *self
        }
    }
}

/// What an operation reports once it has gone through.
#[derive(Clone, Copy, Debug, PartialEq, Eq)]
pub enum Event {
    /// `who` paid `from` into a pool and received `to` from it.
    Swapped { who: AccountId, from: (AssetId, Balance), to: (AssetId, Balance) },
    /// `who` added `x` and `y` to a pool and received the shares `lp`.
    Locked {
        who: AccountId,
        x: (AssetId, Balance),
        y: (AssetId, Balance),
        lp: (AssetId, Balance),
    },
    /// `who` gave up the shares `lp` and received `x` and `y` from the pool.
    Unlocked {
        who: AccountId,
        x: (AssetId, Balance),
        y: (AssetId, Balance),
        lp: (AssetId, Balance),
    },
    /// `who` opened a pool with `x` and `y` and received its first shares `lp`.
    LPMinted {
        who: AccountId,
        x: (AssetId, Balance),
        y: (AssetId, Balance),
        lp: (AssetId, Balance),
    },
}

/// One call to the asset ledger.
#[derive(Clone, Copy, Debug, PartialEq, Eq)]
pub enum LedgerCall {
    /// Move `amount` of `asset` from one account to another.
    Transfer { from: AccountId, to: AccountId, asset: AssetId, amount: Balance },
    /// Issue `amount` new units of `asset` to `to`.
    Mint { asset: AssetId, amount: Balance, to: AccountId },
    /// Destroy `amount` units of `asset` held by `from`.
    Burn { asset: AssetId, amount: Balance, from: AccountId },
    /// Register `asset` as a new asset owned by `owner`.
    CreateAsset { asset: AssetId, owner: AccountId, min_balance: Balance },
}

} // verus!
